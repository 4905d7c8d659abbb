use vstd::prelude::*;

use rand::Rng;

use crate::snake::{
    heading_or, move_forward_spec, next_cell, opposite_dir, overlap_tail_spec, restore_tail_spec,
    snake_new_spec, turn, Direction, Snake, SnakeModel,
};

verus! {

/// Milliseconds between two timer-driven snake moves.
pub const MOVING_PERIOD_MS: u64 = 100;

/// Milliseconds the game rests on the game-over screen before it restarts.
pub const RESTART_TIME_MS: u64 = 1000;

/// How often a fresh food cell is sampled at random before the search falls
/// back to a deterministic scan of the board.
pub const FOOD_SAMPLE_TRIES: u32 = 64;

/// The mathematical shape of a game: the snake, the food cell if one exists,
/// the fixed board size, the terminal flag, and the time accumulated since the
/// last tick, in milliseconds.
#[verifier::ext_equal]
pub struct GameModel {
    pub snake: SnakeModel,
    pub food: Option<(int, int)>,
    pub width: int,
    pub height: int,
    pub game_over: bool,
    pub waiting: int,
}

/// Whether a cell can ever be part of the snake on this board: the head only
/// ever advances strictly inside the walls, and the spawn cells also satisfy
/// these bounds.
pub open spec fn cell_on_board(g: GameModel, c: (int, int)) -> bool {
    &&& 0 <= c.0 <= g.width - 2
    &&& 0 <= c.1 <= g.height - 2
}

impl GameModel {
    /// Well-formedness of everything but the food: a board of at least 4 by 4
    /// that fits in `i32`, a nonempty snake whose cells (and retained tail
    /// cell) lie on the board, and a waiting time that fits in `u64`.
    pub open spec fn base_wf(self) -> bool {
        &&& self.snake.wf()
        &&& 4 <= self.width <= i32::MAX as int
        &&& 4 <= self.height <= i32::MAX as int
        &&& forall|i: int|
            0 <= i < self.snake.body.len() ==> cell_on_board(self, #[trigger] self.snake.body[i])
        &&& (self.snake.tail matches Some(t) ==> cell_on_board(self, t))
        &&& 0 <= self.waiting <= u64::MAX as int
    }

    /// Full well-formedness: additionally, the food, while it exists, never
    /// lies on the snake's body.
    pub open spec fn wf(self) -> bool {
        &&& self.base_wf()
        &&& (self.food matches Some(f) ==> !self.snake.body.contains(f))
    }

    /// The food cell, when one exists.
    pub open spec fn food_cell(self) -> (int, int)
        recommends
            self.food is Some,
    {
        self.food->0
    }
}

/// `g` with its waiting time replaced.
pub open spec fn with_waiting(g: GameModel, w: int) -> GameModel {
    GameModel { waiting: w, ..g }
}

/// `g` with its food replaced.
pub open spec fn with_food(g: GameModel, food: Option<(int, int)>) -> GameModel {
    GameModel { food, ..g }
}

/// A fresh game on a `w` by `h` board: the snake spawned with its head at
/// (2, 2), food at the fixed default cell (6, 4), not over, no time waited.
pub open spec fn game_new_spec(w: int, h: int) -> GameModel {
    GameModel {
        snake: snake_new_spec(2, 2),
        food: Some((6, 4)),
        width: w,
        height: h,
        game_over: false,
        waiting: 0,
    }
}

/// Whether the snake survives a step: the cell the head would move to (under
/// the override heading if one is given) must not lie on the body past the
/// head and must lie strictly inside the one-cell-thick boundary walls.
pub open spec fn alive_spec(g: GameModel, dir: Option<Direction>) -> bool {
    let nh = next_cell(g.snake.head(), heading_or(g.snake.dir, dir));
    &&& !overlap_tail_spec(g.snake, nh.0, nh.1)
    &&& 0 < nh.0 < g.width - 1
    &&& 0 < nh.1 < g.height - 1
}

/// The eating check: when the head sits exactly on the food, the food is
/// cleared and the retained tail cell is restored, growing the snake by one.
/// Otherwise nothing changes.
pub open spec fn eat_spec(g: GameModel) -> GameModel {
    if g.food matches Some(f) && f == g.snake.head() {
        GameModel { snake: restore_tail_spec(g.snake), food: None, ..g }
    } else {
        g
    }
}

/// One full snake step of the game: if the snake survives, it advances and the
/// eating check runs; otherwise the game becomes over. Either way the waiting
/// time restarts at zero.
pub open spec fn step_spec(g: GameModel, dir: Option<Direction>) -> GameModel {
    if alive_spec(g, dir) {
        let moved = GameModel { snake: move_forward_spec(g.snake, dir), ..g };
        with_waiting(eat_spec(moved), 0)
    } else {
        with_waiting(GameModel { game_over: true, ..g }, 0)
    }
}

/// A key press: ignored entirely while the game is over, ignored when no
/// direction was recognised, ignored when the requested direction is the exact
/// opposite of the current heading; otherwise it triggers an immediate,
/// timer-independent snake step with that direction.
pub open spec fn key_spec(g: GameModel, dir: Option<Direction>) -> GameModel {
    if g.game_over {
        g
    } else {
        match dir {
            None => g,
            Some(d) => if d == opposite_dir(g.snake.dir) {
                g
            } else {
                step_spec(g, Some(d))
            },
        }
    }
}

/// Whether `f` is an acceptable cell for fresh food on `g`'s board: sampled
/// from `[1, width) x [1, height)` and nowhere on the snake's body.
pub open spec fn food_ok(g: GameModel, f: (int, int)) -> bool {
    &&& 1 <= f.0 < g.width
    &&& 1 <= f.1 < g.height
    &&& !g.snake.body.contains(f)
}

/// What placing food does to the game: when some acceptable cell exists, the
/// food is set to such a cell and nothing else changes; on a board with no
/// acceptable cell left the game is unchanged.
pub open spec fn food_placed(g: GameModel, g2: GameModel) -> bool {
    if exists|f: (int, int)| food_ok(g, f) {
        exists|f: (int, int)| #[trigger] food_ok(g, f) && g2 == with_food(g, Some(f))
    } else {
        g2 == g
    }
}

/// What the food phase of an update does: nothing while food exists, else food
/// placement as `food_placed` says.
pub open spec fn fed_spec(g: GameModel, g2: GameModel) -> bool {
    if g.food is Some {
        g2 == g
    } else {
        food_placed(g, g2)
    }
}

/// `a + b` saturated at `u64::MAX`, over the integers.
pub open spec fn sat_add_u64(a: int, b: int) -> int {
    if a + b > u64::MAX as int {
        u64::MAX as int
    } else {
        a + b
    }
}

/// What one frame update with `dt` elapsed milliseconds does. The waiting
/// time grows by `dt`. While the game is over, nothing else happens until the
/// waiting time exceeds the restart pause, at which point the game resets to
/// its construction-time state. While the game runs, missing food is placed
/// first, and once the waiting time exceeds the moving period the snake makes
/// a timer-driven step.
pub open spec fn update_rel(g: GameModel, dt: int, g2: GameModel) -> bool {
    let w = sat_add_u64(g.waiting, dt);
    if g.game_over {
        if w > RESTART_TIME_MS as int {
            g2 == game_new_spec(g.width, g.height)
        } else {
            g2 == with_waiting(g, w)
        }
    } else {
        exists|mid: GameModel|
            #[trigger] fed_spec(with_waiting(g, w), mid) && g2 == (if w > MOVING_PERIOD_MS as int {
                step_spec(mid, None)
            } else {
                mid
            })
    }
}

/// The snake game proper: the snake, the food cell and its existence flag, the
/// fixed board bounds, the terminal flag, and the accumulated waiting time in
/// milliseconds.
pub struct Game {
    snake: Snake,
    food_exists: bool,
    food_x: i32,
    food_y: i32,
    width: i32,
    height: i32,
    game_over: bool,
    waiting_time: u64,
}

impl View for Game {
    type V = GameModel;

    closed spec fn view(&self) -> GameModel {
        GameModel {
            snake: self.snake@,
            food: if self.food_exists {
                Some((self.food_x as int, self.food_y as int))
            } else {
                None
            },
            width: self.width as int,
            height: self.height as int,
            game_over: self.game_over,
            waiting: self.waiting_time as int,
        }
    }
}

/// Relies on rand::Rng::gen_range on rand::thread_rng: it returns a uniformly
/// sampled value of the given half-open range, and panics only when the range
/// is empty, which the precondition rules out.
#[verifier::external_body]
fn random_in_range(low: i32, high: i32) -> (r: i32)
    requires
        low < high,
    ensures
        low <= r < high,
{
    rand::thread_rng().gen_range(low..high)
}

impl Game {
    /// A fresh game on a `width` by `height` board. The board must at least
    /// hold the spawned snake and its walls.
    pub fn new(width: i32, height: i32) -> (g: Game)
        requires
            4 <= width,
            4 <= height,
        ensures
            g@ == game_new_spec(width as int, height as int),
            g@.wf(),
    {
        let g = Game {
            snake: Snake::new(2, 2),
            waiting_time: 0,
            food_exists: true,
            food_x: 6,
            food_y: 4,
            width,
            height,
            game_over: false,
        };
        proof {
            assert(g@ =~~= game_new_spec(width as int, height as int));
            lemma_new_game_wf(width as int, height as int);
        }
        g
    }

    /// Whether the game has reached its terminal state.
    pub fn is_game_over(&self) -> (r: bool)
        ensures
            r == self@.game_over,
    {
        self.game_over
    }

    /// The food cell, if food currently exists.
    pub fn food(&self) -> (r: Option<(i32, i32)>)
        ensures
            match r {
                Some(f) => self@.food == Some((f.0 as int, f.1 as int)),
                None => self@.food is None,
            },
    {
        if self.food_exists {
            Some((self.food_x, self.food_y))
        } else {
            None
        }
    }

    /// The snake, for read-only queries.
    pub fn snake(&self) -> (s: &Snake)
        ensures
            s@ == self@.snake,
    {
        &self.snake
    }

    /// The fixed board size.
    pub fn size(&self) -> (r: (i32, i32))
        ensures
            (r.0 as int, r.1 as int) == (self@.width, self@.height),
    {
        (self.width, self.height)
    }

    /// Whether the snake would survive a step under the given override
    /// heading: its next head cell must not hit the body past the head nor
    /// leave the open play area inside the walls.
    pub fn check_if_alive(&self, dir: Option<Direction>) -> (r: bool)
        requires
            self@.base_wf(),
        ensures
            r == alive_spec(self@, dir),
    {
        proof {
            assert(self@.snake.body[0] == self@.snake.head());
        }
        let (next_x, next_y) = self.snake.next_head(dir);
        if self.snake.overlap_tail(next_x, next_y) {
            return false;
        }
        next_x > 0 && next_y > 0 && next_x < self.width - 1 && next_y < self.height - 1
    }

    /// Runs the eating check: when the head sits on existing food, clears the
    /// food and restores the retained tail cell, growing the snake by one.
    pub fn check_eating(&mut self)
        requires
            old(self)@.base_wf(),
        ensures
            final(self)@ == eat_spec(old(self)@),
            final(self)@.base_wf(),
            old(self)@.wf() ==> final(self)@.wf(),
    {
        proof {
            assert(old(self)@.snake.body[0] == old(self)@.snake.head());
        }
        let (head_x, head_y) = self.snake.head_position();
        if self.food_exists && self.food_x == head_x && self.food_y == head_y {
            self.food_exists = false;
            self.snake.restore_tail();
            proof {
                assert(self@ =~~= eat_spec(old(self)@));
                lemma_restore_preserves_bounds(old(self)@, self@);
            }
        } else {
            proof {
                assert(self@ =~~= eat_spec(old(self)@));
            }
        }
    }

    /// One snake step: advances and checks eating when the snake survives,
    /// else marks the game over. Resets the waiting time either way. A
    /// reversal override is never handed in here: `key_pressed` filters such
    /// presses out, and with one the alive check would examine a different
    /// cell than the one the advance ignores it toward, which could walk the
    /// snake onto the walls.
    pub fn update_snake(&mut self, dir: Option<Direction>)
        requires
            old(self)@.wf(),
            dir matches Some(d) ==> d != opposite_dir(old(self)@.snake.dir),
        ensures
            final(self)@ == step_spec(old(self)@, dir),
            final(self)@.wf(),
    {
        proof {
            assert(old(self)@.snake.body[0] == old(self)@.snake.head());
        }
        if self.check_if_alive(dir) {
            self.snake.move_forward(dir);
            let ghost moved = self@;
            proof {
                assert(moved =~~= GameModel {
                    snake: move_forward_spec(old(self)@.snake, dir),
                    ..old(self)@
                });
                lemma_move_preserves_game_wf(old(self)@, moved, dir);
            }
            self.check_eating();
            proof {
                if moved.food matches Some(f) && f != moved.snake.head() {
                    assert(self@ == moved);
                }
            }
        } else {
            self.game_over = true;
        }
        self.waiting_time = 0;
        proof {
            assert(self@ =~~= step_spec(old(self)@, dir));
        }
    }

    /// Handles one key press, already mapped to a direction if it was one of
    /// the arrow keys (`None` for any unrecognised key, which is ignored).
    /// While the game is over, or when the direction is the exact opposite of
    /// the snake's heading, nothing happens; otherwise the snake immediately
    /// makes a step with that direction, bypassing the movement timer.
    pub fn key_pressed(&mut self, dir: Option<Direction>)
        requires
            old(self)@.wf(),
        ensures
            final(self)@ == key_spec(old(self)@, dir),
            final(self)@.wf(),
    {
        if self.game_over {
            return;
        }
        let d = match dir {
            Some(d) => d,
            None => {
                return;
            },
        };
        if d == self.snake.head_direction().opposite() {
            return;
        }
        self.update_snake(Some(d));
    }

    /// Places fresh food: samples cells uniformly at random from
    /// `[1, width) x [1, height)` a bounded number of times, and if every
    /// sample landed on the snake, falls back to scanning the board for the
    /// first free cell. Only a board whose whole sample region is covered by
    /// the snake leaves the game unchanged.
    pub fn add_food(&mut self)
        requires
            old(self)@.base_wf(),
        ensures
            final(self)@.base_wf(),
            food_placed(old(self)@, final(self)@),
            (exists|f: (int, int)| food_ok(old(self)@, f)) ==> final(self)@.wf(),
            old(self)@.wf() ==> final(self)@.wf(),
    {
        let mut tries: u32 = 0;
        while tries < FOOD_SAMPLE_TRIES
            invariant
                *self == *old(self),
                old(self)@.base_wf(),
            decreases FOOD_SAMPLE_TRIES - tries,
        {
            let new_x = random_in_range(1, self.width);
            let new_y = random_in_range(1, self.height);
            if !self.snake.overlaps_body(new_x, new_y) {
                self.food_x = new_x;
                self.food_y = new_y;
                self.food_exists = true;
                proof {
                    let f = (new_x as int, new_y as int);
                    assert(food_ok(old(self)@, f));
                    assert(self@ =~~= with_food(old(self)@, Some(f)));
                }
                return;
            }
            tries += 1;
        }
        let mut yy: i32 = 1;
        while yy < self.height
            invariant
                *self == *old(self),
                old(self)@.base_wf(),
                1 <= yy <= self@.height,
                forall|c: (int, int)|
                    1 <= c.1 < yy && 1 <= c.0 < self@.width ==> #[trigger] self@.snake.body.contains(
                        c,
                    ),
            decreases self@.height - yy,
        {
            let mut xx: i32 = 1;
            while xx < self.width
                invariant
                    *self == *old(self),
                    old(self)@.base_wf(),
                    1 <= yy < self@.height,
                    1 <= xx <= self@.width,
                    forall|c: (int, int)|
                        1 <= c.1 < yy && 1 <= c.0 < self@.width
                            ==> #[trigger] self@.snake.body.contains(c),
                    forall|c: (int, int)|
                        c.1 == yy as int && 1 <= c.0 < xx ==> #[trigger] self@.snake.body.contains(
                            c,
                        ),
                decreases self@.width - xx,
            {
                if !self.snake.overlaps_body(xx, yy) {
                    self.food_x = xx;
                    self.food_y = yy;
                    self.food_exists = true;
                    proof {
                        let f = (xx as int, yy as int);
                        assert(food_ok(old(self)@, f));
                        assert(self@ =~~= with_food(old(self)@, Some(f)));
                    }
                    return;
                }
                xx += 1;
            }
            yy += 1;
        }
        proof {
            assert forall|f: (int, int)| !food_ok(old(self)@, f) by {
                if 1 <= f.0 < old(self)@.width && 1 <= f.1 < old(self)@.height {
                    assert(old(self)@.snake.body.contains(f));
                }
            }
        }
    }

    /// Resets every mutable field to its construction-time value; the board
    /// size is immutable for the game's lifetime.
    pub fn restart(&mut self)
        requires
            old(self)@.base_wf(),
        ensures
            final(self)@ == game_new_spec(old(self)@.width, old(self)@.height),
            final(self)@.wf(),
    {
        self.snake = Snake::new(2, 2);
        self.waiting_time = 0;
        self.food_exists = true;
        self.food_x = 6;
        self.food_y = 4;
        self.game_over = false;
        proof {
            assert(self@ =~~= game_new_spec(old(self)@.width, old(self)@.height));
            lemma_new_game_wf(old(self)@.width, old(self)@.height);
        }
    }

    /// One frame update with `dt` elapsed milliseconds, as `update_rel` says:
    /// accumulate waiting time; while over, restart once the pause has passed;
    /// while running, place missing food and make a timer-driven step once the
    /// moving period has passed.
    pub fn update(&mut self, delta_time_ms: u64)
        requires
            old(self)@.wf(),
        ensures
            final(self)@.wf(),
            update_rel(old(self)@, delta_time_ms as int, final(self)@),
    {
        self.waiting_time = if self.waiting_time <= u64::MAX - delta_time_ms {
            self.waiting_time + delta_time_ms
        } else {
            u64::MAX
        };
        let ghost accumulated = self@;
        if self.game_over {
            if self.waiting_time > RESTART_TIME_MS {
                self.restart();
            }
            proof {
                assert(accumulated == with_waiting(
                    old(self)@,
                    sat_add_u64(old(self)@.waiting, delta_time_ms as int),
                ));
            }
            return;
        }
        if !self.food_exists {
            self.add_food();
        }
        let ghost mid = self@;
        if self.waiting_time > MOVING_PERIOD_MS {
            self.update_snake(None);
        }
        proof {
            assert(accumulated =~~= with_waiting(
                old(self)@,
                sat_add_u64(old(self)@.waiting, delta_time_ms as int),
            ));
            assert(fed_spec(accumulated, mid));
        }
    }
}

/// A fresh game is well formed: the spawned snake lies on any board of at
/// least 4 by 4, and the default food cell lies off its body.
pub proof fn lemma_new_game_wf(w: int, h: int)
    requires
        4 <= w <= i32::MAX as int,
        4 <= h <= i32::MAX as int,
    ensures
        game_new_spec(w, h).wf(),
{
    let g = game_new_spec(w, h);
    assert(g.snake.body[0] == (2int, 2int));
    assert(g.snake.body[1] == (1int, 2int));
    assert(g.snake.body[2] == (0int, 2int));
    assert forall|i: int| 0 <= i < g.snake.body.len() implies cell_on_board(
        g,
        #[trigger] g.snake.body[i],
    ) by {
        assert(i == 0 || i == 1 || i == 2);
    }
    assert(!g.snake.body.contains((6int, 4int)));
}

/// The tail restoration inside the eating check keeps every body cell on the
/// board: the cell it appends was a body cell one move earlier.
proof fn lemma_restore_preserves_bounds(g: GameModel, g2: GameModel)
    requires
        g.base_wf(),
        g2.snake == restore_tail_spec(g.snake),
        g2.width == g.width,
        g2.height == g.height,
        0 <= g2.waiting <= u64::MAX as int,
    ensures
        g2.base_wf(),
        g2.food is None ==> g2.wf(),
{
    match g.snake.tail {
        Some(t) => {
            assert forall|i: int| 0 <= i < g2.snake.body.len() implies cell_on_board(
                g2,
                #[trigger] g2.snake.body[i],
            ) by {
                if i < g.snake.body.len() {
                    assert(g2.snake.body[i] == g.snake.body[i]);
                } else {
                    assert(g2.snake.body[i] == t);
                }
            }
        },
        None => {},
    }
}

/// Advancing a surviving snake (with no reversal override) keeps the game's
/// geometric invariants, and the food can at worst coincide with the new head
/// cell.
proof fn lemma_move_preserves_game_wf(g: GameModel, g2: GameModel, dir: Option<Direction>)
    requires
        g.wf(),
        alive_spec(g, dir),
        dir matches Some(d) ==> d != opposite_dir(g.snake.dir),
        g2.snake == move_forward_spec(g.snake, dir),
        g2.food == g.food,
        g2.width == g.width,
        g2.height == g.height,
        0 <= g2.waiting <= u64::MAX as int,
    ensures
        g2.base_wf(),
        g2.snake.head() == next_cell(g.snake.head(), heading_or(g.snake.dir, dir)),
        g2.food matches Some(f) ==> f == g2.snake.head() || !g2.snake.body.contains(f),
{
    let nh = next_cell(g.snake.head(), heading_or(g.snake.dir, dir));
    assert(turn(g.snake.dir, dir) == heading_or(g.snake.dir, dir));
    assert(g2.snake.body[0] == nh);
    assert forall|i: int| 0 <= i < g2.snake.body.len() implies cell_on_board(
        g2,
        #[trigger] g2.snake.body[i],
    ) by {
        if i > 0 {
            assert(g2.snake.body[i] == g.snake.body.drop_last()[i - 1]);
            assert(g.snake.body.drop_last()[i - 1] == g.snake.body[i - 1]);
        }
    }
    assert(g2.snake.tail == Some(g.snake.body.last()));
    assert(cell_on_board(g2, g.snake.body[g.snake.body.len() - 1]));
    match g2.food {
        Some(f) => {
            if f != g2.snake.head() {
                assert(!g.snake.body.contains(f));
                assert forall|i: int|
                    0 <= i < g2.snake.body.len() implies g2.snake.body[i] != f by {
                    if i > 0 {
                        assert(g2.snake.body[i] == g.snake.body[i - 1]);
                    }
                }
                assert(!g2.snake.body.contains(f));
            }
        },
        None => {},
    }
}

/// Hitting the boundary walls is lethal: whenever the next head cell lies on
/// the border rows or columns, the alive check fails.
pub proof fn lemma_wall_kills(g: GameModel, dir: Option<Direction>)
    ensures
        ({
            let nh = next_cell(g.snake.head(), heading_or(g.snake.dir, dir));
            nh.0 == 0 || nh.0 == g.width - 1 || nh.1 == 0 || nh.1 == g.height - 1
        }) ==> !alive_spec(g, dir),
{
}

/// Hitting oneself is lethal: whenever the next head cell equals any body cell
/// past the head, the alive check fails.
pub proof fn lemma_self_collision_kills(g: GameModel, dir: Option<Direction>, i: int)
    requires
        1 <= i < g.snake.body.len(),
        g.snake.body[i] == next_cell(g.snake.head(), heading_or(g.snake.dir, dir)),
    ensures
        !alive_spec(g, dir),
{
    let nh = next_cell(g.snake.head(), heading_or(g.snake.dir, dir));
    assert(overlap_tail_spec(g.snake, nh.0, nh.1));
}

/// A key press requesting the exact opposite of the current heading changes
/// nothing: neither the heading nor the body moves.
pub proof fn lemma_reversal_ignored(g: GameModel, d: Direction)
    requires
        d == opposite_dir(g.snake.dir),
    ensures
        key_spec(g, Some(d)) == g,
{
}

} // verus!
