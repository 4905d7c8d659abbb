use vstd::prelude::*;

verus! {

/// The four headings a snake can take on the grid. The grid's y axis grows
/// downward, matching screen coordinates.
#[derive(Clone, Copy, PartialEq, Eq, Structural, Debug)]
pub enum Direction {
    Up,
    Down,
    Left,
    Right,
}

/// The heading opposite to `d`. A snake may never reverse into its own neck,
/// so callers compare a requested heading against this.
pub open spec fn opposite_dir(d: Direction) -> Direction {
    match d {
        Direction::Up => Direction::Down,
        Direction::Down => Direction::Up,
        Direction::Left => Direction::Right,
        Direction::Right => Direction::Left,
    }
}

impl Direction {
    /// Returns the opposite heading.
    pub fn opposite(&self) -> (r: Direction)
        ensures
            r == opposite_dir(*self),
    {
        match *self {
            Direction::Up => Direction::Down,
            Direction::Down => Direction::Up,
            Direction::Left => Direction::Right,
            Direction::Right => Direction::Left,
        }
    }
}

/// Taking the opposite twice yields the original heading: `opposite_dir` is an
/// involution.
pub proof fn lemma_opposite_involution(d: Direction)
    ensures
        opposite_dir(opposite_dir(d)) == d,
{
}

/// One grid cell of the snake's body.
#[derive(Clone, Copy, PartialEq, Eq, Structural, Debug)]
struct Block {
    x: i32,
    y: i32,
}

/// The mathematical shape of a snake: the body cells head-first, the current
/// heading, and the cell most recently dropped from the tail (kept so that it
/// can be restored when food is eaten on the same tick).
#[verifier::ext_equal]
pub struct SnakeModel {
    pub body: Seq<(int, int)>,
    pub dir: Direction,
    pub tail: Option<(int, int)>,
}

impl SnakeModel {
    /// A snake always has at least one body cell.
    pub open spec fn wf(self) -> bool {
        self.body.len() >= 1
    }

    /// The front cell of the body.
    pub open spec fn head(self) -> (int, int) {
        self.body[0]
    }
}

/// The heading that an optional override selects: the override if given, else
/// the current heading.
pub open spec fn heading_or(cur: Direction, dir: Option<Direction>) -> Direction {
    match dir {
        Some(d) => d,
        None => cur,
    }
}

/// The heading after a requested turn: the request is honoured unless it is
/// the exact opposite of the current heading, which is ignored.
pub open spec fn turn(cur: Direction, dir: Option<Direction>) -> Direction {
    match dir {
        Some(d) => if d == opposite_dir(cur) {
            cur
        } else {
            d
        },
        None => cur,
    }
}

/// The cell one step from `c` along heading `d`.
pub open spec fn next_cell(c: (int, int), d: Direction) -> (int, int) {
    match d {
        Direction::Up => (c.0, c.1 - 1),
        Direction::Down => (c.0, c.1 + 1),
        Direction::Left => (c.0 - 1, c.1),
        Direction::Right => (c.0 + 1, c.1),
    }
}

/// A freshly spawned snake: three cells extending leftward from `(x, y)`,
/// heading Right, with no dropped tail cell retained.
pub open spec fn snake_new_spec(x: int, y: int) -> SnakeModel {
    SnakeModel {
        body: seq![(x, y), (x - 1, y), (x - 2, y)],
        dir: Direction::Right,
        tail: None,
    }
}

/// One advance of the snake: the heading turns as `turn` says, a new head is
/// added in front, and the last cell is dropped and retained in `tail`.
/// The body length is unchanged.
pub open spec fn move_forward_spec(m: SnakeModel, dir: Option<Direction>) -> SnakeModel {
    SnakeModel {
        body: seq![next_cell(m.head(), turn(m.dir, dir))] + m.body.drop_last(),
        dir: turn(m.dir, dir),
        tail: Some(m.body.last()),
    }
}

/// Restoring the tail: the retained cell, if any, is appended back to the body
/// and the retained slot is cleared. This is how eating makes the snake grow.
pub open spec fn restore_tail_spec(m: SnakeModel) -> SnakeModel {
    match m.tail {
        Some(t) => SnakeModel { body: m.body.push(t), dir: m.dir, tail: None },
        None => m,
    }
}

/// Whether `(x, y)` lies on the body anywhere past the head (the head itself,
/// at index 0, is deliberately not considered).
pub open spec fn overlap_tail_spec(m: SnakeModel, x: int, y: int) -> bool {
    exists|i: int| 1 <= i < m.body.len() && m.body[i] == (x, y)
}

/// A player-controlled segmented creature on the grid: an ordered body of
/// cells (head first), a current heading, and a one-slot undo buffer for the
/// most recently dropped tail cell.
pub struct Snake {
    direction: Direction,
    body: Vec<Block>,
    tail: Option<Block>,
}

impl View for Snake {
    type V = SnakeModel;

    closed spec fn view(&self) -> SnakeModel {
        SnakeModel {
            body: self.body@.map_values(|b: Block| (b.x as int, b.y as int)),
            dir: self.direction,
            tail: match self.tail {
                Some(b) => Some((b.x as int, b.y as int)),
                None => None,
            },
        }
    }
}

impl Snake {
    /// Spawns a three-cell snake heading Right whose head is at `(x, y)` and
    /// whose body extends leftward.
    pub fn new(x: i32, y: i32) -> (s: Snake)
        requires
            i32::MIN + 2 <= x,
        ensures
            s@ == snake_new_spec(x as int, y as int),
            s@.wf(),
    {
        let mut body: Vec<Block> = Vec::new();
        body.push(Block { x, y });
        body.push(Block { x: x - 1, y });
        body.push(Block { x: x - 2, y });
        let s = Snake { direction: Direction::Right, body, tail: None };
        proof {
            assert(s@.body =~= snake_new_spec(x as int, y as int).body);
            assert(s@ =~~= snake_new_spec(x as int, y as int));
        }
        s
    }

    /// The number of cells in the body.
    pub fn body_len(&self) -> (n: usize)
        ensures
            n == self@.body.len(),
    {
        self.body.len()
    }

    /// The body cell at position `i`, counted from the head.
    pub fn body_cell(&self, i: usize) -> (c: (i32, i32))
        requires
            i < self@.body.len(),
        ensures
            (c.0 as int, c.1 as int) == self@.body[i as int],
    {
        let b = self.body[i];
        (b.x, b.y)
    }

    /// The front cell of the body.
    pub fn head_position(&self) -> (r: (i32, i32))
        requires
            self@.wf(),
        ensures
            (r.0 as int, r.1 as int) == self@.head(),
    {
        let head_block = self.body[0];
        (head_block.x, head_block.y)
    }

    /// The current heading.
    pub fn head_direction(&self) -> (r: Direction)
        ensures
            r == self@.dir,
    {
        self.direction
    }

    /// The cell the head would move to under the override direction if one is
    /// given, else under the current heading. Does not mutate the snake.
    pub fn next_head(&self, dir: Option<Direction>) -> (r: (i32, i32))
        requires
            self@.wf(),
            i32::MIN < self@.head().0 < i32::MAX,
            i32::MIN < self@.head().1 < i32::MAX,
        ensures
            (r.0 as int, r.1 as int) == next_cell(self@.head(), heading_or(self@.dir, dir)),
    {
        let (hx, hy) = self.head_position();
        let d = match dir {
            Some(d) => d,
            None => self.direction,
        };
        match d {
            Direction::Up => (hx, hy - 1),
            Direction::Down => (hx, hy + 1),
            Direction::Left => (hx - 1, hy),
            Direction::Right => (hx + 1, hy),
        }
    }

    /// Advances the snake one cell: honours `dir` unless it is the opposite of
    /// the current heading, pushes the new head cell in front, and drops the
    /// last cell into the retained-tail slot.
    pub fn move_forward(&mut self, dir: Option<Direction>)
        requires
            old(self)@.wf(),
            i32::MIN < old(self)@.head().0 < i32::MAX,
            i32::MIN < old(self)@.head().1 < i32::MAX,
        ensures
            final(self)@ == move_forward_spec(old(self)@, dir),
            final(self)@.wf(),
    {
        match dir {
            Some(d) => {
                if d != self.direction.opposite() {
                    self.direction = d;
                }
            },
            None => {},
        }
        let (nx, ny) = self.next_head(None);
        self.body.insert(0, Block { x: nx, y: ny });
        let removed = self.body.pop().unwrap();
        self.tail = Some(removed);
        proof {
            assert(self@.body =~= move_forward_spec(old(self)@, dir).body);
            assert(self@ =~~= move_forward_spec(old(self)@, dir));
        }
    }

    /// Appends the retained tail cell, if any, back to the body and clears the
    /// retained slot; a no-op when nothing is retained.
    pub fn restore_tail(&mut self)
        ensures
            final(self)@ == restore_tail_spec(old(self)@),
    {
        match self.tail {
            Some(b) => {
                self.body.push(b);
                self.tail = None;
                proof {
                    assert(self@.body =~= restore_tail_spec(old(self)@).body);
                    assert(self@ =~~= restore_tail_spec(old(self)@));
                }
            },
            None => {},
        }
    }

    /// Whether `(x, y)` lies on the body past the head. Used both for
    /// self-collision checks and for food placement.
    pub fn overlap_tail(&self, x: i32, y: i32) -> (r: bool)
        ensures
            r == overlap_tail_spec(self@, x as int, y as int),
    {
        let mut i: usize = 1;
        while i < self.body.len()
            invariant
                1 <= i,
                i <= self.body.len() || self.body.len() < 1,
                forall|j: int| 1 <= j < i ==> self@.body[j] != (x as int, y as int),
            decreases self.body.len() - i,
        {
            let b = self.body[i];
            if b.x == x && b.y == y {
                proof {
                    assert(self@.body[i as int] == (x as int, y as int));
                }
                return true;
            }
            i += 1;
        }
        false
    }

    /// Whether `(x, y)` lies anywhere on the body, head included.
    pub fn overlaps_body(&self, x: i32, y: i32) -> (r: bool)
        requires
            self@.wf(),
        ensures
            r == self@.body.contains((x as int, y as int)),
    {
        let (hx, hy) = self.head_position();
        let r = (hx == x && hy == y) || self.overlap_tail(x, y);
        proof {
            if r {
                if hx == x && hy == y {
                    assert(self@.body[0] == (x as int, y as int));
                } else {
                    let i = choose|i: int| 1 <= i < self@.body.len() && self@.body[i] == (
                    x as int,
                    y as int,
                    );
                    assert(self@.body[i] == (x as int, y as int));
                }
            } else {
                assert(forall|i: int|
                    0 <= i < self@.body.len() ==> self@.body[i] != (x as int, y as int));
            }
        }
        r
    }
}

/// A fresh snake has exactly three cells, its head at the spawn point, and
/// heads Right.
pub proof fn lemma_new_snake_shape(x: int, y: int)
    ensures
        snake_new_spec(x, y).body.len() == 3,
        snake_new_spec(x, y).head() == (x, y),
        snake_new_spec(x, y).dir == Direction::Right,
{
}

/// An advance keeps the body length, and with no override while heading Right
/// the new head is one cell to the right of the old one.
pub proof fn lemma_move_forward_step(m: SnakeModel, dir: Option<Direction>)
    requires
        m.wf(),
    ensures
        move_forward_spec(m, dir).body.len() == m.body.len(),
        m.dir == Direction::Right && dir is None ==> move_forward_spec(m, dir).head() == (
        m.head().0 + 1,
        m.head().1,
        ),
{
}

/// An advance followed at once by a tail restoration grows the body by exactly
/// one cell, and the restored cell is the very cell the advance removed.
pub proof fn lemma_move_then_restore(m: SnakeModel, dir: Option<Direction>)
    requires
        m.wf(),
    ensures
        restore_tail_spec(move_forward_spec(m, dir)).body.len() == m.body.len() + 1,
        move_forward_spec(m, dir).tail == Some(m.body.last()),
        restore_tail_spec(move_forward_spec(m, dir)).body.last() == m.body.last(),
{
}

/// The tail-overlap query at the head's own cell is exactly the question
/// whether some body cell past the head equals the head: it never holds merely
/// because the head matches itself, yet it does hold when the snake
/// self-intersects at the head cell.
pub proof fn lemma_overlap_tail_at_head(m: SnakeModel)
    requires
        m.wf(),
    ensures
        overlap_tail_spec(m, m.head().0, m.head().1) <==> exists|i: int|
            1 <= i < m.body.len() && m.body[i] == m.head(),
{
}

} // verus!
