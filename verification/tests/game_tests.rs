use snake_game::draw::to_coord_u32;
use snake_game::game::Game;
use snake_game::snake::Direction;

#[test]
fn new_game_defaults() {
    let g = Game::new(10, 10);
    assert!(!g.is_game_over());
    assert_eq!(g.food(), Some((6, 4)));
    assert_eq!(g.size(), (10, 10));
    assert_eq!(g.snake().head_position(), (2, 2));
    assert_eq!(g.snake().body_len(), 3);
}

#[test]
fn four_steps_pass_beside_food() {
    let mut g = Game::new(10, 10);
    for _ in 0..4 {
        g.update_snake(None);
    }
    assert_eq!(g.snake().head_position(), (6, 2));
    assert_eq!(g.snake().body_len(), 3);
    assert_eq!(g.food(), Some((6, 4)));
    assert!(!g.is_game_over());
}

#[test]
fn eating_clears_food_and_grows() {
    let mut g = Game::new(10, 10);
    g.key_pressed(Some(Direction::Down));
    g.key_pressed(Some(Direction::Down));
    g.key_pressed(Some(Direction::Right));
    g.key_pressed(Some(Direction::Right));
    g.key_pressed(Some(Direction::Right));
    assert_eq!(g.snake().head_position(), (5, 4));
    assert_eq!(g.snake().body_len(), 3);
    assert_eq!(g.food(), Some((6, 4)));
    g.key_pressed(Some(Direction::Right));
    assert_eq!(g.snake().head_position(), (6, 4));
    assert_eq!(g.food(), None);
    assert_eq!(g.snake().body_len(), 4);
}

#[test]
fn wall_collision_ends_game() {
    let mut g = Game::new(10, 10);
    g.update_snake(Some(Direction::Up));
    assert_eq!(g.snake().head_position(), (2, 1));
    assert!(!g.is_game_over());
    g.update_snake(Some(Direction::Up));
    assert!(g.is_game_over());
    assert_eq!(g.snake().head_position(), (2, 1));
}

#[test]
fn left_wall_is_lethal_too() {
    let mut g = Game::new(10, 10);
    g.update_snake(Some(Direction::Down));
    g.update_snake(Some(Direction::Left));
    assert_eq!(g.snake().head_position(), (1, 3));
    assert!(!g.is_game_over());
    g.update_snake(Some(Direction::Left));
    assert!(g.is_game_over());
}

#[test]
fn tight_board_first_step_is_lethal() {
    let mut g = Game::new(4, 4);
    g.update_snake(None);
    assert!(g.is_game_over());
    assert_eq!(g.snake().head_position(), (2, 2));
}

#[test]
fn self_collision_ends_game() {
    let mut g = Game::new(10, 10);
    g.key_pressed(Some(Direction::Down));
    g.key_pressed(Some(Direction::Down));
    g.key_pressed(Some(Direction::Right));
    g.key_pressed(Some(Direction::Right));
    g.key_pressed(Some(Direction::Right));
    g.key_pressed(Some(Direction::Right));
    assert_eq!(g.snake().body_len(), 4);
    g.update_snake(Some(Direction::Up));
    g.update_snake(Some(Direction::Left));
    assert_eq!(g.snake().head_position(), (5, 3));
    assert!(!g.is_game_over());
    g.update_snake(Some(Direction::Down));
    assert!(g.is_game_over());
    assert_eq!(g.snake().head_position(), (5, 3));
}

#[test]
fn reversal_key_is_ignored() {
    let mut g = Game::new(10, 10);
    g.key_pressed(Some(Direction::Left));
    assert_eq!(g.snake().head_position(), (2, 2));
    assert_eq!(g.snake().head_direction(), Direction::Right);
    assert!(!g.is_game_over());
}

#[test]
fn unrecognised_key_is_ignored() {
    let mut g = Game::new(10, 10);
    g.key_pressed(None);
    assert_eq!(g.snake().head_position(), (2, 2));
    assert_eq!(g.food(), Some((6, 4)));
}

#[test]
fn keys_are_ignored_after_game_over() {
    let mut g = Game::new(10, 10);
    g.update_snake(Some(Direction::Up));
    g.update_snake(Some(Direction::Up));
    assert!(g.is_game_over());
    g.key_pressed(Some(Direction::Down));
    assert!(g.is_game_over());
    assert_eq!(g.snake().head_position(), (2, 1));
}

#[test]
fn update_moves_only_after_moving_period() {
    let mut g = Game::new(10, 10);
    g.update(100);
    assert_eq!(g.snake().head_position(), (2, 2));
    g.update(1);
    assert_eq!(g.snake().head_position(), (3, 2));
    g.update(60);
    assert_eq!(g.snake().head_position(), (3, 2));
    g.update(60);
    assert_eq!(g.snake().head_position(), (4, 2));
}

#[test]
fn game_over_holds_until_restart_pause_passes() {
    let mut g = Game::new(10, 10);
    g.update_snake(Some(Direction::Up));
    g.update_snake(Some(Direction::Up));
    assert!(g.is_game_over());
    g.update(500);
    assert!(g.is_game_over());
    assert_eq!(g.snake().head_position(), (2, 1));
    assert_eq!(g.snake().body_len(), 3);
    assert_eq!(g.food(), Some((6, 4)));
    g.update(500);
    assert!(g.is_game_over());
    g.update(1);
    assert!(!g.is_game_over());
    assert_eq!(g.snake().head_position(), (2, 2));
    assert_eq!(g.snake().body_len(), 3);
    assert_eq!(g.food(), Some((6, 4)));
}

#[test]
fn added_food_lands_in_range_and_off_the_snake() {
    let mut g = Game::new(10, 10);
    g.add_food();
    let (fx, fy) = g.food().unwrap();
    assert!((1..10).contains(&fx));
    assert!((1..10).contains(&fy));
    assert!(!g.snake().overlaps_body(fx, fy));
}

#[test]
fn update_replaces_eaten_food() {
    let mut g = Game::new(10, 10);
    g.key_pressed(Some(Direction::Down));
    g.key_pressed(Some(Direction::Down));
    for _ in 0..4 {
        g.key_pressed(Some(Direction::Right));
    }
    assert_eq!(g.food(), None);
    g.update(1);
    let (fx, fy) = g.food().unwrap();
    assert!((1..10).contains(&fx));
    assert!((1..10).contains(&fy));
    assert!(!g.snake().overlaps_body(fx, fy));
}

#[test]
fn coordinates_scale_and_saturate() {
    assert_eq!(to_coord_u32(0), 0);
    assert_eq!(to_coord_u32(4), 100);
    assert_eq!(to_coord_u32(-3), 0);
    assert_eq!(to_coord_u32(i32::MAX), u32::MAX);
    assert_eq!(to_coord_u32(25), 625);
}
