use snake_game::snake::{Direction, Snake};

#[test]
fn opposite_involution_all_directions() {
    let dirs = [
        Direction::Up,
        Direction::Down,
        Direction::Left,
        Direction::Right,
    ];
    for d in dirs {
        assert_eq!(d.opposite().opposite(), d);
    }
    assert_eq!(Direction::Up.opposite(), Direction::Down);
    assert_eq!(Direction::Left.opposite(), Direction::Right);
}

#[test]
fn new_snake_shape() {
    let s = Snake::new(2, 2);
    assert_eq!(s.body_len(), 3);
    assert_eq!(s.head_position(), (2, 2));
    assert_eq!(s.head_direction(), Direction::Right);
    assert_eq!(s.body_cell(0), (2, 2));
    assert_eq!(s.body_cell(1), (1, 2));
    assert_eq!(s.body_cell(2), (0, 2));
}

#[test]
fn next_head_in_each_direction() {
    let s = Snake::new(2, 2);
    assert_eq!(s.next_head(Some(Direction::Up)), (2, 1));
    assert_eq!(s.next_head(Some(Direction::Down)), (2, 3));
    assert_eq!(s.next_head(Some(Direction::Left)), (1, 2));
    assert_eq!(s.next_head(Some(Direction::Right)), (3, 2));
    assert_eq!(s.next_head(None), (3, 2));
}

#[test]
fn move_forward_keeps_length_and_advances_head() {
    let mut s = Snake::new(2, 2);
    s.move_forward(None);
    assert_eq!(s.head_position(), (3, 2));
    assert_eq!(s.body_len(), 3);
    assert_eq!(s.body_cell(1), (2, 2));
    assert_eq!(s.body_cell(2), (1, 2));
}

#[test]
fn move_forward_honours_turn_but_not_reversal() {
    let mut s = Snake::new(2, 2);
    s.move_forward(Some(Direction::Down));
    assert_eq!(s.head_position(), (2, 3));
    assert_eq!(s.head_direction(), Direction::Down);
    s.move_forward(Some(Direction::Up));
    assert_eq!(s.head_position(), (2, 4));
    assert_eq!(s.head_direction(), Direction::Down);
}

#[test]
fn restore_tail_regrows_removed_cell() {
    let mut s = Snake::new(2, 2);
    s.move_forward(None);
    s.restore_tail();
    assert_eq!(s.body_len(), 4);
    assert_eq!(s.body_cell(3), (0, 2));
    s.restore_tail();
    assert_eq!(s.body_len(), 4);
}

#[test]
fn overlap_tail_skips_head() {
    let s = Snake::new(5, 5);
    let (hx, hy) = s.head_position();
    assert!(!s.overlap_tail(hx, hy));
    assert!(s.overlap_tail(4, 5));
    assert!(s.overlap_tail(3, 5));
    assert!(!s.overlap_tail(6, 5));
}

#[test]
fn overlap_tail_reports_self_intersection_at_head() {
    let mut s = Snake::new(5, 5);
    s.move_forward(None);
    s.restore_tail();
    s.move_forward(None);
    s.restore_tail();
    assert_eq!(s.body_len(), 5);
    s.move_forward(Some(Direction::Up));
    s.move_forward(Some(Direction::Left));
    s.move_forward(Some(Direction::Down));
    assert_eq!(s.head_position(), (6, 5));
    assert_eq!(s.body_cell(4), (6, 5));
    let (hx, hy) = s.head_position();
    assert!(s.overlap_tail(hx, hy));
}

#[test]
fn overlaps_body_includes_head() {
    let s = Snake::new(5, 5);
    assert!(s.overlaps_body(5, 5));
    assert!(s.overlaps_body(4, 5));
    assert!(!s.overlaps_body(6, 5));
}
