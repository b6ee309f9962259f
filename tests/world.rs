use snake_game_wasm::geometry::step_cell;
use snake_game_wasm::{Direction, GameStatus, World, WorldError};

fn world(width: usize, height: usize) -> World {
    match World::new(width, height) {
        Ok(w) => w,
        Err(_) => panic!("board {}x{} should be accepted", width, height),
    }
}

fn head(w: &World) -> (usize, usize) {
    let b = w.snake_body();
    (b[0], b[1])
}

#[test]
fn new_rejects_boards_too_small() {
    assert!(matches!(World::new(0, 0), Err(WorldError::InvalidDimension)));
    assert!(matches!(World::new(2, 5), Err(WorldError::InvalidDimension)));
    assert!(matches!(World::new(3, 4), Err(WorldError::InvalidDimension)));
    assert!(matches!(World::new(0, 10), Err(WorldError::InvalidDimension)));
    assert!(World::new(3, 5).is_ok());
}

#[test]
fn new_starts_with_fixed_snake() {
    let w = world(8, 6);
    assert_eq!(w.width(), 8);
    assert_eq!(w.height(), 6);
    assert_eq!(w.snake_body(), vec![2, 2, 2, 3, 2, 4]);
    assert_eq!(w.game_status(), GameStatus::Played);
    assert_eq!(w.score(), 0);
    assert!(w.needs_food());
    assert_eq!(w.food_position(), Vec::<usize>::new());
    assert!(w.has_free_cell());
}

#[test]
fn fresh_world_food_lands_off_snake() {
    let mut w = world(3, 5);
    assert!(!w.place_food(2, 2));
    assert!(!w.place_food(2, 3));
    assert!(!w.place_food(2, 4));
    assert!(!w.place_food(3, 0));
    assert!(!w.place_food(0, 5));
    assert!(w.needs_food());
    assert!(w.place_food(1, 4));
    assert_eq!(w.food_position(), vec![1, 4]);
    assert!(!w.needs_food());
    assert!(!w.place_food(0, 0));
    assert_eq!(w.food_position(), vec![1, 4]);
}

#[test]
fn step_cell_wraps_each_edge() {
    assert_eq!(step_cell(Direction::Right, (6, 3), 7, 5), (0, 3));
    assert_eq!(step_cell(Direction::Left, (0, 3), 7, 5), (6, 3));
    assert_eq!(step_cell(Direction::Up, (4, 0), 7, 5), (4, 4));
    assert_eq!(step_cell(Direction::Down, (4, 4), 7, 5), (4, 0));
    assert_eq!(step_cell(Direction::Right, (2, 3), 7, 5), (3, 3));
    assert_eq!(step_cell(Direction::Up, (4, 2), 7, 5), (4, 1));
}

#[test]
fn moving_right_wraps_to_left_edge() {
    let mut w = world(5, 5);
    w.step();
    w.step();
    assert_eq!(head(&w), (4, 2));
    w.step();
    assert_eq!(head(&w), (0, 2));
    assert_eq!(w.snake_body(), vec![0, 2, 4, 2, 3, 2]);
}

#[test]
fn moving_left_wraps_to_right_edge() {
    let mut w = world(6, 5);
    w.change_snake_dir(Direction::Left);
    w.step();
    w.step();
    assert_eq!(head(&w), (0, 2));
    w.step();
    assert_eq!(head(&w), (5, 2));
}

#[test]
fn moving_up_wraps_to_bottom_edge() {
    let mut w = world(5, 5);
    w.change_snake_dir(Direction::Up);
    w.step();
    w.step();
    assert_eq!(head(&w), (2, 0));
    w.step();
    assert_eq!(head(&w), (2, 4));
    assert_eq!(w.snake_body(), vec![2, 4, 2, 0, 2, 1]);
    assert_eq!(w.game_status(), GameStatus::Played);
}

#[test]
fn moving_down_wraps_to_top_edge() {
    let mut w = world(5, 5);
    w.step();
    w.change_snake_dir(Direction::Down);
    w.step();
    w.step();
    assert_eq!(head(&w), (3, 4));
    w.step();
    assert_eq!(head(&w), (3, 0));
    assert_eq!(w.snake_body(), vec![3, 0, 3, 4, 3, 3]);
}

#[test]
fn reversal_onto_second_segment_is_ignored() {
    let mut w = world(10, 10);
    assert!(w.place_food(9, 9));
    w.step();
    w.step();
    w.change_snake_dir(Direction::Down);
    w.step();
    w.step();
    w.step();
    w.change_snake_dir(Direction::Right);
    w.step();
    assert_eq!(w.snake_body(), vec![5, 5, 4, 5, 4, 4]);
    w.change_snake_dir(Direction::Left);
    w.step();
    assert_eq!(w.snake_body(), vec![6, 5, 5, 5, 4, 5]);
    assert_eq!(w.game_status(), GameStatus::Played);
}

#[test]
fn initial_reversal_down_is_ignored() {
    let mut w = world(10, 10);
    w.change_snake_dir(Direction::Down);
    w.step();
    assert_eq!(head(&w), (3, 2));
    w.change_snake_dir(Direction::Down);
    w.step();
    assert_eq!(head(&w), (3, 3));
}

#[test]
fn eating_food_grows_snake_and_score() {
    let mut w = world(10, 10);
    assert!(w.place_food(3, 2));
    w.step();
    assert_eq!(w.snake_body(), vec![3, 2, 2, 2, 2, 3, 2, 4]);
    assert_eq!(w.score(), 1);
    assert!(w.needs_food());
    assert_eq!(w.food_position(), Vec::<usize>::new());
    assert!(!w.place_food(2, 4));
    assert!(!w.place_food(3, 2));
    assert!(w.place_food(0, 0));
    assert_eq!(w.food_position(), vec![0, 0]);
}

#[test]
fn plain_move_keeps_length_and_score() {
    let mut w = world(10, 10);
    assert!(w.place_food(9, 9));
    w.step();
    assert_eq!(w.snake_body(), vec![3, 2, 2, 2, 2, 3]);
    assert_eq!(w.score(), 0);
    assert_eq!(w.food_position(), vec![9, 9]);
}

#[test]
fn moving_without_food_placed_does_not_grow() {
    let mut w = world(10, 10);
    w.step();
    w.step();
    assert_eq!(w.snake_body(), vec![4, 2, 3, 2, 2, 2]);
    assert_eq!(w.score(), 0);
    assert!(w.needs_food());
}

#[test]
fn entering_the_tail_loses_and_keeps_snake() {
    let mut w = world(3, 5);
    assert!(w.place_food(0, 0));
    w.step();
    w.step();
    assert_eq!(w.snake_body(), vec![1, 2, 0, 2, 2, 2]);
    w.step();
    assert_eq!(w.game_status(), GameStatus::Lost);
    assert_eq!(w.snake_body(), vec![1, 2, 0, 2, 2, 2]);
    assert_eq!(w.score(), 0);
    assert_eq!(w.food_position(), vec![0, 0]);
}

#[test]
fn steps_after_loss_change_nothing() {
    let mut w = world(3, 5);
    assert!(w.place_food(0, 4));
    w.step();
    w.step();
    w.step();
    assert_eq!(w.game_status(), GameStatus::Lost);
    for _ in 0..5 {
        w.step();
        assert_eq!(w.game_status(), GameStatus::Lost);
        assert_eq!(w.snake_body(), vec![1, 2, 0, 2, 2, 2]);
        assert_eq!(w.food_position(), vec![0, 4]);
        assert_eq!(w.score(), 0);
    }
    w.change_snake_dir(Direction::Up);
    w.step();
    assert_eq!(w.game_status(), GameStatus::Lost);
    assert_eq!(w.snake_body(), vec![1, 2, 0, 2, 2, 2]);
}

#[test]
fn same_commands_give_same_states() {
    let mut a = world(7, 9);
    let mut b = world(7, 9);
    let turns = [
        Direction::Down,
        Direction::Down,
        Direction::Left,
        Direction::Up,
        Direction::Up,
        Direction::Right,
        Direction::Left,
        Direction::Down,
    ];
    let draws = [(2, 2), (6, 8), (3, 2), (0, 0), (5, 5), (1, 1), (4, 7), (3, 3)];
    for i in 0..turns.len() {
        assert_eq!(a.place_food(draws[i].0, draws[i].1), b.place_food(draws[i].0, draws[i].1));
        a.change_snake_dir(turns[i]);
        b.change_snake_dir(turns[i]);
        a.step();
        b.step();
        assert_eq!(a.snake_body(), b.snake_body());
        assert_eq!(a.game_status(), b.game_status());
        assert_eq!(a.score(), b.score());
        assert_eq!(a.food_position(), b.food_position());
    }
}

#[test]
fn filling_the_board_leaves_no_free_cell() {
    let mut w = world(3, 5);
    let path = [
        (Direction::Up, (2, 1)),
        (Direction::Up, (2, 0)),
        (Direction::Left, (1, 0)),
        (Direction::Left, (0, 0)),
        (Direction::Down, (0, 1)),
        (Direction::Down, (0, 2)),
        (Direction::Down, (0, 3)),
        (Direction::Down, (0, 4)),
        (Direction::Right, (1, 4)),
        (Direction::Up, (1, 3)),
        (Direction::Up, (1, 2)),
        (Direction::Up, (1, 1)),
    ];
    for (i, (d, c)) in path.iter().enumerate() {
        assert!(w.has_free_cell());
        assert!(w.place_food(c.0, c.1));
        w.change_snake_dir(*d);
        w.step();
        assert_eq!(head(&w), *c);
        assert_eq!(w.score(), i + 1);
    }
    assert_eq!(w.snake_body().len(), 30);
    assert_eq!(w.game_status(), GameStatus::Played);
    assert!(!w.has_free_cell());
    for x in 0..3 {
        for y in 0..5 {
            assert!(!w.place_food(x, y));
        }
    }
    w.step();
    assert_eq!(w.game_status(), GameStatus::Lost);
}
