//! The snake organism: movement, the death rules, life-cycle and sensors.

use evosnake::snake::cell::Cell;
use evosnake::snake::{Direction, Point, Snake, FIELD_HEIGHT, FIELD_WIDTH};

#[test]
fn new_snake_starts_alive_with_one_cell_on_the_field() {
    let snake = Snake::new();
    assert!(snake.is_alive());
    assert_eq!(snake.get_length(), 1);
    assert_eq!(snake.get_fitness(), 1);
    let head = snake.get_cells()[0];
    assert!((0..FIELD_WIDTH as i32).contains(&head.x));
    assert!((0..FIELD_HEIGHT as i32).contains(&head.y));
    let apple = *snake.get_apple();
    assert!((0..FIELD_WIDTH as i32).contains(&apple.x));
    assert!((0..FIELD_HEIGHT as i32).contains(&apple.y));
}

#[test]
fn advance_moves_the_head_one_square() {
    let mut snake = Snake::new();
    let before = snake.get_cells()[0];
    snake.advance(Direction::Right);
    let after = snake.get_cells()[0];
    assert_eq!(after.x, before.x + 1);
    assert_eq!(after.y, before.y);
    if snake.is_alive() {
        let before = after;
        snake.advance(Direction::Down);
        let after = snake.get_cells()[0];
        assert_eq!(after.x, before.x);
        assert_eq!(after.y, before.y + 1);
    }
}

#[test]
fn walking_off_the_field_kills_the_snake() {
    let mut snake = Snake::new();
    // Walk upward until the head leaves the field; the step onto the row
    // beyond the edge is the snake's last.
    let mut steps: i32 = 0;
    while snake.is_alive() {
        snake.advance(Direction::Up);
        steps += 1;
        assert!(steps <= FIELD_HEIGHT as i32 + 1, "snake should have died at the edge");
    }
    assert!(snake.get_cells()[0].y <= 0);
}

#[test]
fn kill_is_consumed_on_the_next_advance() {
    let mut snake = Snake::new();
    assert!(!snake.is_killed());
    snake.kill();
    // The signal is cooperative: the snake still reports alive until its
    // next evaluation, but the signal is pending and cannot be cancelled —
    // the next step ends in death even if it happens to eat the apple.
    assert!(snake.is_alive());
    assert!(snake.is_killed());
    snake.advance(Direction::Right);
    assert!(!snake.is_alive());
}

#[test]
fn reborn_resets_the_transient_state() {
    let mut snake = Snake::new();
    snake.advance(Direction::Right);
    if snake.is_alive() {
        snake.kill();
        snake.advance(Direction::Down);
    }
    assert!(!snake.is_alive());
    snake.reborn();
    assert!(snake.is_alive());
    assert_eq!(snake.get_length(), 1);
}

#[test]
fn sensors_report_edge_distances_and_apple_offset() {
    let snake = Snake::new();
    let head = snake.get_cells()[0];
    let apple = *snake.get_apple();
    let sensors = snake.get_sensors();
    assert_eq!(sensors.len(), 6);
    assert_eq!(sensors[0], head.y);
    assert_eq!(sensors[1], FIELD_HEIGHT as i32 - head.y);
    assert_eq!(sensors[2], head.x);
    assert_eq!(sensors[3], FIELD_WIDTH as i32 - head.x);
    assert_eq!(sensors[4], head.x - apple.x);
    assert_eq!(sensors[5], head.y - apple.y);
}

#[test]
fn snake_crossover_produces_a_fresh_child() {
    let a = Snake::new();
    let b = Snake::new();
    let child = Snake::crossover(&a, &b, 0);
    assert!(child.is_alive());
    assert_eq!(child.get_length(), 1);
}

#[test]
fn movement_vectors_are_unit_steps() {
    assert_eq!(Direction::Up.movement_vector(), Point { x: 0, y: -1 });
    assert_eq!(Direction::Down.movement_vector(), Point { x: 0, y: 1 });
    assert_eq!(Direction::Left.movement_vector(), Point { x: -1, y: 0 });
    assert_eq!(Direction::Right.movement_vector(), Point { x: 1, y: 0 });
    assert_eq!(Direction::default(), Direction::Up);
}

#[test]
fn point_addition_is_coordinate_wise() {
    let p = Point { x: 3, y: -2 }.add(Point { x: -1, y: 7 });
    assert_eq!(p, Point { x: 2, y: 5 });
    let q = Point::default();
    assert!((0..FIELD_WIDTH as i32).contains(&q.x));
    assert!((0..FIELD_HEIGHT as i32).contains(&q.y));
    let r = Point::random();
    assert!((0..FIELD_WIDTH as i32).contains(&r.x));
    assert!((0..FIELD_HEIGHT as i32).contains(&r.y));
}

#[test]
fn cells_carry_and_move_their_position() {
    let cell = Cell::new(Point { x: 5, y: 6 });
    assert_eq!(cell.current, Point { x: 5, y: 6 });
    let moved = cell.add(&Point { x: -1, y: 2 });
    assert_eq!(moved.current, Point { x: 4, y: 8 });
    let random = Cell::init_random();
    assert!((0..FIELD_WIDTH as i32).contains(&random.current.x));
    assert!((0..FIELD_HEIGHT as i32).contains(&random.current.y));
}
