use snake::game::Game;
use snake::grid::{console_grid, dir_from_index, Direction, Pair};
use snake::input::Key;

fn pair(x: usize, y: usize) -> Pair {
    Pair { x, y }
}

fn game_with(
    grid: Pair,
    snake: Vec<Pair>,
    dir: Direction,
    food: Pair,
    game_over: bool,
) -> Game {
    Game::from_parts(grid, snake, dir, food, game_over).expect("state is well formed")
}

fn segments_of(game: &Game) -> Vec<Pair> {
    game.snake_segments()
}

#[test]
fn new_game_initial_state() {
    let game = Game::new(pair(10, 10));
    assert_eq!(game.snake_len(), 1);
    assert_eq!(game.head(), pair(5, 5));
    assert!(!game.is_over());
    let food = game.food_position();
    assert!(1 <= food.x && food.x <= 8);
    assert!(1 <= food.y && food.y <= 8);
    assert_ne!(food, pair(5, 5));
}

#[test]
fn new_game_minimal_grid_food_is_forced() {
    // On a 3-by-4 grid the interior has two cells; the snake takes the
    // center (1, 2), so the food can only land on (1, 1).
    let game = Game::new(pair(3, 4));
    assert_eq!(game.head(), pair(1, 2));
    assert_eq!(game.food_position(), pair(1, 1));
}

#[test]
fn tick_moves_without_growth() {
    let mut game = game_with(pair(10, 10), vec![pair(5, 5)], Direction::Right, pair(1, 1), false);
    game.next_iter();
    assert_eq!(game.head(), pair(6, 5));
    assert_eq!(game.snake_len(), 1);
    assert!(!game.is_over());
    assert_eq!(game.food_position(), pair(1, 1));
}

#[test]
fn tick_keeps_segments_inside_border_while_running() {
    let mut game = game_with(
        pair(10, 10),
        vec![pair(4, 5), pair(5, 5)],
        Direction::Right,
        pair(1, 1),
        false,
    );
    for _ in 0..2 {
        game.next_iter();
        assert!(!game.is_over());
        for p in segments_of(&game) {
            assert!(1 <= p.x && p.x <= 8);
            assert!(1 <= p.y && p.y <= 8);
        }
    }
}

#[test]
fn wall_collision_ends_game_and_appends_head() {
    let mut game = game_with(pair(10, 10), vec![pair(8, 5)], Direction::Right, pair(1, 1), false);
    game.next_iter();
    assert!(game.is_over());
    assert_eq!(game.snake_len(), 1);
    assert_eq!(game.head(), pair(9, 5));
}

#[test]
fn eating_food_grows_snake_and_respawns_food() {
    let mut game = game_with(pair(10, 10), vec![pair(5, 5)], Direction::Right, pair(6, 5), false);
    game.next_iter();
    assert_eq!(game.snake_len(), 2);
    assert_eq!(game.head(), pair(6, 5));
    assert!(!game.is_over());
    let food = game.food_position();
    assert!(1 <= food.x && food.x <= 8);
    assert!(1 <= food.y && food.y <= 8);
    // The respawn avoids every cell the snake covered when it was placed.
    assert_ne!(food, pair(5, 5));
}

#[test]
fn reversal_rejected_for_all_heading_pairs() {
    for dir in [Direction::Up, Direction::Left, Direction::Right, Direction::Down] {
        let mut game = game_with(pair(10, 10), vec![pair(5, 5)], dir, pair(1, 1), false);
        game.change_dir(dir.opposite());
        assert_eq!(game.direction(), dir);
    }
}

#[test]
fn change_dir_accepts_non_reversal() {
    let mut game =
        game_with(pair(10, 10), vec![pair(5, 5)], Direction::Right, pair(1, 1), false);
    game.change_dir(Direction::Up);
    assert_eq!(game.direction(), Direction::Up);
}

#[test]
fn change_dir_is_idempotent() {
    let mut game =
        game_with(pair(10, 10), vec![pair(5, 5)], Direction::Right, pair(1, 1), false);
    game.change_dir(Direction::Down);
    game.change_dir(Direction::Down);
    assert_eq!(game.direction(), Direction::Down);
}

#[test]
fn apply_key_turns_relative_to_heading() {
    let mut game =
        game_with(pair(10, 10), vec![pair(5, 5)], Direction::Right, pair(1, 1), false);
    game.apply_key(Key::TurnRight);
    assert_eq!(game.direction(), Direction::Down);
    game.apply_key(Key::TurnLeft);
    assert_eq!(game.direction(), Direction::Right);
    game.apply_key(Key::Forward);
    assert_eq!(game.direction(), Direction::Right);
    game.apply_key(Key::Quit);
    assert_eq!(game.direction(), Direction::Right);
}

#[test]
fn short_snake_stepping_on_itself_survives() {
    // Four segments; the head steps onto the oldest one. The snake after the
    // tail decision has four segments, not more than four, so the
    // self-collision rule does not fire.
    let mut game = game_with(
        pair(10, 10),
        vec![pair(2, 3), pair(3, 3), pair(3, 2), pair(2, 2)],
        Direction::Down,
        pair(7, 7),
        false,
    );
    game.next_iter();
    assert!(!game.is_over());
    assert_eq!(game.snake_len(), 4);
    assert_eq!(game.head(), pair(2, 3));
}

#[test]
fn long_snake_self_collision_ends_game() {
    // Six segments; after the tail is dropped, five remain, and the head
    // steps onto the one segment the rule checks.
    let mut game = game_with(
        pair(10, 10),
        vec![pair(7, 7), pair(2, 4), pair(4, 4), pair(5, 4), pair(6, 4), pair(2, 5)],
        Direction::Up,
        pair(1, 1),
        false,
    );
    game.next_iter();
    assert!(game.is_over());
    assert_eq!(game.head(), pair(2, 4));
}

#[test]
fn respawn_with_single_free_cell_lands_there() {
    let mut game = game_with(
        pair(4, 4),
        vec![pair(1, 1), pair(1, 2), pair(2, 1)],
        Direction::Right,
        pair(2, 2),
        false,
    );
    assert!(game.next_food());
    assert_eq!(game.food_position(), pair(2, 2));
}

#[test]
fn respawn_on_full_board_reports_no_free_cell() {
    // A 3-by-4 grid has a two-cell interior, and the snake covers it all.
    let mut game = game_with(
        pair(3, 4),
        vec![pair(1, 1), pair(1, 2)],
        Direction::Right,
        pair(1, 1),
        false,
    );
    assert!(!game.next_food());
    assert_eq!(game.food_position(), pair(1, 1));
}

#[test]
fn respawn_repeatedly_avoids_snake() {
    let mut game = game_with(
        pair(6, 6),
        vec![pair(1, 1), pair(2, 1), pair(3, 1), pair(4, 1), pair(4, 2)],
        Direction::Right,
        pair(1, 2),
        false,
    );
    let snake = segments_of(&game);
    for _ in 0..20 {
        assert!(game.next_food());
        let food = game.food_position();
        assert!(1 <= food.x && food.x <= 4);
        assert!(1 <= food.y && food.y <= 4);
        assert!(!snake.contains(&food));
    }
}

#[test]
fn from_parts_rejects_ill_formed_states() {
    assert!(Game::from_parts(pair(2, 5), vec![pair(1, 1)], Direction::Up, pair(1, 1), false)
        .is_none());
    assert!(Game::from_parts(pair(10, 10), vec![], Direction::Up, pair(1, 1), false).is_none());
    assert!(Game::from_parts(pair(10, 10), vec![pair(5, 5)], Direction::Up, pair(0, 4), false)
        .is_none());
    assert!(Game::from_parts(pair(10, 10), vec![pair(9, 5)], Direction::Up, pair(1, 1), false)
        .is_none());
    // A segment on the border is fine once the game is over: the fatal head
    // is appended there.
    assert!(Game::from_parts(pair(10, 10), vec![pair(9, 5)], Direction::Up, pair(1, 1), true)
        .is_some());
}

#[test]
fn console_grid_accepts_and_halves_width() {
    assert_eq!(console_grid(30, 20, 10, 10), Some(pair(15, 19)));
    assert_eq!(console_grid(21, 11, 10, 10), Some(pair(10, 10)));
}

#[test]
fn console_grid_rejects_small_consoles() {
    assert_eq!(console_grid(20, 20, 10, 10), None);
    assert_eq!(console_grid(30, 10, 10, 10), None);
    assert_eq!(console_grid(5, 5, 10, 10), None);
}

#[test]
fn dir_from_index_covers_all_headings() {
    assert_eq!(dir_from_index(0), Direction::Up);
    assert_eq!(dir_from_index(1), Direction::Left);
    assert_eq!(dir_from_index(2), Direction::Right);
    assert_eq!(dir_from_index(3), Direction::Down);
}
