use std::collections::VecDeque;

use snake::board::{Board, Position};
use snake::controls::Direction;
use snake::food::{Food, FoodType, NewFoodEvent};
use snake::scoring::Score;
use snake::snake::Snake;
use snake::{reset_game, Countdown, Game, GameState};

fn pos(x: u8, y: u8) -> Position {
    Position { x, y }
}

#[test]
fn reset_restores_the_starting_shape() {
    let mut countdown = Countdown::default();
    countdown.duration_millis = 150;
    countdown.elapsed_millis = 42;
    let mut game = Game {
        board: Board::new(20),
        snake: Snake {
            segments: VecDeque::from(vec![pos(9, 9), pos(9, 8), pos(8, 8)]),
        },
        foods: vec![(pos(2, 2), Food { food_type: FoodType::SpeedStopper })],
        countdown,
        score: Score { score: 1 },
        direction: Direction::Up,
        state: GameState::Menu,
        pending_food: Vec::new(),
    };
    reset_game(&mut game);
    assert_eq!(game.snake.segments, VecDeque::from(vec![pos(4, 4), pos(3, 4)]));
    assert_eq!(game.score.score, 0);
    assert_eq!(game.countdown.duration_millis, 400);
    assert_eq!(game.direction, Direction::Right);
    assert_eq!(game.state, GameState::Playing);
    assert!(game.foods.is_empty());
    assert_eq!(
        game.pending_food,
        vec![NewFoodEvent { food_type: FoodType::General }]
    );
}

#[test]
fn countdown_floor_holds_under_repeated_shortening() {
    let mut countdown = Countdown::default();
    for _ in 0..20 {
        countdown.decrease_step();
        assert!(countdown.duration_millis >= countdown.min_duration_millis);
    }
    assert_eq!(countdown.duration_millis, 100);
}

#[test]
fn shortening_clamps_to_the_floor() {
    let mut countdown = Countdown::new(120, 100, 50);
    countdown.decrease_step();
    assert_eq!(countdown.duration_millis, 100);
    countdown.decrease_step();
    assert_eq!(countdown.duration_millis, 100);
}

#[test]
fn set_duration_keeps_the_accumulator() {
    let mut countdown = Countdown::default();
    let fired = countdown.tick(250);
    assert!(!fired);
    countdown.set_duration(300);
    assert_eq!(countdown.elapsed_millis, 250);
    let fired = countdown.tick(50);
    assert!(fired);
    assert_eq!(countdown.elapsed_millis, 0);
}

#[test]
fn countdown_new_records_the_tuning() {
    let countdown = Countdown::new(250, 80, 30);
    assert_eq!(countdown.duration_millis, 250);
    assert_eq!(countdown.default_duration_millis, 250);
    assert_eq!(countdown.min_duration_millis, 80);
    assert_eq!(countdown.change_step_millis, 30);
    assert_eq!(countdown.elapsed_millis, 0);
}

#[test]
fn starting_defaults() {
    assert_eq!(Direction::default(), Direction::Right);
    assert_eq!(GameState::default(), GameState::Playing);
    let snake = Snake::default();
    assert_eq!(snake.segments, VecDeque::from(vec![pos(4, 4), pos(3, 4)]));
}
