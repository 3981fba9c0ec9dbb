use std::collections::VecDeque;

use snake::board::{Board, Position};
use snake::controls::Direction;
use snake::food::{
    choose_food_type, find_food, food_event_listener, possible_food_locations, Food, FoodType,
    NewFoodEvent,
};
use snake::scoring::Score;
use snake::snake::Snake;
use snake::{Countdown, Game, GameState};

fn pos(x: u8, y: u8) -> Position {
    Position { x, y }
}

fn make_game(size: u8, segments: Vec<Position>) -> Game {
    let score = (segments.len() - 2) as u32;
    Game {
        board: Board::new(size),
        snake: Snake { segments: VecDeque::from(segments) },
        foods: Vec::new(),
        countdown: Countdown::default(),
        score: Score { score },
        direction: Direction::Right,
        state: GameState::Playing,
        pending_food: Vec::new(),
    }
}

#[test]
fn possible_locations_exclude_snake_and_food() {
    let board = Board::new(2);
    let snake = Snake { segments: VecDeque::from(vec![pos(0, 0), pos(0, 1)]) };
    let foods = vec![(pos(1, 0), Food { food_type: FoodType::General })];
    let free = possible_food_locations(&board, &snake, &foods);
    assert_eq!(free, vec![pos(1, 1)]);
}

#[test]
fn possible_locations_whole_empty_board() {
    let board = Board::new(3);
    let snake = Snake { segments: VecDeque::from(vec![pos(0, 0), pos(0, 1)]) };
    let free = possible_food_locations(&board, &snake, &Vec::new());
    assert_eq!(free.len(), 7);
    assert!(!free.contains(&pos(0, 0)));
    assert!(!free.contains(&pos(0, 1)));
}

#[test]
fn listener_spawns_one_item_per_request() {
    let mut game = make_game(20, vec![pos(4, 4), pos(3, 4)]);
    game.pending_food.push(NewFoodEvent { food_type: FoodType::General });
    game.pending_food.push(NewFoodEvent { food_type: FoodType::General });
    food_event_listener(&mut game);
    assert!(game.pending_food.is_empty());
    assert_eq!(game.foods.len(), 2);
    for (p, food) in &game.foods {
        assert!(p.x < 20 && p.y < 20);
        assert!(!game.snake.segments.contains(p));
        assert_eq!(food.food_type, FoodType::General);
    }
    assert_ne!(game.foods[0].0, game.foods[1].0);
}

#[test]
fn listener_uses_the_last_requested_kind() {
    let mut game = make_game(20, vec![pos(4, 4), pos(3, 4)]);
    game.pending_food.push(NewFoodEvent { food_type: FoodType::General });
    game.pending_food.push(NewFoodEvent { food_type: FoodType::SpeedStopper });
    food_event_listener(&mut game);
    assert_eq!(game.foods.len(), 2);
    for (_, food) in &game.foods {
        assert_eq!(food.food_type, FoodType::SpeedStopper);
    }
}

#[test]
fn listener_spawns_fewer_when_cells_run_out() {
    let mut game = make_game(2, vec![pos(0, 0), pos(0, 1)]);
    for _ in 0..3 {
        game.pending_food.push(NewFoodEvent { food_type: FoodType::General });
    }
    food_event_listener(&mut game);
    assert_eq!(game.foods.len(), 2);
    let mut cells: Vec<Position> = game.foods.iter().map(|e| e.0).collect();
    cells.sort_by_key(|p| (p.x, p.y));
    assert_eq!(cells, vec![pos(1, 0), pos(1, 1)]);
}

#[test]
fn listener_with_no_requests_spawns_nothing() {
    let mut game = make_game(20, vec![pos(4, 4), pos(3, 4)]);
    food_event_listener(&mut game);
    assert!(game.foods.is_empty());
    assert!(game.pending_food.is_empty());
}

#[test]
fn food_type_draw_threshold() {
    assert_eq!(choose_food_type(0), FoodType::General);
    assert_eq!(choose_food_type(700), FoodType::General);
    assert_eq!(choose_food_type(701), FoodType::SpeedStopper);
    assert_eq!(choose_food_type(999), FoodType::SpeedStopper);
}

#[test]
fn find_food_reports_the_entry() {
    let foods = vec![
        (pos(1, 2), Food { food_type: FoodType::General }),
        (pos(3, 4), Food { food_type: FoodType::SpeedStopper }),
    ];
    assert_eq!(find_food(&foods, pos(3, 4)), Some(1));
    assert_eq!(find_food(&foods, pos(1, 2)), Some(0));
    assert_eq!(find_food(&foods, pos(5, 5)), None);
}
