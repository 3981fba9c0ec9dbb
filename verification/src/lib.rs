//! The rules of a grid snake game, stated and proved.
//!
//! A snake walks a fixed square board, eating food to grow and score while
//! avoiding the walls and its own body. This crate holds the whole rule set:
//! the per-tick state transition, collision and win detection, food spawning,
//! the adaptive tick interval, and score keeping. Rendering, windowing and
//! input polling live outside, and talk to this crate through plain values.

use vstd::prelude::*;

use rand::Rng;

pub mod board;
pub mod controls;
pub mod food;
pub mod scoring;
pub mod snake;

use crate::board::{Board, Position};
use crate::controls::Direction;
use crate::food::{
    choose_food_type, find_food, foods_wf, spec_choose_food_type, spec_food_index,
    spec_has_food_at, Food, FoodType, NewFoodEvent,
};
use crate::scoring::Score;
use crate::snake::Snake;

verus! {

/// Which screen the process is on. The tick engine runs only while
/// `Playing`; its terminal path switches to `Menu`.
#[derive(Debug, PartialEq, Eq, Structural, Clone, Copy, Hash)]
pub enum GameState {
    Menu,
    Playing,
}

impl Default for GameState {
    /// A fresh process starts straight in a running game.
    fn default() -> (s: GameState)
        ensures
            s == GameState::Playing,
    {
        GameState::Playing
    }
}

/// Why a round ended.
#[derive(Debug, PartialEq, Eq, Structural, Clone, Copy)]
pub enum GameOverReason {
    HitWall,
    HitSnake,
    Win,
}

/// The adaptive interval that gates game steps: real time accumulates
/// against the current duration, and one game step runs each time the
/// duration is reached. Eating food adjusts the duration — shorter for
/// every ordinary item, down to a floor, and back to the default for a
/// relief item. All times are in milliseconds.
#[derive(Debug, PartialEq, Eq, Structural, Clone, Copy)]
pub struct Countdown {
    /// The current interval between fired ticks.
    pub duration_millis: u64,
    /// Real time accumulated toward the next fire.
    pub elapsed_millis: u64,
    /// The interval a fresh game starts with.
    pub default_duration_millis: u64,
    /// How much one ordinary food shortens the interval.
    pub change_step_millis: u64,
    /// The floor the interval never drops below.
    pub min_duration_millis: u64,
}

/// One shortening of an interval: a duration above the floor loses one
/// step, but never drops below the floor; one at or below the floor is
/// left alone.
pub open spec fn spec_decreased_duration(duration: int, min: int, step: int) -> int {
    if duration > min {
        if duration - step > min {
            duration - step
        } else {
            min
        }
    } else {
        duration
    }
}

/// The interval after `n` consecutive shortenings.
pub open spec fn spec_decreased_duration_n(duration: int, min: int, step: int, n: nat) -> int
    decreases n,
{
    if n == 0 {
        duration
    } else {
        spec_decreased_duration(
            spec_decreased_duration_n(duration, min, step, (n - 1) as nat),
            min,
            step,
        )
    }
}

/// However many times in a row the interval is shortened, it never drops
/// below the floor it started at or above.
pub proof fn lemma_countdown_floor(duration: int, min: int, step: int, n: nat)
    requires
        duration >= min,
    ensures
        spec_decreased_duration_n(duration, min, step, n) >= min,
    decreases n,
{
    if n > 0 {
        lemma_countdown_floor(duration, min, step, (n - 1) as nat);
    }
}

impl Countdown {
    pub fn new(duration_millis: u32, min_duration_millis: u64, change_step_millis: u64) -> (c:
        Countdown)
        ensures
            c.duration_millis == duration_millis,
            c.elapsed_millis == 0,
            c.default_duration_millis == duration_millis,
            c.change_step_millis == change_step_millis,
            c.min_duration_millis == min_duration_millis,
    {
        Countdown {
            duration_millis: duration_millis as u64,
            elapsed_millis: 0,
            default_duration_millis: duration_millis as u64,
            change_step_millis,
            min_duration_millis,
        }
    }

    /// Whether adding `delta` of real time reaches the current interval.
    pub open spec fn spec_fires(self, delta: u64) -> bool {
        self.elapsed_millis + delta >= self.duration_millis
    }

    /// Advance by `delta` milliseconds of real time. When the interval is
    /// reached the accumulator resets and the countdown reports that it
    /// fired; otherwise the time is only accumulated.
    pub fn tick(&mut self, delta_millis: u64) -> (fired: bool)
        ensures
            fired == old(self).spec_fires(delta_millis),
            final(self).elapsed_millis == if fired {
                0
            } else {
                old(self).elapsed_millis + delta_millis
            },
            final(self).duration_millis == old(self).duration_millis,
            final(self).default_duration_millis == old(self).default_duration_millis,
            final(self).change_step_millis == old(self).change_step_millis,
            final(self).min_duration_millis == old(self).min_duration_millis,
    {
        if self.elapsed_millis >= self.duration_millis
            || delta_millis >= self.duration_millis - self.elapsed_millis {
            self.elapsed_millis = 0;
            true
        } else {
            self.elapsed_millis = self.elapsed_millis + delta_millis;
            false
        }
    }

    /// Change the interval at once. An in-flight accumulation is kept as
    /// it is, not rescaled against the new duration.
    pub fn set_duration(&mut self, millis: u64)
        ensures
            *final(self) == (Countdown { duration_millis: millis, ..*old(self) }),
    {
        self.duration_millis = millis;
    }

    /// Shorten the interval by one step, stopping at the floor.
    pub fn decrease_step(&mut self)
        ensures
            final(self).duration_millis == spec_decreased_duration(
                old(self).duration_millis as int,
                old(self).min_duration_millis as int,
                old(self).change_step_millis as int,
            ),
            *final(self) == (Countdown {
                duration_millis: final(self).duration_millis,
                ..*old(self)
            }),
    {
        if self.duration_millis > self.min_duration_millis {
            let room = self.duration_millis - self.min_duration_millis;
            if room > self.change_step_millis {
                self.duration_millis = self.duration_millis - self.change_step_millis;
            } else {
                self.duration_millis = self.min_duration_millis;
            }
        }
    }

    /// Put the interval back to the default it started with.
    pub fn reset_to_default(&mut self)
        ensures
            *final(self) == (Countdown {
                duration_millis: old(self).default_duration_millis,
                ..*old(self)
            }),
    {
        self.duration_millis = self.default_duration_millis;
    }
}

impl Default for Countdown {
    /// The tuning a fresh game uses: a 400 ms interval, shortened in
    /// 50 ms steps down to a floor of 100 ms.
    fn default() -> (c: Countdown)
        ensures
            c == (Countdown {
                duration_millis: 400,
                elapsed_millis: 0,
                default_duration_millis: 400,
                change_step_millis: 50,
                min_duration_millis: 100,
            }),
    {
        Countdown::new(400, 100, 50)
    }
}

/// Everything one running game owns: the board, the snake, the food
/// table, the tick interval, the score, the last pressed direction, the
/// screen the process is on, and the queue of food-spawn requests still
/// to be resolved. One such value is handed to every tick.
#[derive(Debug)]
pub struct Game {
    pub board: Board,
    pub snake: Snake,
    pub foods: Vec<(Position, Food)>,
    pub countdown: Countdown,
    pub score: Score,
    pub direction: Direction,
    pub state: GameState,
    pub pending_food: Vec<NewFoodEvent>,
}

/// The mathematical shape of a game: the same state with every container
/// read as a sequence. All contracts of the engine speak over this view.
#[verifier::ext_equal]
pub struct GameView {
    pub board: Board,
    pub snake: Seq<Position>,
    pub foods: Seq<(Position, Food)>,
    pub countdown: Countdown,
    pub score: Score,
    pub direction: Direction,
    pub state: GameState,
    pub pending_food: Seq<NewFoodEvent>,
}

impl View for Game {
    type V = GameView;

    open spec fn view(&self) -> GameView {
        GameView {
            board: self.board,
            snake: self.snake.segments@,
            foods: self.foods@,
            countdown: self.countdown,
            score: self.score,
            direction: self.direction,
            state: self.state,
            pending_food: self.pending_food@,
        }
    }
}

impl GameView {
    /// The invariant every reachable game state keeps: a board of at
    /// least two cells a side; a snake of at least its two starting
    /// segments, covering no cell twice, entirely on the board and never
    /// longer than the board has cells; a well-formed food table; and a
    /// score that counts exactly the food eaten since the last reset,
    /// one segment of growth per item.
    pub open spec fn wf(self) -> bool {
        &&& self.board.size >= 2
        &&& self.snake.len() >= 2
        &&& self.snake.len() <= self.board.spec_cell_count()
        &&& self.snake.no_duplicates()
        &&& forall|i: int|
            0 <= i < self.snake.len() ==> self.board.spec_in_bounds(#[trigger] self.snake[i])
        &&& foods_wf(self.board, self.snake, self.foods)
        &&& self.score.score + 2 == self.snake.len()
    }
}

/// Whether moving `head` one cell toward `dir` would leave an N-by-N
/// board: true exactly when the head already sits on the matching edge
/// and the direction points outward. Moving parallel to an edge is
/// always legal.
pub open spec fn spec_wall_hit(dir: Direction, head: Position, size: u8) -> bool {
    match dir {
        Direction::Up => head.y == size - 1,
        Direction::Down => head.y == 0,
        Direction::Left => head.x == 0,
        Direction::Right => head.x == size - 1,
    }
}

/// The cell one step from `head` toward `dir`. Meaningful when the move
/// does not leave the board.
pub open spec fn spec_next_head(dir: Direction, head: Position) -> Position {
    match dir {
        Direction::Up => Position { x: head.x, y: (head.y + 1) as u8 },
        Direction::Down => Position { x: head.x, y: (head.y - 1) as u8 },
        Direction::Left => Position { x: (head.x - 1) as u8, y: head.y },
        Direction::Right => Position { x: (head.x + 1) as u8, y: head.y },
    }
}

/// Decide whether the next move would hit a wall.
pub fn wall_hit(dir: Direction, head: Position, size: u8) -> (r: bool)
    requires
        size >= 1,
    ensures
        r == spec_wall_hit(dir, head, size),
{
    match dir {
        Direction::Up => head.y == size - 1,
        Direction::Down => head.y == 0,
        Direction::Left => head.x == 0,
        Direction::Right => head.x == size - 1,
    }
}

/// The cell the head moves to, for a move that stays on the board.
pub fn next_head(dir: Direction, head: Position, size: u8) -> (p: Position)
    requires
        head.x < size,
        head.y < size,
        !spec_wall_hit(dir, head, size),
    ensures
        p == spec_next_head(dir, head),
        p.x < size,
        p.y < size,
{
    match dir {
        Direction::Up => Position { x: head.x, y: head.y + 1 },
        Direction::Down => Position { x: head.x, y: head.y - 1 },
        Direction::Left => Position { x: head.x - 1, y: head.y },
        Direction::Right => Position { x: head.x + 1, y: head.y },
    }
}

/// Why the coming step ends the round, if it does: the move leaves the
/// board, or the next head cell is already part of the body (the tail
/// included, since the tail has not been popped yet when the check
/// runs), or the body already covers the whole board. The win check
/// looks at the state before the move, so a win is reported only once
/// the board is already full from an earlier tick's growth.
pub open spec fn spec_game_over(g: GameView) -> Option<GameOverReason> {
    if spec_wall_hit(g.direction, g.snake[0], g.board.size) {
        Some(GameOverReason::HitWall)
    } else if g.snake.contains(spec_next_head(g.direction, g.snake[0])) {
        Some(GameOverReason::HitSnake)
    } else if g.snake.len() == g.board.spec_cell_count() {
        Some(GameOverReason::Win)
    } else {
        None
    }
}

/// The countdown after food is eaten: a relief item puts the interval
/// back to the default, an ordinary item shortens it by one step down to
/// the floor.
pub open spec fn spec_countdown_after_eating(c: Countdown, eaten: FoodType) -> Countdown {
    match eaten {
        FoodType::SpeedStopper => Countdown { duration_millis: c.default_duration_millis, ..c },
        FoodType::General => Countdown {
            duration_millis: spec_decreased_duration(
                c.duration_millis as int,
                c.min_duration_millis as int,
                c.change_step_millis as int,
            ) as u64,
            ..c
        },
    }
}

/// One fired game step, as a function of the state before it and the
/// random draw that picks the kind of the replacement food. When the
/// step ends the round, the game switches to the menu and nothing else
/// moves. Otherwise the head advances; on an empty cell the tail is
/// popped, on a food cell the snake keeps its tail (growth), the item is
/// eaten, the score rises by one, one spawn request is queued, and the
/// countdown is adjusted by the eaten item's kind.
pub open spec fn spec_step(g: GameView, draw: u32) -> GameView {
    if spec_game_over(g) is Some {
        GameView { state: GameState::Menu, ..g }
    } else {
        let nh = spec_next_head(g.direction, g.snake[0]);
        let pushed = seq![nh] + g.snake;
        if spec_has_food_at(g.foods, nh) {
            let idx = spec_food_index(g.foods, nh);
            let eaten = g.foods[idx].1;
            GameView {
                snake: pushed,
                foods: g.foods.remove(idx),
                score: Score { score: (g.score.score + 1) as u32 },
                pending_food: g.pending_food.push(
                    NewFoodEvent { food_type: spec_choose_food_type(draw) },
                ),
                countdown: spec_countdown_after_eating(g.countdown, eaten.food_type),
                ..g
            }
        } else {
            GameView { snake: pushed.drop_last(), ..g }
        }
    }
}

/// A legal move keeps the head on the board.
proof fn lemma_next_head_in_bounds(g: GameView)
    requires
        g.wf(),
        !spec_wall_hit(g.direction, g.snake[0], g.board.size),
    ensures
        g.board.spec_in_bounds(spec_next_head(g.direction, g.snake[0])),
{
    assert(g.board.spec_in_bounds(g.snake[0]));
}

/// A fired step leads from one well-formed game state to another,
/// whatever the random draw.
pub proof fn lemma_step_preserves_wf(g: GameView, draw: u32)
    requires
        g.wf(),
    ensures
        spec_step(g, draw).wf(),
{
    if spec_game_over(g) is None {
        let head = g.snake[0];
        let nh = spec_next_head(g.direction, head);
        lemma_next_head_in_bounds(g);
        let pushed = seq![nh] + g.snake;
        assert(g.board.spec_cell_count() <= 65025) by (nonlinear_arith)
            requires
                (g.board.size as int) <= 255,
                g.board.spec_cell_count() == (g.board.size as int) * (g.board.size as int),
        ;
        assert forall|i: int|
            0 <= i < pushed.len() implies g.board.spec_in_bounds(#[trigger] pushed[i]) by {
            if i > 0 {
                assert(pushed[i] == g.snake[i - 1]);
            }
        }
        assert(!g.snake.contains(nh));
        assert forall|i: int, j: int|
            0 <= i < pushed.len() && 0 <= j < pushed.len() && i != j implies pushed[i] != pushed[j]
        by {
            if i == 0 {
                if pushed[0] == pushed[j] {
                    assert(g.snake[j - 1] == nh);
                }
            } else if j == 0 {
                if pushed[0] == pushed[i] {
                    assert(g.snake[i - 1] == nh);
                }
            }
        }
        assert(g.snake.len() < g.board.spec_cell_count());
        if spec_has_food_at(g.foods, nh) {
            let idx = spec_food_index(g.foods, nh);
            assert(0 <= idx < g.foods.len() && g.foods[idx].0 == nh);
            let post = spec_step(g, draw);
            assert(post.snake == pushed);
            assert(post.foods == g.foods.remove(idx));
            assert forall|i: int|
                0 <= i < post.foods.len() implies g.board.spec_in_bounds(
                (#[trigger] post.foods[i]).0,
            ) by {
                if i < idx {
                    assert(post.foods[i] == g.foods[i]);
                } else {
                    assert(post.foods[i] == g.foods[i + 1]);
                }
            }
            assert forall|i: int, j: int|
                0 <= i < post.foods.len() && 0 <= j < post.foods.len() && i != j implies (
            #[trigger] post.foods[i]).0 != (#[trigger] post.foods[j]).0 by {
                let oi = if i < idx {
                    i
                } else {
                    i + 1
                };
                let oj = if j < idx {
                    j
                } else {
                    j + 1
                };
                assert(post.foods[i] == g.foods[oi]);
                assert(post.foods[j] == g.foods[oj]);
            }
            assert forall|i: int|
                0 <= i < post.foods.len() implies !post.snake.contains(
                (#[trigger] post.foods[i]).0,
            ) by {
                let entry = post.foods[i];
                let orig = if i < idx {
                    i
                } else {
                    i + 1
                };
                assert(entry == g.foods[orig]);
                assert(entry.0 != nh);
                if post.snake.contains(entry.0) {
                    let w = choose|w: int| 0 <= w < post.snake.len() && post.snake[w] == entry.0;
                    if w == 0 {
                        assert(entry.0 == nh);
                    } else {
                        assert(g.snake[w - 1] == entry.0);
                        assert(g.snake.contains(entry.0));
                    }
                }
            }
        } else {
            let post = spec_step(g, draw);
            assert(post.snake == pushed.drop_last());
            assert(post.snake.len() == g.snake.len());
            assert forall|i: int|
                0 <= i < post.snake.len() implies g.board.spec_in_bounds(
                #[trigger] post.snake[i],
            ) && pushed[i] == post.snake[i] by {
                assert(post.snake[i] == pushed[i]);
            }
            assert forall|i: int|
                0 <= i < post.foods.len() implies !post.snake.contains(
                (#[trigger] post.foods[i]).0,
            ) by {
                let entry = post.foods[i];
                assert(!g.snake.contains(entry.0));
                assert(!spec_has_food_at(g.foods, nh));
                assert(entry.0 != nh);
                if post.snake.contains(entry.0) {
                    let w = choose|w: int| 0 <= w < post.snake.len() && post.snake[w] == entry.0;
                    assert(post.snake[w] == pushed[w]);
                    if w == 0 {
                        assert(entry.0 == nh);
                    } else {
                        assert(g.snake[w - 1] == entry.0);
                        assert(g.snake.contains(entry.0));
                    }
                }
            }
        }
    }
}

/// Wall collision triggers exactly when the direction points outward
/// from an edge coordinate on the matching axis; moving parallel to an
/// edge never triggers it by itself — for a vertical move the head's
/// column is irrelevant, for a horizontal move its row.
pub proof fn lemma_wall_hit_iff(dir: Direction, head: Position, size: u8)
    ensures
        spec_wall_hit(dir, head, size) <==> ((dir == Direction::Up && head.y == size - 1) || (dir
            == Direction::Down && head.y == 0) || (dir == Direction::Left && head.x == 0) || (dir
            == Direction::Right && head.x == size - 1)),
        (dir == Direction::Up || dir == Direction::Down) ==> forall|x: u8|
            spec_wall_hit(dir, head, size) == spec_wall_hit(
                dir,
                Position { x, y: head.y },
                size,
            ),
        (dir == Direction::Left || dir == Direction::Right) ==> forall|y: u8|
            spec_wall_hit(dir, head, size) == spec_wall_hit(
                dir,
                Position { x: head.x, y },
                size,
            ),
{
}

/// Self-collision: when the move stays on the board, the step reports a
/// hit against the snake exactly when the next head cell is already one
/// of the body's segments — the tail included, whatever the snake's
/// shape.
pub proof fn lemma_self_collision_iff(g: GameView)
    requires
        !spec_wall_hit(g.direction, g.snake[0], g.board.size),
    ensures
        spec_game_over(g) == Some(GameOverReason::HitSnake) <==> g.snake.contains(
            spec_next_head(g.direction, g.snake[0]),
        ),
{
}

/// A plain move — next head on the board, hitting nothing, landing on
/// no food — keeps the snake's length exactly as it was: the head is
/// pushed and the tail popped.
pub proof fn lemma_move_preserves_length(g: GameView, draw: u32)
    requires
        g.wf(),
        spec_game_over(g) is None,
        !spec_has_food_at(g.foods, spec_next_head(g.direction, g.snake[0])),
    ensures
        spec_step(g, draw).snake.len() == g.snake.len(),
{
}

/// Eating grows: a step onto a food cell lengthens the snake by exactly
/// one, raises the score by exactly one, and removes exactly one food
/// entry — the one the head landed on.
pub proof fn lemma_eating_grows(g: GameView, draw: u32)
    requires
        g.wf(),
        spec_game_over(g) is None,
        spec_has_food_at(g.foods, spec_next_head(g.direction, g.snake[0])),
    ensures
        spec_step(g, draw).snake.len() == g.snake.len() + 1,
        spec_step(g, draw).score.score == g.score.score + 1,
        spec_step(g, draw).foods.len() == g.foods.len() - 1,
        !spec_has_food_at(
            spec_step(g, draw).foods,
            spec_next_head(g.direction, g.snake[0]),
        ),
{
    let nh = spec_next_head(g.direction, g.snake[0]);
    let idx = spec_food_index(g.foods, nh);
    assert(0 <= idx < g.foods.len() && g.foods[idx].0 == nh);
    let post = spec_step(g, draw);
    assert(g.score.score + 1 <= u32::MAX) by {
        assert(g.board.spec_cell_count() <= 65025) by (nonlinear_arith)
            requires
                (g.board.size as int) <= 255,
                g.board.spec_cell_count() == (g.board.size as int) * (g.board.size as int),
        ;
    }
    assert forall|i: int| 0 <= i < post.foods.len() implies (#[trigger] post.foods[i]).0 != nh by {
        if i < idx {
            assert(post.foods[i] == g.foods[i]);
        } else {
            assert(post.foods[i] == g.foods[i + 1]);
        }
    }
}

/// Eating an ordinary food item never takes the interval below the
/// floor: if the countdown stood at or above its floor before the step,
/// it still does after, however short it already was.
pub proof fn lemma_general_food_keeps_floor(g: GameView, draw: u32)
    requires
        g.countdown.duration_millis >= g.countdown.min_duration_millis,
        spec_game_over(g) is None,
        spec_has_food_at(g.foods, spec_next_head(g.direction, g.snake[0])),
        g.foods[spec_food_index(g.foods, spec_next_head(g.direction, g.snake[0]))].1.food_type
            == FoodType::General,
    ensures
        spec_step(g, draw).countdown.duration_millis >= g.countdown.min_duration_millis,
{
}

/// Once the snake covers the whole board, the next fired tick only ends
/// the round: the game goes to the menu and nothing else is touched.
pub proof fn lemma_full_board_ends(g: GameView, draw: u32)
    requires
        g.wf(),
        g.snake.len() == g.board.spec_cell_count(),
    ensures
        spec_step(g, draw) == (GameView { state: GameState::Menu, ..g }),
{
    assert(spec_game_over(g) is Some);
}

/// Run one fired game step with the given random draw: resolve the
/// direction already stored in the game, move or end the round, and do
/// all the bookkeeping. Deterministic in its arguments; the engine's
/// `tick` supplies the draw from a random source.
pub fn game_step(game: &mut Game, draw: u32)
    requires
        old(game)@.wf(),
        old(game).state == GameState::Playing,
    ensures
        final(game)@ == spec_step(old(game)@, draw),
        final(game)@.wf(),
{
    proof {
        lemma_step_preserves_wf(old(game)@, draw);
    }
    let size = game.board.size;
    let head = game.snake.head();
    if wall_hit(game.direction, head, size) {
        game.state = GameState::Menu;
        proof {
            assert(game@ =~= spec_step(old(game)@, draw));
        }
        return;
    }
    let next_position = next_head(game.direction, head, size);
    let hit_self = game.snake.occupies(next_position);
    proof {
        assert((size as int) * (size as int) <= 65025) by (nonlinear_arith)
            requires
                (size as int) <= 255,
                (size as int) >= 0,
        ;
    }
    let has_won = game.snake.segments.len() == (size as usize) * (size as usize);
    if hit_self || has_won {
        game.state = GameState::Menu;
        proof {
            assert(game@ =~= spec_step(old(game)@, draw));
        }
        return;
    }
    game.snake.push_front(next_position);
    match find_food(&game.foods, next_position) {
        None => {
            let _old_tail = game.snake.pop_back();
            proof {
                assert(game@ =~= spec_step(old(game)@, draw));
            }
        },
        Some(i) => {
            proof {
                let idx = spec_food_index(old(game)@.foods, next_position);
                assert(0 <= idx < old(game)@.foods.len() && old(game)@.foods[idx].0
                    == next_position);
                assert(idx == i);
            }
            let eaten = game.foods.remove(i);
            game.score.score = game.score.score + 1;
            let new_type = choose_food_type(draw);
            game.pending_food.push(NewFoodEvent { food_type: new_type });
            match eaten.1.food_type {
                FoodType::SpeedStopper => game.countdown.reset_to_default(),
                FoodType::General => game.countdown.decrease_step(),
            }
            proof {
                assert(game@ =~= spec_step(old(game)@, draw));
            }
        },
    }
}

/// Relies on rand's `thread_rng` and `Rng::gen_range`: a value drawn
/// uniformly at random from `[0, n)`.
#[verifier::external_body]
fn rand_below(n: u32) -> (r: u32)
    requires
        n > 0,
    ensures
        r < n,
{
    rand::thread_rng().gen_range(0..n)
}

/// A game the moment its countdown fires: the accumulator reset,
/// everything else as it stood.
pub open spec fn spec_fired_game(g: GameView) -> GameView {
    GameView { countdown: Countdown { elapsed_millis: 0, ..g.countdown }, ..g }
}

/// One invocation of the tick engine, with `delta_millis` of real time
/// elapsed since the last one. Until the countdown's interval is
/// reached, the time is only accumulated and the game is untouched.
/// When it fires, one game step runs, with a fresh random draw picking
/// the kind of any replacement food.
pub fn tick(game: &mut Game, delta_millis: u64)
    requires
        old(game)@.wf(),
        old(game).state == GameState::Playing,
    ensures
        final(game)@.wf(),
        !old(game).countdown.spec_fires(delta_millis) ==> final(game)@ == (GameView {
            countdown: Countdown {
                elapsed_millis: (old(game).countdown.elapsed_millis + delta_millis) as u64,
                ..old(game).countdown
            },
            ..old(game)@
        }),
        old(game).countdown.spec_fires(delta_millis) ==> exists|draw: u32|
            draw < 1000 && final(game)@ == #[trigger] spec_step(
                spec_fired_game(old(game)@),
                draw,
            ),
{
    let fired = game.countdown.tick(delta_millis);
    if !fired {
        proof {
            assert(game@ =~= (GameView {
                countdown: Countdown {
                    elapsed_millis: (old(game).countdown.elapsed_millis + delta_millis) as u64,
                    ..old(game).countdown
                },
                ..old(game)@
            }));
        }
        return;
    }
    proof {
        assert(game@ =~= spec_fired_game(old(game)@));
    }
    let draw = rand_below(1000);
    game_step(game, draw);
    proof {
        assert(game@ == spec_step(spec_fired_game(old(game)@), draw));
    }
}

/// Put a game back in its starting shape on entering play: the snake in
/// its fixed two-segment layout, the score at zero, the countdown's
/// interval back at the default, the direction at its starting value,
/// the food table cleared, and one request for an ordinary food item
/// queued so the fresh board gets something to eat.
pub fn reset_game(game: &mut Game)
    requires
        old(game).board.size >= 5,
    ensures
        final(game).board == old(game).board,
        final(game).snake.segments@ == crate::snake::default_snake_layout(),
        final(game).foods@.len() == 0,
        final(game).countdown == (Countdown {
            duration_millis: old(game).countdown.default_duration_millis,
            ..old(game).countdown
        }),
        final(game).score.score == 0,
        final(game).direction == Direction::Right,
        final(game).state == GameState::Playing,
        final(game).pending_food@ == old(game).pending_food@.push(
            NewFoodEvent { food_type: FoodType::General },
        ),
        final(game)@.wf(),
{
    let d = game.countdown.default_duration_millis;
    game.countdown.set_duration(d);
    game.pending_food.push(NewFoodEvent { food_type: FoodType::General });
    game.foods.clear();
    game.snake = Snake::default();
    game.direction = Direction::default();
    game.score = Score::default();
    game.state = GameState::Playing;
    proof {
        assert(game.snake.segments@.no_duplicates());
        assert(game@.wf()) by {
            assert((game.board.size as int) * (game.board.size as int) >= 25) by (nonlinear_arith)
                requires
                    (game.board.size as int) >= 5,
            ;
        }
    }
}

} // verus!
