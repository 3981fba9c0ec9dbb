use vstd::prelude::*;
use vstd::arithmetic::div_mod::{lemma_fundamental_div_mod, lemma_fundamental_div_mod_converse};

use itertools::Itertools;
use rand::seq::SliceRandom;

use crate::board::{Board, Position};
use crate::snake::Snake;
use crate::Game;

verus! {

/// What a food item does to the pace of the game when eaten.
#[derive(Debug, PartialEq, Eq, Structural, Clone, Copy)]
pub enum FoodType {
    /// Speeds the game up: shortens the tick interval by one step.
    General,
    /// Relief item: resets the tick interval to its default.
    SpeedStopper,
}

/// One active food item's kind. The food table pairs each with the cell
/// it occupies.
#[derive(Debug, PartialEq, Eq, Structural, Clone, Copy)]
pub struct Food {
    pub food_type: FoodType,
}

/// A request, queued by the tick engine, to place one new food item of
/// the given kind somewhere on a free cell.
#[derive(Debug, PartialEq, Eq, Structural, Clone, Copy)]
pub struct NewFoodEvent {
    pub food_type: FoodType,
}

/// Whether some food item sits at `p`.
pub open spec fn spec_has_food_at(foods: Seq<(Position, Food)>, p: Position) -> bool {
    exists|i: int| 0 <= i < foods.len() && (#[trigger] foods[i]).0 == p
}

/// The index of the (unique, when the table is well formed) food item
/// at `p`. Meaningful only when one is there.
pub open spec fn spec_food_index(foods: Seq<(Position, Food)>, p: Position) -> int {
    choose|i: int| 0 <= i < foods.len() && (#[trigger] foods[i]).0 == p
}

/// The kind of the one food item spawned for each item eaten: mostly
/// another ordinary item, now and then a relief item, decided by a
/// uniformly random draw from a thousand lots.
pub open spec fn spec_choose_food_type(draw: u32) -> FoodType {
    if draw > 700 {
        FoodType::SpeedStopper
    } else {
        FoodType::General
    }
}

/// Turn one random draw into the kind of food to spawn next.
pub fn choose_food_type(draw: u32) -> (t: FoodType)
    ensures
        t == spec_choose_food_type(draw),
{
    if draw > 700 {
        FoodType::SpeedStopper
    } else {
        FoodType::General
    }
}

/// The food table is well formed on `board` when every item is on the
/// board, no two items share a cell, and no item sits under the snake.
pub open spec fn foods_wf(board: Board, snake: Seq<Position>, foods: Seq<(Position, Food)>) -> bool {
    &&& forall|i: int|
        0 <= i < foods.len() ==> board.spec_in_bounds((#[trigger] foods[i]).0)
    &&& forall|i: int, j: int|
        0 <= i < foods.len() && 0 <= j < foods.len() && i != j ==> (#[trigger] foods[i]).0 != (
        #[trigger] foods[j]).0
    &&& forall|i: int| 0 <= i < foods.len() ==> !snake.contains((#[trigger] foods[i]).0)
}

/// A cell that new food may land on: on the board, not under the snake,
/// not already holding food.
pub open spec fn spec_free_cell(
    board: Board,
    snake: Seq<Position>,
    foods: Seq<(Position, Food)>,
    p: Position,
) -> bool {
    board.spec_in_bounds(p) && !snake.contains(p) && !spec_has_food_at(foods, p)
}

/// Where a cell falls in row-major grid order.
pub open spec fn spec_cell_index(size: u8, p: Position) -> int {
    p.x * size + p.y
}

/// The index of the food item at `p`, if one is there.
///
/// Returns the first match; when the table is well formed it is the only
/// one.
pub fn find_food(foods: &Vec<(Position, Food)>, p: Position) -> (r: Option<usize>)
    ensures
        match r {
            Some(i) => i < foods@.len() && foods@[i as int].0 == p,
            None => !spec_has_food_at(foods@, p),
        },
{
    let n = foods.len();
    for i in 0..n
        invariant
            n == foods@.len(),
            forall|j: int| 0 <= j < i ==> (#[trigger] foods@[j]).0 != p,
    {
        if foods[i].0 == p {
            return Some(i);
        }
    }
    None
}

/// Relies on itertools' `cartesian_product` over two equal ranges: every
/// pair `(x, y)` with both parts below `size`, in row-major order with
/// the second coordinate moving fastest.
#[verifier::external_body]
fn grid_cells(size: u8) -> (r: Vec<(u8, u8)>)
    ensures
        r@.len() == size * size,
        forall|k: int|
            0 <= k < r@.len() ==> (#[trigger] r@[k]).0 == k / (size as int) && r@[k].1 == k % (
            size as int),
{
    (0..size).cartesian_product(0..size).collect()
}

/// Relies on rand's `SliceRandom::choose_multiple`: `amount` elements
/// chosen from the slice at distinct random indices (all of them when the
/// slice has fewer), in random order.
#[verifier::external_body]
fn choose_positions(options: &Vec<Position>, amount: usize) -> (r: Vec<Position>)
    ensures
        r@.len() == vstd::math::min(amount as int, options@.len() as int),
        forall|i: int| 0 <= i < r@.len() ==> options@.contains(#[trigger] r@[i]),
        options@.no_duplicates() ==> r@.no_duplicates(),
        options@.len() <= amount ==> forall|p: Position|
            options@.contains(p) ==> r@.contains(p),
{
    let mut rng = rand::thread_rng();
    options.choose_multiple(&mut rng, amount).copied().collect()
}

/// Every cell new food may land on, given the current snake and food
/// table: exactly the free cells, each once.
pub fn possible_food_locations(
    board: &Board,
    snake: &Snake,
    foods: &Vec<(Position, Food)>,
) -> (r: Vec<Position>)
    ensures
        r@.no_duplicates(),
        forall|p: Position| r@.contains(p) <==> spec_free_cell(*board, snake.segments@, foods@, p),
{
    let size = board.size;
    let cells = grid_cells(size);
    let mut r: Vec<Position> = Vec::new();
    let n = cells.len();
    for k in 0..n
        invariant
            size == board.size,
            n == cells@.len(),
            n == size * size,
            forall|m: int|
                0 <= m < cells@.len() ==> (#[trigger] cells@[m]).0 == m / (size as int)
                    && cells@[m].1 == m % (size as int),
            r@.no_duplicates(),
            forall|j: int|
                0 <= j < r@.len() ==> spec_free_cell(*board, snake.segments@, foods@, (
                #[trigger] r@[j])),
            forall|j: int| 0 <= j < r@.len() ==> spec_cell_index(size, #[trigger] r@[j]) < k,
            forall|p: Position|
                spec_free_cell(*board, snake.segments@, foods@, p) && spec_cell_index(size, p) < k
                    ==> r@.contains(p),
    {
        let cell = cells[k];
        let p = Position { x: cell.0, y: cell.1 };
        proof {
            assert((size as int) > 0) by (nonlinear_arith)
                requires
                    0 <= (k as int),
                    (k as int) < (size as int) * (size as int),
                    (size as int) >= 0,
            ;
            lemma_fundamental_div_mod(k as int, size as int);
            assert(p.x < size && p.y < size) by {
                assert((k as int) / (size as int) < size as int) by (nonlinear_arith)
                    requires
                        0 <= (k as int),
                        (k as int) < (size as int) * (size as int),
                        (size as int) > 0,
                ;
            }
            assert(spec_cell_index(size, p) == k) by {
                assert(p.x == (k as int) / (size as int));
                assert(p.y == (k as int) % (size as int));
                assert((p.x as int) * (size as int) == (size as int) * (p.x as int)) by (nonlinear_arith);
            }
        }
        let under_snake = snake.occupies(p);
        let has_food = find_food(foods, p);
        if !under_snake && has_food.is_none() {
            let ghost r_old = r@;
            r.push(p);
            proof {
                assert forall|p2: Position|
                    spec_free_cell(*board, snake.segments@, foods@, p2) && spec_cell_index(
                        size,
                        p2,
                    ) < k + 1 implies r@.contains(p2) by {
                    if spec_cell_index(size, p2) < k {
                        assert(r_old.contains(p2));
                        assert(r@ == r_old.push(p));
                        let w = choose|w: int| 0 <= w < r_old.len() && r_old[w] == p2;
                        assert(r@[w] == p2);
                    } else {
                        assert(p2.x * size + p2.y == k);
                        lemma_fundamental_div_mod_converse(
                            k as int,
                            size as int,
                            p2.x as int,
                            p2.y as int,
                        );
                        assert(p2 == p);
                        assert(r@[r_old.len() as int] == p);
                    }
                }
            }
        } else {
            proof {
                assert forall|p2: Position|
                    spec_free_cell(*board, snake.segments@, foods@, p2) && spec_cell_index(
                        size,
                        p2,
                    ) < k + 1 implies r@.contains(p2) by {
                    if spec_cell_index(size, p2) == k {
                        assert(p2.x * size + p2.y == k);
                        lemma_fundamental_div_mod_converse(
                            k as int,
                            size as int,
                            p2.x as int,
                            p2.y as int,
                        );
                        assert(p2 == p);
                        assert(false);
                    }
                }
            }
        }
    }
    proof {
        assert forall|p: Position|
            spec_free_cell(*board, snake.segments@, foods@, p) implies r@.contains(p) by {
            assert(p.x < size && p.y < size);
            assert(spec_cell_index(size, p) < n) by (nonlinear_arith)
                requires
                    p.x < size,
                    p.y < size,
                    n == (size as int) * (size as int),
                    spec_cell_index(size, p) == p.x * size + p.y,
            ;
        }
    }
    r
}

/// Resolve every queued food-spawn request against one snapshot of the
/// board: all pending requests are drained at once, each becomes one new
/// food item of the kind the last request asked for, placed on a cell
/// chosen uniformly at random among the cells that are on the board,
/// not under the snake and not already holding food. When fewer free
/// cells remain than requests, only as many items are placed — never an
/// error. Nothing else of the game moves.
pub fn food_event_listener(game: &mut Game)
    requires
        old(game)@.wf(),
    ensures
        final(game)@.wf(),
        final(game).board == old(game).board,
        final(game)@.snake == old(game)@.snake,
        final(game).countdown == old(game).countdown,
        final(game).score == old(game).score,
        final(game).direction == old(game).direction,
        final(game).state == old(game).state,
        final(game)@.pending_food.len() == 0,
        final(game)@.foods.len() <= old(game)@.foods.len() + old(game)@.pending_food.len(),
        forall|j: int|
            0 <= j < old(game)@.foods.len() ==> #[trigger] final(game)@.foods[j] == old(
                game,
            )@.foods[j],
        forall|j: int|
            old(game)@.foods.len() <= j < final(game)@.foods.len() ==> spec_free_cell(
                old(game).board,
                old(game)@.snake,
                old(game)@.foods,
                (#[trigger] final(game)@.foods[j]).0,
            ) && final(game)@.foods[j].1.food_type == old(game)@.pending_food.last().food_type,
        final(game)@.foods.len() == old(game)@.foods.len() + old(game)@.pending_food.len() || (
        forall|p: Position|
            spec_free_cell(old(game).board, old(game)@.snake, old(game)@.foods, p)
                ==> spec_has_food_at(final(game)@.foods, p)),
{
    let num_food = game.pending_food.len();
    let food_type = if num_food > 0 {
        game.pending_food[num_food - 1].food_type
    } else {
        FoodType::General
    };
    game.pending_food.clear();
    let options = possible_food_locations(&game.board, &game.snake, &game.foods);
    let chosen = choose_positions(&options, num_food);
    let ghost old_foods = game.foods@;
    let n = chosen.len();
    for i in 0..n
        invariant
            game.board == old(game).board,
            game.snake.segments@ == old(game)@.snake,
            game.countdown == old(game).countdown,
            game.score == old(game).score,
            game.direction == old(game).direction,
            game.state == old(game).state,
            game.pending_food@.len() == 0,
            old_foods == old(game)@.foods,
            num_food == old(game)@.pending_food.len(),
            num_food > 0 ==> food_type == old(game)@.pending_food.last().food_type,
            n == chosen@.len(),
            n <= num_food,
            chosen@.no_duplicates(),
            forall|j: int| 0 <= j < n ==> options@.contains(#[trigger] chosen@[j]),
            forall|p: Position|
                options@.contains(p) <==> spec_free_cell(
                    old(game).board,
                    old(game)@.snake,
                    old_foods,
                    p,
                ),
            n == num_food || n == options@.len(),
            game.foods@.len() == old_foods.len() + i,
            forall|j: int| 0 <= j < old_foods.len() ==> #[trigger] game.foods@[j] == old_foods[j],
            forall|j: int|
                old_foods.len() <= j < game.foods@.len() ==> #[trigger] game.foods@[j] == (
                chosen@[j - old_foods.len()],
                Food { food_type },
            ),
    {
        game.foods.push((chosen[i], Food { food_type }));
    }
    proof {
        let post = game.foods@;
        assert forall|j: int|
            old_foods.len() <= j < post.len() implies spec_free_cell(
            old(game).board,
            old(game)@.snake,
            old_foods,
            (#[trigger] post[j]).0,
        ) && post[j].1.food_type == food_type by {
            assert(post[j] == (chosen@[j - old_foods.len()], Food { food_type }));
            assert(options@.contains(chosen@[j - old_foods.len()]));
        }
        if n < num_food {
            assert forall|p: Position|
                spec_free_cell(old(game).board, old(game)@.snake, old_foods, p) implies
                spec_has_food_at(post, p) by {
                assert(options@.contains(p));
                assert(chosen@.contains(p));
                let w = choose|w: int| 0 <= w < chosen@.len() && chosen@[w] == p;
                assert(post[old_foods.len() + w].0 == p);
            }
        }
        assert(game@.wf()) by {
            assert forall|a: int, b: int|
                0 <= a < post.len() && 0 <= b < post.len() && a != b implies (
            #[trigger] post[a]).0 != (#[trigger] post[b]).0 by {
                let lo = old_foods.len() as int;
                if a >= lo && b >= lo {
                    assert(post[a].0 == chosen@[a - lo] && post[b].0 == chosen@[b - lo]);
                } else if a < lo && b >= lo {
                    assert(spec_free_cell(
                        old(game).board,
                        old(game)@.snake,
                        old_foods,
                        post[b].0,
                    ));
                    if post[a].0 == post[b].0 {
                        assert(spec_has_food_at(old_foods, post[b].0));
                    }
                } else if a >= lo && b < lo {
                    assert(spec_free_cell(
                        old(game).board,
                        old(game)@.snake,
                        old_foods,
                        post[a].0,
                    ));
                    if post[a].0 == post[b].0 {
                        assert(spec_has_food_at(old_foods, post[a].0));
                    }
                }
            }
        }
    }
}

} // verus!
