//! The rules of the game in rows and columns.

use vstd::prelude::*;

use super::snake::{
    cell_at, food_never_lands_on_the_snake, nth_free, on_board, shuffled, to_catch_up, Cell, Dir,
    SnakeState, Status,
};

verus! {

/// Up is towards row 0 and left towards column 0; the walls are at 0 and 19.
pub proof fn the_cell_ahead(row: usize, col: usize)
    requires
        row < 20,
        col < 20,
    ensures
        Dir::Up.ahead((row, col)) == if row > 0 {
            Some(((row - 1) as usize, col))
        } else {
            None
        },
        Dir::Down.ahead((row, col)) == if row < 19 {
            Some(((row + 1) as usize, col))
        } else {
            None
        },
        Dir::Left.ahead((row, col)) == if col > 0 {
            Some((row, (col - 1) as usize))
        } else {
            None
        },
        Dir::Right.ahead((row, col)) == if col < 19 {
            Some((row, (col + 1) as usize))
        } else {
            None
        },
        on_board((row, col)),
        !on_board((20, col)) && !on_board((row, 20)),
{
}

/// Going back where one came from is the reverse of a direction.
pub proof fn the_reverse_goes_back(dir: Dir, cell: Cell)
    requires
        on_board(cell),
        dir.ahead(cell) is Some,
    ensures
        dir.reverse().ahead(dir.ahead(cell)->0) == Some(cell),
        dir.reverse().reverse() == dir,
        dir.reverse() != dir,
{
}

/// A new game is three cells in the middle of the board, heading right, with no
/// score.
pub proof fn a_new_game(game: SnakeState)
    ensures
        ({
            let new = game.restart();
            &&& new.body == seq![(10usize, 10usize), (10usize, 9usize), (10usize, 8usize)]
            &&& new.dir == Dir::Right
            &&& new.pending is None
            &&& new.score == 0
            &&& new.status == Status::Ready
            &&& new.high == game.high
            &&& new.record == game.high
        }),
        game.status == Status::Ready ==> game.start() == (SnakeState {
            status: Status::Running,
            ..game
        }),
        game.status == Status::Running ==> game.start() == game,
        game.status == Status::Over || game.status == Status::Won ==> game.start().status
            == Status::Running && game.start().score == 0 && game.start().body.len() == 3,
{
}

/// A turn waits for the next step, the last one asked for counts, and one that
/// would go back into the neck is refused.
pub proof fn a_turn_waits_for_the_step(game: SnakeState, dir: Dir)
    requires
        game.status == Status::Running,
    ensures
        dir != game.dir.reverse() ==> game.turn(dir) == (SnakeState { pending: Some(dir), ..game }),
        dir == game.dir.reverse() ==> game.turn(dir) == game,
{
}

/// A step goes one cell on in the direction that was asked for, or in the one it
/// had; the tail follows.
pub proof fn a_step_goes_one_cell_on(game: SnakeState, head: Cell)
    requires
        game.wf(),
        game.status == Status::Running,
        head != game.body[0],
        ({
            let dir = match game.pending {
                Some(dir) => dir,
                None => game.dir,
            };
            dir.ahead(game.body[0]) == Some(head)
        }),
        game.food != Some(head),
        !game.body.drop_last().contains(head),
    ensures
        ({
            let after = game.step();
            &&& after.body.len() == game.body.len()
            &&& after.body[0] == head
            &&& forall|i: int| 1 <= i < after.body.len() ==> #[trigger] after.body[i]
                == game.body[i - 1]
            &&& after.dir == match game.pending {
                Some(dir) => dir,
                None => game.dir,
            }
            &&& after.pending is None
            &&& after.score == game.score && after.food == game.food && after.status
                == Status::Running
        }),
{
}

/// On food the snake grows by a cell, and the score by one.
pub proof fn food_is_a_cell_and_a_point(game: SnakeState, head: Cell)
    requires
        game.wf(),
        game.status == Status::Running,
        game.score < u32::MAX,
        ({
            let dir = match game.pending {
                Some(dir) => dir,
                None => game.dir,
            };
            dir.ahead(game.body[0]) == Some(head)
        }),
        game.food == Some(head),
        !game.body.contains(head),
    ensures
        ({
            let after = game.step();
            &&& after.body == seq![head] + game.body
            &&& after.score == game.score + 1
            &&& after.high >= after.score && after.high >= game.high
        }),
{
}

/// A wall, or the snake's own body, ends the game.
pub proof fn running_into_something_ends_the_game(game: SnakeState)
    requires
        game.wf(),
        game.status == Status::Running,
    ensures
        ({
            let dir = match game.pending {
                Some(dir) => dir,
                None => game.dir,
            };
            let ahead = dir.ahead(game.body[0]);
            &&& ahead is None ==> game.step().status == Status::Over && game.step().score
                == game.score
            &&& ahead is Some && game.food != ahead && game.body.drop_last().contains(ahead->0)
                ==> game.step().status == Status::Over
            &&& ahead is Some && game.food != ahead && !game.body.drop_last().contains(ahead->0)
                ==> game.step().status == Status::Running
        }),
{
}

/// A step takes 130 milliseconds, three less for each piece of food and sixty at
/// least; a quarter of a second is the most that is caught up on.
pub proof fn the_pace_of_the_game(game: SnakeState, passed: int)
    ensures
        game.step_ms() == if 130 - 3 * game.score > 60 { 130 - 3 * game.score } else { 60 },
        passed > 250_000_000 ==> game.advance(passed) == game,
        game.status == Status::Running && 0 <= passed < game.step_ms() * 1_000_000 ==> game.advance(
            passed,
        ) == game,
        game.status == Status::Running && game.step_ms() * 1_000_000 <= passed <= 250_000_000
            ==> game.advance(passed) == game.step().catch_up(
            passed - game.step_ms() * 1_000_000,
        ),
{
}

/// How many of the cells before the `i`th, in reading order, the snake is not on.
pub open spec fn free_before(body: Seq<Cell>, i: int) -> int
    decreases i,
{
    if i <= 0 {
        0
    } else {
        free_before(body, i - 1) + if body.contains(cell_at(i - 1)) {
            0int
        } else {
            1
        }
    }
}

proof fn the_nth_free_cell(body: Seq<Cell>, i: int, n: int)
    requires
        0 <= i,
        0 <= n,
    ensures
        nth_free(body, i, n) matches Some(cell) ==> exists|k: int|
            #![trigger cell_at(k)]
            i <= k < 400 && cell == cell_at(k) && !body.contains(cell) && free_before(body, k)
                == free_before(body, i) + n,
    decreases 400 - i,
{
    if i < 400 {
        if body.contains(cell_at(i)) {
            the_nth_free_cell(body, i + 1, n);
        } else if n > 0 {
            the_nth_free_cell(body, i + 1, n - 1);
        }
    }
}

/// Food is put on the free cell that the generator's next number picks, counted in
/// reading order from the top left: each is as likely as the next.
pub proof fn food_is_put_on_the_cell_that_is_picked(game: SnakeState)
    requires
        game.wf(),
        game.body.len() < 400,
    ensures
        game.feed().food is Some,
        exists|k: int|
            #![trigger cell_at(k)]
            0 <= k < 400 && game.feed().food == Some(cell_at(k)) && !game.body.contains(cell_at(k))
                && free_before(game.body, k) == shuffled(game.rng) as int % (400
                - game.body.len()),
        forall|row: int, col: int|
            #![trigger cell_at(20 * row + col)]
            0 <= row < 20 && 0 <= col < 20 ==> cell_at(20 * row + col) == (
                row as usize,
                col as usize,
            ),
        game.feed().rng == shuffled(game.rng),
{
    food_never_lands_on_the_snake(game);
    let n = shuffled(game.rng) as int % (400 - game.body.len());
    assert(n >= 0) by (nonlinear_arith)
        requires
            n == shuffled(game.rng) as int % (400 - game.body.len()),
            game.body.len() < 400,
    ;
    the_nth_free_cell(game.body, 0, n);
}

/// The first turn begins a game; in one that has ended a turn does nothing; and
/// none turns the snake back on itself.
pub proof fn a_turn_begins_the_game(game: SnakeState, dir: Dir)
    ensures
        game.status == Status::Ready || game.status == Status::Running ==> game.turn(dir).status
            == Status::Running,
        game.status == Status::Over || game.status == Status::Won ==> game.turn(dir) == game,
        game.status == Status::Ready || game.status == Status::Running ==> game.turn(dir).pending
            == if dir == game.dir.reverse() {
            game.pending
        } else {
            Some(dir)
        },
        game.turn(dir).body == game.body && game.turn(dir).dir == game.dir,
{
}

/// What is owed is added to what has gone by, up to a quarter of a second of it.
pub proof fn what_is_owed_is_added(apart: u128, owed: u64)
    ensures
        apart <= 250_000_000 ==> to_catch_up(apart, owed) == apart + owed,
        apart > 250_000_000 ==> to_catch_up(apart, owed) == apart,
{
}

/// Nothing is owed by a game that stands still, nor for more than a quarter of a
/// second; and what is too short for a step is owed whole.
pub proof fn what_is_still_owed(game: SnakeState, passed: int)
    ensures
        game.status != Status::Running ==> game.still_owed(passed) == 0,
        passed > 250_000_000 ==> game.still_owed(passed) == 0,
        game.status == Status::Running && passed <= 250_000_000 && passed < game.step_ms()
            * 1_000_000 ==> game.still_owed(passed) == passed,
{
}

} // verus!
