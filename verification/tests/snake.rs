use std::collections::VecDeque;
use std::time::{Duration, Instant};

use new_iris_terminal::features::snake::{
    read_high, Dir, Rng, Snake, Status, FASTEST_STEP_MS, SIDE,
};

/// A game in memory, started, with the snake where `restart` puts it.
fn started() -> Snake {
    let mut game = Snake::new(None);
    game.start();
    game
}

/// Walks the snake into the right-hand wall and reports where it ended up.
fn run_into_the_wall() -> Snake {
    let mut game = started();
    // Food is in the way of nothing in particular, so it is taken off the
    // board: this test is about the wall.
    game.food = None;
    for _ in 0..SIDE {
        game.step();
    }
    game
}

#[test]
fn the_snake_dies_against_a_wall_rather_than_wrapping_around_it() {
    let game = run_into_the_wall();
    assert_eq!(game.status(), Status::Over);
    assert!(
        game.body().iter().all(|&(_, col)| col < SIDE),
        "nothing should be left outside the board"
    );
}

#[test]
fn the_snake_dies_on_its_own_body() {
    let mut game = started();
    game.food = None;
    // Long enough to bite, and curled so that one turn puts the head in
    // the middle of it rather than on the tail.
    game.body = VecDeque::from(vec![(5, 5), (5, 4), (5, 3), (6, 3), (6, 4), (6, 5), (6, 6)]);
    game.dir = Dir::Right;
    game.turn(Dir::Down);
    game.step();
    assert_eq!(game.status(), Status::Over);
}

#[test]
fn eating_lengthens_the_snake_and_scores_one() {
    let mut game = started();
    let &(row, col) = game.body().front().expect("a head");
    game.food = Some((row, col + 1));
    let length = game.body().len();
    game.step();
    assert_eq!(game.score(), 1);
    assert_eq!(game.body().len(), length + 1);
    assert_eq!(game.status(), Status::Running);
}

/// Following your own tail is legal: it has moved on by the time the head
/// gets there.
#[test]
fn the_snake_may_move_into_the_cell_its_tail_is_leaving() {
    let mut game = started();
    game.food = None;
    // Curled so the head is right above its own tail, and then turned
    // onto it.
    game.body = VecDeque::from(vec![(5, 5), (5, 4), (6, 4), (6, 5)]);
    game.dir = Dir::Right;
    game.turn(Dir::Down);
    game.step();
    assert_eq!(game.status(), Status::Running);
    assert_eq!(game.body().front(), Some(&(6, 5)));
}

#[test]
fn a_turn_back_along_the_snake_is_refused() {
    let mut game = started();
    game.turn(Dir::Left);
    game.step();
    assert_eq!(game.dir, Dir::Right, "heading right, Left is backwards");
}

/// Two keys inside one step must not add up to a reversal: Up and then
/// Left, while heading Right, would otherwise put the head in its own
/// neck.
#[test]
fn two_turns_in_one_step_cannot_add_up_to_a_reversal() {
    let mut game = started();
    game.turn(Dir::Up);
    game.turn(Dir::Left);
    game.step();
    assert_eq!(game.dir, Dir::Up);
    assert_eq!(game.status(), Status::Running);
}

#[test]
fn food_never_lands_on_the_snake() {
    let mut game = started();
    for _ in 0..200 {
        let food = game.place_food().expect("room for food");
        assert!(!game.body().iter().any(|&cell| cell == food));
    }
}

/// The end of the game as the rules have it: the board is full, so there
/// is nowhere to put the next piece of food.
#[test]
fn filling_the_board_wins_rather_than_ending_the_game() {
    let mut game = started();
    // Every cell but the one the head is about to move into, which the
    // sweep leaves at the front of the queue: the head is at the top left,
    // heading right into the one free cell, with the last piece of food on
    // it.
    game.body = (0..SIDE)
        .flat_map(|row| (0..SIDE).map(move |col| (row, col)))
        .filter(|&cell| cell != (0, 1))
        .collect();
    game.dir = Dir::Right;
    game.food = Some((0, 1));
    game.step();
    assert_eq!(game.status(), Status::Won);
    assert_eq!(game.body().len(), SIDE * SIDE);
}

#[test]
fn the_best_score_survives_the_game_it_was_set_in() {
    let mut game = started();
    game.score = 7;
    game.finish(Status::Over);
    assert_eq!(game.high_score(), 7);
    game.start();
    assert_eq!(game.score(), 0);
    assert_eq!(game.high_score(), 7, "a new game keeps the record");
    assert_eq!(game.status(), Status::Running);
}

/// The snake gets faster as it eats, and stops getting faster before it
/// gets faster than the eye.
#[test]
fn the_step_shortens_with_the_score_and_then_stops() {
    let mut game = started();
    let opening = game.interval();
    game.score = 5;
    assert!(game.interval() < opening);
    game.score = 10_000;
    assert_eq!(game.interval(), FASTEST_STEP_MS);
}

/// A tab left in the background is not drawn, so nothing advances it.
/// Coming back to it must not run the missed minute all at once.
#[test]
fn time_spent_in_another_tab_is_dropped_rather_than_caught_up_on() {
    let mut game = started();
    let head = *game.body().front().expect("a head");
    game.advance(Instant::now() + Duration::from_secs(30));
    assert_eq!(game.body().front(), Some(&head), "no step should have run");
    assert_eq!(game.status(), Status::Running);
}

#[test]
fn a_saved_record_is_read_back() {
    assert_eq!(Snake::new(Some(" 12\n")).high_score(), 12);
    assert_eq!(Snake::new(Some("nonsense")).high_score(), 0);
    assert_eq!(read_high(None), 0);
}

#[test]
fn a_game_with_the_same_seed_is_the_same_game() {
    let mut a = Snake::with_rng(0, Rng(7));
    let mut b = Snake::with_rng(0, Rng(7));
    a.start();
    b.start();
    assert_eq!(a.food(), b.food());
    for _ in 0..5 {
        assert_eq!(a.place_food(), b.place_food());
    }
}

#[test]
fn owed_time_runs_that_many_steps() {
    let mut game = started();
    game.food = None;
    let &(row, col) = game.body().front().expect("a head");
    let (left, ended) = game.advance_by(131_000_000);
    assert!(!ended);
    assert_eq!(left, 1_000_000);
    assert_eq!(game.body().front(), Some(&(row, col + 1)));
}

#[test]
fn dropped_time_is_not_owed_afterwards() {
    let mut game = started();
    let head = *game.body().front().expect("a head");
    let later = Instant::now() + Duration::from_secs(30);
    assert!(!game.advance(later));
    assert_eq!(game.stepped_at, later);
    assert_eq!(game.owed, 0);
    assert!(!game.advance(later));
    assert_eq!(game.body().front(), Some(&head));
}

#[test]
fn a_step_is_taken_when_it_is_due_and_the_rest_is_owed() {
    let mut game = started();
    game.food = None;
    let &(row, col) = game.body().front().expect("a head");
    let begun = game.stepped_at;
    assert!(!game.advance(begun + Duration::from_millis(129)));
    assert_eq!(game.body().front(), Some(&(row, col)));
    assert_eq!(game.stepped_at, begun);
    let now = begun + Duration::from_millis(200);
    assert!(!game.advance(now));
    assert_eq!(game.body().front(), Some(&(row, col + 1)));
    assert_eq!(game.stepped_at, now);
    assert_eq!(game.owed, 70_000_000);
    assert!(!game.advance(now + Duration::from_millis(60)));
    assert_eq!(game.body().front(), Some(&(row, col + 2)));
    assert_eq!(game.owed, 0);
}

#[test]
fn only_a_game_that_beat_the_best_score_says_so() {
    let mut game = Snake::new(Some("5"));
    game.start();
    assert!(!game.beats_the_record());
    game.score = 5;
    assert!(!game.beats_the_record());
    game.score = 6;
    game.finish(Status::Over);
    assert!(game.beats_the_record());
    assert_eq!(game.high_score(), 6);
    game.start();
    assert!(!game.beats_the_record());
    assert_eq!(game.high_score(), 6);
}

/// Three cells and one for each piece of food, until it runs into something.
#[test]
fn the_snake_is_as_long_as_its_score_says() {
    let mut game = started();
    for _ in 0..3 {
        let &(row, col) = game.body().front().expect("a head");
        game.food = Some((row, col + 1));
        game.step();
        assert_eq!(game.body().len(), game.score() as usize + 3);
        assert!(game.high_score() >= game.score());
    }
    assert_eq!(game.score(), 3);
    while game.status() == Status::Running {
        game.food = Some((0, 0));
        game.step();
    }
    assert_eq!(game.status(), Status::Over);
    assert_eq!(game.body().len(), 6);
}
