//! The snake, for the tab that `/snake` opens.
//!
//! It knows nothing of the grid or of a session, so what draws it is free to
//! draw it any way it likes.
//!
//! The board is square and always the same number of cells however large the
//! window is: a snake that got shorter relative to its board as the window grew
//! would be a different game in every tab.

use std::collections::VecDeque;
use std::time::Instant;
use vstd::prelude::*;

use crate::clock::{nanos_apart, nanos_between, seed_now};
use crate::number::{read_unsigned, unsigned};
use crate::text::{chars_of, end_of_trimmed, start_of_trimmed, trim};

verus! {

/// Cells along one side of the board.
pub const SIDE: usize = 20;

/// Cells on the board.
pub const CELLS: usize = 400;

/// How long a step takes at the start, and how much of that each piece of food
/// takes off it, in milliseconds. The floor is where it stops getting faster,
/// because below it the snake outruns the eye.
pub const START_STEP_MS: u64 = 130;

pub const SPEED_UP_MS: u64 = 3;

pub const FASTEST_STEP_MS: u64 = 60;

/// How far behind the clock the game may be before it stops trying to catch up,
/// in nanoseconds.
///
/// A tab that is not on screen is not drawn, so nothing advances it, and coming
/// back to it after a minute elsewhere would otherwise run a minute's worth of
/// steps at once. Past this, the missed time is simply dropped.
pub const MAX_CATCH_UP: u128 = 250_000_000;

/// A cell of the board: row then column, both counted from the top left.
pub type Cell = (usize, usize);

#[derive(Clone, Copy, Debug, PartialEq, Eq, Structural)]
pub enum Dir {
    Up,
    Down,
    Left,
    Right,
}

impl Dir {
    pub open spec fn reverse(self) -> Dir {
        match self {
            Dir::Up => Dir::Down,
            Dir::Down => Dir::Up,
            Dir::Left => Dir::Right,
            Dir::Right => Dir::Left,
        }
    }

    fn opposite(self) -> (dir: Dir)
        ensures
            dir == self.reverse(),
    {
        match self {
            Dir::Up => Dir::Down,
            Dir::Down => Dir::Up,
            Dir::Left => Dir::Right,
            Dir::Right => Dir::Left,
        }
    }

    /// The cell next to `cell`, unless the wall is in the way.
    pub open spec fn ahead(self, cell: Cell) -> Option<Cell> {
        let (row, col) = cell;
        match self {
            Dir::Up => if row > 0 {
                Some(((row - 1) as usize, col))
            } else {
                None
            },
            Dir::Down => if row + 1 < SIDE {
                Some(((row + 1) as usize, col))
            } else {
                None
            },
            Dir::Left => if col > 0 {
                Some((row, (col - 1) as usize))
            } else {
                None
            },
            Dir::Right => if col + 1 < SIDE {
                Some((row, (col + 1) as usize))
            } else {
                None
            },
        }
    }

    fn next(self, cell: Cell) -> (to: Option<Cell>)
        requires
            on_board(cell),
        ensures
            to == self.ahead(cell),
    {
        let (row, col) = cell;
        match self {
            Dir::Up => if row > 0 {
                Some((row - 1, col))
            } else {
                None
            },
            Dir::Down => if row + 1 < SIDE {
                Some((row + 1, col))
            } else {
                None
            },
            Dir::Left => if col > 0 {
                Some((row, col - 1))
            } else {
                None
            },
            Dir::Right => if col + 1 < SIDE {
                Some((row, col + 1))
            } else {
                None
            },
        }
    }
}

/// What the board is doing, which is also what the message across it says.
#[derive(Clone, Copy, Debug, PartialEq, Eq, Structural)]
pub enum Status {
    /// Set up and waiting to be started, which is where a new game and a
    /// restarted one both begin.
    Ready,
    Running,
    /// Ran into a wall or into itself.
    Over,
    /// Filled the board: there is nowhere left to put food.
    Won,
}

pub struct Snake {
    /// Every cell the snake is on, head first.
    pub body: VecDeque<Cell>,
    pub dir: Dir,
    /// The turn asked for since the last step, applied when that step comes.
    ///
    /// Held rather than acted on so that two keys pressed inside one step
    /// cannot turn the snake twice.
    pub pending: Option<Dir>,
    /// Where the food is, or `None` when there is nowhere left to put it.
    pub food: Option<Cell>,
    pub status: Status,
    pub score: u32,
    pub high: u32,
    /// The best score when this game began.
    pub record: u32,
    pub rng: Rng,
    /// When the last step was taken, and how many nanoseconds before that it
    /// was due.
    pub stepped_at: Instant,
    pub owed: u64,
}

/// A [`Snake`] as a mathematical value, without its clock.
#[verifier::ext_equal]
pub struct SnakeState {
    pub body: Seq<Cell>,
    pub dir: Dir,
    pub pending: Option<Dir>,
    pub food: Option<Cell>,
    pub status: Status,
    pub score: u32,
    pub high: u32,
    pub record: u32,
    pub rng: u64,
}

impl View for Snake {
    type V = SnakeState;

    open spec fn view(&self) -> SnakeState {
        SnakeState {
            body: self.body@,
            dir: self.dir,
            pending: self.pending,
            food: self.food,
            status: self.status,
            score: self.score,
            high: self.high,
            record: self.record,
            rng: self.rng.0,
        }
    }
}

// ---- the board ----------------------------------------------------------

pub open spec fn on_board(cell: Cell) -> bool {
    cell.0 < SIDE && cell.1 < SIDE
}

/// The cells in reading order.
pub open spec fn cell_at(i: int) -> Cell {
    ((i / SIDE as int) as usize, (i % SIDE as int) as usize)
}

/// The `n`th cell, from the `i`th on, that is not taken.
pub open spec fn nth_free(body: Seq<Cell>, i: int, n: int) -> Option<Cell>
    decreases CELLS - i,
{
    if i < 0 || i >= CELLS {
        None
    } else if body.contains(cell_at(i)) {
        nth_free(body, i + 1, n)
    } else if n == 0 {
        Some(cell_at(i))
    } else {
        nth_free(body, i + 1, n - 1)
    }
}

/// The next number of the generator.
pub open spec fn shuffled(x: u64) -> u64 {
    let a = x ^ (x << 13u64);
    let b = a ^ (a >> 7u64);
    b ^ (b << 17u64)
}

/// Where the food goes next.
///
/// An xorshift: the only thing asked of it is that the food not be predictable
/// within a game.
pub struct Rng(pub u64);

impl Rng {
    /// A generator started from the clock. Never zero: xorshift stays at zero
    /// forever once it gets there.
    fn seeded() -> (rng: Rng)
        ensures
            rng.0 != 0,
    {
        let seed: u64 = match seed_now() {
            Some(nanos) => nanos,
            None => 0x2545_F491_4F6C_DD1D,
        };
        assert(seed | 1 != 0) by (bit_vector);
        Rng(seed | 1)
    }

    fn next(&mut self) -> (x: u64)
        ensures
            x == shuffled(old(self).0),
            final(self).0 == x,
    {
        let x = self.0;
        let a = x ^ (x << 13u64);
        let b = a ^ (a >> 7u64);
        self.0 = b ^ (b << 17u64);
        self.0
    }

    /// A number under `bound`.
    fn below(&mut self, bound: usize) -> (n: usize)
        requires
            bound > 0,
        ensures
            n == shuffled(old(self).0) as int % bound as int,
            n < bound,
            final(self).0 == shuffled(old(self).0),
    {
        (self.next() % bound as u64) as usize
    }
}

// ---- the rules ----------------------------------------------------------

impl SnakeState {
    /// A snake on the board that is nowhere twice.
    pub open spec fn wf(self) -> bool {
        &&& self.body.len() >= 1
        &&& self.body.no_duplicates()
        &&& forall|i: int| 0 <= i < self.body.len() ==> on_board(#[trigger] self.body[i])
    }

    /// What holds of a game at every moment of it. The snake is three cells and
    /// one for each piece of food, but for the tail that a snake running into
    /// itself has already drawn in; the game is won exactly when the board is
    /// full, which is when no food is left; food lies where the snake is not;
    /// and the best score is the one to beat or the one being made.
    pub open spec fn sound(self) -> bool {
        &&& self.wf()
        &&& self.score + 2 <= self.body.len() <= self.score + 3
        &&& self.status != Status::Over ==> self.body.len() == self.score + 3
        &&& self.status == Status::Won <==> self.body.len() == CELLS
        &&& self.status == Status::Won <==> self.food is None
        &&& self.food matches Some(cell) ==> on_board(cell) && !self.body.contains(cell)
        &&& self.high == if self.score > self.record {
            self.score
        } else {
            self.record
        }
    }

    /// New food on a cell that is free, if there is one.
    pub open spec fn feed(self) -> SnakeState {
        if self.body.len() == CELLS {
            SnakeState { food: None, ..self }
        } else {
            let next = shuffled(self.rng);
            SnakeState {
                food: nth_free(self.body, 0, next as int % (CELLS - self.body.len())),
                rng: next,
                ..self
            }
        }
    }

    /// A fresh board, the best score kept.
    pub open spec fn restart(self) -> SnakeState {
        SnakeState {
            body: seq![(10usize, 10usize), (10usize, 9usize), (10usize, 8usize)],
            dir: Dir::Right,
            pending: None,
            score: 0,
            status: Status::Ready,
            record: self.high,
            ..self
        }.feed()
    }

    pub open spec fn start(self) -> SnakeState {
        match self.status {
            Status::Ready => SnakeState { status: Status::Running, ..self },
            Status::Running => self,
            _ => SnakeState { status: Status::Running, ..self.restart() },
        }
    }

    /// A turn asked for. One that would double the snake back along itself is
    /// refused, measured against the heading.
    pub open spec fn turn(self, dir: Dir) -> SnakeState {
        let s = if self.status == Status::Ready {
            self.start()
        } else {
            self
        };
        if s.status != Status::Running || dir == s.dir.reverse() {
            s
        } else {
            SnakeState { pending: Some(dir), ..s }
        }
    }

    /// Whether this game did better than every one before it.
    pub open spec fn beats_the_record(self) -> bool {
        self.score > self.record
    }

    /// The end of a game. The best score so far is kept.
    pub open spec fn finish(self, status: Status) -> SnakeState {
        SnakeState {
            status,
            high: if self.score > self.high {
                self.score
            } else {
                self.high
            },
            ..self
        }
    }

    /// The snake one cell longer for what it ate.
    pub open spec fn eat(self) -> SnakeState {
        let score = if self.score == u32::MAX {
            u32::MAX
        } else {
            (self.score + 1) as u32
        };
        let fed = SnakeState {
            score,
            high: if score > self.high {
                score
            } else {
                self.high
            },
            ..self
        }.feed();
        if fed.food is None {
            fed.finish(Status::Won)
        } else {
            fed
        }
    }

    /// One move of the snake: the rules of the game, and all of them. The walls
    /// are walls; the tail moves out of the way in the same step, unless the
    /// snake has just eaten.
    pub open spec fn step(self) -> SnakeState {
        if self.status != Status::Running {
            self
        } else {
            let dir = match self.pending {
                Some(dir) => dir,
                None => self.dir,
            };
            let s = SnakeState { dir, pending: None, ..self };
            match dir.ahead(self.body[0]) {
                None => s.finish(Status::Over),
                Some(head) => {
                    let eaten = self.food == Some(head);
                    let rest = if eaten {
                        self.body
                    } else {
                        self.body.drop_last()
                    };
                    if rest.contains(head) {
                        SnakeState { body: rest, ..s }.finish(Status::Over)
                    } else {
                        let moved = SnakeState { body: seq![head] + rest, ..s };
                        if eaten {
                            moved.eat()
                        } else {
                            moved
                        }
                    }
                },
            }
        }
    }

    /// How long one step lasts, in milliseconds.
    pub open spec fn step_ms(self) -> int {
        let ms = START_STEP_MS - SPEED_UP_MS * self.score;
        if ms < FASTEST_STEP_MS {
            FASTEST_STEP_MS as int
        } else {
            ms
        }
    }

    /// Every step that has fallen due after `passed` nanoseconds.
    pub open spec fn catch_up(self, passed: int) -> SnakeState
        decreases passed,
    {
        let due = self.step_ms() * 1_000_000;
        if self.status != Status::Running || passed < due || due <= 0 {
            self
        } else {
            self.step().catch_up(passed - due)
        }
    }

    /// What is left of `passed` after the steps that have fallen due.
    pub open spec fn left_over(self, passed: int) -> int
        decreases passed,
    {
        let due = self.step_ms() * 1_000_000;
        if self.status != Status::Running || passed < due || due <= 0 {
            passed
        } else {
            self.step().left_over(passed - due)
        }
    }

    /// Time passes. A game that is not running, and one that is too far behind
    /// the clock, let it go by.
    pub open spec fn advance(self, passed: int) -> SnakeState {
        if self.status != Status::Running || passed > MAX_CATCH_UP {
            self
        } else {
            self.catch_up(passed)
        }
    }

    /// What is left to be caught up on after that.
    pub open spec fn still_owed(self, passed: int) -> int {
        if self.status != Status::Running || passed > MAX_CATCH_UP {
            0
        } else {
            self.left_over(passed)
        }
    }
}

/// The time there is to catch up on: what has gone by on the clock, and what was
/// still owed before that. Once the clock alone is too far ahead there is
/// nothing to add to.
pub open spec fn to_catch_up(apart: u128, owed: u64) -> int {
    if apart > MAX_CATCH_UP {
        apart as int
    } else {
        apart + owed
    }
}

// ---- playing ------------------------------------------------------------

fn is_on(body: &VecDeque<Cell>, cell: Cell) -> (yes: bool)
    ensures
        yes == body@.contains(cell),
{
    let mut i: usize = 0;
    while i < body.len()
        invariant
            i <= body@.len(),
            forall|k: int| 0 <= k < i ==> #[trigger] body@[k] != cell,
        decreases body.len() - i,
    {
        if body[i].0 == cell.0 && body[i].1 == cell.1 {
            return true;
        }
        i += 1;
    }
    false
}

/// The `n`th cell of the board, in reading order, that the snake is not on.
fn free_cell(body: &VecDeque<Cell>, n: usize) -> (cell: Option<Cell>)
    ensures
        cell == nth_free(body@, 0, n as int),
{
    let mut wanted: usize = n;
    let mut i: usize = 0;
    while i < CELLS
        invariant
            i <= CELLS,
            nth_free(body@, 0, n as int) == nth_free(body@, i as int, wanted as int),
        decreases CELLS - i,
    {
        let cell = (i / SIDE, i % SIDE);
        if !is_on(body, cell) {
            if wanted == 0 {
                return Some(cell);
            }
            wanted -= 1;
        }
        i += 1;
    }
    None
}

/// The best score that a file holds, or none at all if there is nothing
/// readable in it.
pub open spec fn score_in(text: Option<Seq<char>>) -> u32 {
    match text {
        Some(text) => match unsigned(trim(text), u32::MAX as int) {
            Some(n) => n as u32,
            None => 0,
        },
        None => 0,
    }
}

/// The best score that a file holds. A file that has been edited by hand is not
/// worth complaining about.
pub fn read_high(text: Option<&str>) -> (high: u32)
    ensures
        high == score_in(
            match text {
                Some(text) => Some(text@),
                None => None,
            },
        ),
{
    match text {
        Some(text) => {
            let chars = chars_of(text);
            let len = chars.len();
            let end = end_of_trimmed(chars.as_slice(), 0, len);
            let start = start_of_trimmed(chars.as_slice(), 0, end);
            assert(chars@.subrange(0, len as int) =~= text@);
            match read_unsigned(chars.as_slice(), start, end, 0xffff_ffff) {
                Some(n) => n as u32,
                None => 0,
            }
        },
        None => 0,
    }
}

impl Snake {
    /// A new game, ready to start, from a given generator.
    pub fn with_rng(high: u32, rng: Rng) -> (game: Self)
        ensures
            game@ == (SnakeState {
                body: Seq::empty(),
                dir: Dir::Right,
                pending: None,
                food: None,
                status: Status::Ready,
                score: 0,
                high,
                record: high,
                rng: rng.0,
            }).restart(),
            game@.wf(),
            game.owed == 0,
    {
        let mut game = Snake {
            body: VecDeque::new(),
            dir: Dir::Right,
            pending: None,
            food: None,
            status: Status::Ready,
            score: 0,
            high,
            record: high,
            rng,
            stepped_at: Instant::now(),
            owed: 0,
        };
        game.restart();
        game
    }

    /// A new game, ready to start, with the best score read back from what its
    /// file holds. Where the first food lies is up to the clock.
    pub fn new(saved: Option<&str>) -> (game: Self)
        ensures
            game@.wf(),
            game.owed == 0,
            game@.status == Status::Ready,
            game@.score == 0,
            game@.high == score_in(
                match saved {
                    Some(text) => Some(text@),
                    None => None,
                },
            ),
            exists|rng: u64|
                rng != 0 && game@ == #[trigger] (SnakeState {
                    body: Seq::empty(),
                    dir: Dir::Right,
                    pending: None,
                    food: None,
                    status: Status::Ready,
                    score: 0,
                    high: game@.high,
                    record: game@.high,
                    rng,
                }).restart(),
    {
        Snake::with_rng(read_high(saved), Rng::seeded())
    }

    /// Back to a fresh board, keeping the best score.
    pub fn restart(&mut self)
        ensures
            final(self)@ == old(self)@.restart(),
            final(self)@.wf(),
            final(self).owed == 0,
    {
        // Three cells, laid out to the left of the head, so the opening heading
        // has somewhere to have come from.
        let mut body: VecDeque<Cell> = VecDeque::new();
        body.push_back((10, 10));
        body.push_back((10, 9));
        body.push_back((10, 8));
        assert(body@ =~= seq![(10usize, 10usize), (10usize, 9usize), (10usize, 8usize)]);
        self.body = body;
        self.dir = Dir::Right;
        self.pending = None;
        self.score = 0;
        self.status = Status::Ready;
        self.record = self.high;
        let food = self.place_food();
        self.food = food;
        self.stepped_at = Instant::now();
        self.owed = 0;
    }

    pub fn status(&self) -> (status: Status)
        ensures
            status == self@.status,
    {
        self.status
    }

    pub fn score(&self) -> (score: u32)
        ensures
            score == self@.score,
    {
        self.score
    }

    pub fn high_score(&self) -> (high: u32)
        ensures
            high == self@.high,
    {
        self.high
    }

    pub fn food(&self) -> (food: Option<Cell>)
        ensures
            food == self@.food,
    {
        self.food
    }

    /// Whether this game beat the best score it began with, which is when the
    /// best score is worth writing down.
    pub fn beats_the_record(&self) -> (yes: bool)
        ensures
            yes == self@.beats_the_record(),
    {
        self.score > self.record
    }

    /// The snake itself, head first.
    pub fn body(&self) -> (body: &VecDeque<Cell>)
        ensures
            body@ == self@.body,
    {
        &self.body
    }

    /// How long one step lasts at the length the snake is now, in milliseconds.
    pub fn interval(&self) -> (ms: u64)
        ensures
            ms == self@.step_ms(),
            FASTEST_STEP_MS <= ms <= START_STEP_MS,
    {
        let ms = START_STEP_MS.saturating_sub(self.score as u64 * SPEED_UP_MS);
        if ms < FASTEST_STEP_MS {
            FASTEST_STEP_MS
        } else {
            ms
        }
    }

    /// Starts a game that is waiting, or starts the next one when the last is
    /// finished. What Space does.
    pub fn start(&mut self)
        requires
            old(self)@.wf(),
        ensures
            final(self)@ == old(self)@.start(),
            final(self)@.wf(),
            old(self)@.status == Status::Running ==> *final(self) == *old(self),
            old(self)@.status != Status::Running ==> final(self).owed == 0,
    {
        match self.status {
            Status::Running => {},
            Status::Ready => {
                self.status = Status::Running;
                self.stepped_at = Instant::now();
                self.owed = 0;
            },
            _ => {
                self.restart();
                self.status = Status::Running;
                self.stepped_at = Instant::now();
                self.owed = 0;
            },
        }
    }

    /// Asks for a turn, which is refused if it would double the snake back
    /// along itself.
    ///
    /// Measured against the heading rather than against a turn already waiting:
    /// the head has not moved yet, so the neck is still the cell opposite `dir`
    /// whatever was asked for a moment ago. It is also what stops two keys
    /// pressed inside one step from adding up to a reversal.
    pub fn turn(&mut self, dir: Dir)
        requires
            old(self)@.wf(),
        ensures
            final(self)@ == old(self)@.turn(dir),
            final(self)@.wf(),
            old(self)@.status == Status::Ready ==> final(self).owed == 0,
            old(self)@.status != Status::Ready ==> final(self).stepped_at == old(self).stepped_at
                && final(self).owed == old(self).owed,
    {
        if self.status == Status::Ready {
            self.start();
        }
        if self.status != Status::Running {
            return;
        }
        if dir == self.dir.opposite() {
            return;
        }
        self.pending = Some(dir);
    }

    /// One move of the snake. Says whether the game ended with it.
    pub fn step(&mut self) -> (ended: bool)
        requires
            old(self)@.wf(),
        ensures
            final(self)@ == old(self)@.step(),
            final(self)@.wf(),
            ended == (old(self)@.status == Status::Running && final(self)@.status
                != Status::Running),
            final(self).stepped_at == old(self).stepped_at,
            final(self).owed == old(self).owed,
    {
        if self.status != Status::Running {
            return false;
        }
        if let Some(dir) = self.pending.take() {
            self.dir = dir;
        }
        let front = self.body[0];
        let head = match self.dir.next(front) {
            Some(head) => head,
            None => {
                // The walls are walls. Wrapping around them would be a gentler
                // game and a different one.
                self.finish(Status::Over);
                return true;
            },
        };
        // The tail comes off before the collision is looked for, so following
        // your own tail is allowed. Not when the head landed on food: that is
        // the step the snake grows in, and the tail stays where it is.
        let eaten = match self.food {
            Some(food) => food.0 == head.0 && food.1 == head.1,
            None => false,
        };
        if !eaten {
            let _ = self.body.pop_back();
            assert(self.body@ =~= old(self)@.body.drop_last());
        }
        let ghost rest = self.body@;
        if is_on(&self.body, head) {
            self.finish(Status::Over);
            return true;
        }
        self.body.push_front(head);
        assert(self.body@ =~= seq![head] + rest);
        assert(self@.wf()) by {
            let body = self.body@;
            assert forall|i: int, j: int|
                0 <= i < body.len() && 0 <= j < body.len() && i != j implies body[i] != body[j] by {
                if i == 0 {
                    assert(body[j] == rest[j - 1]);
                } else if j == 0 {
                    assert(body[i] == rest[i - 1]);
                } else {
                    assert(body[i] == rest[i - 1] && body[j] == rest[j - 1]);
                }
            }
        }
        if eaten {
            return self.eat();
        }
        false
    }

    /// The score of what was eaten, and new food.
    fn eat(&mut self) -> (ended: bool)
        requires
            old(self)@.wf(),
            old(self)@.status == Status::Running,
        ensures
            final(self)@ == old(self)@.eat(),
            final(self)@.wf(),
            ended == (final(self)@.status != Status::Running),
            final(self).stepped_at == old(self).stepped_at,
            final(self).owed == old(self).owed,
    {
        self.score = self.score.saturating_add(1);
        if self.score > self.high {
            self.high = self.score;
        }
        let food = self.place_food();
        self.food = food;
        // Nowhere left to put it: every cell of the board is snake, which is
        // the game being finished rather than lost.
        if self.food.is_none() {
            self.finish(Status::Won);
            return true;
        }
        false
    }

    /// Ends the game, keeping the best score.
    pub fn finish(&mut self, status: Status)
        ensures
            final(self)@ == old(self)@.finish(status),
            final(self).stepped_at == old(self).stepped_at,
            final(self).owed == old(self).owed,
    {
        self.status = status;
        if self.score > self.high {
            self.high = self.score;
        }
    }

    /// A free cell, picked evenly among the free ones, or `None` when there are
    /// none.
    ///
    /// Counted and then walked rather than guessed at until one lands somewhere
    /// free: with the board nearly full, guessing takes unboundedly long.
    pub fn place_food(&mut self) -> (food: Option<Cell>)
        requires
            old(self)@.wf(),
        ensures
            food == old(self)@.feed().food,
            final(self)@ == (SnakeState { rng: old(self)@.feed().rng, ..old(self)@ }),
            final(self).stepped_at == old(self).stepped_at,
            final(self).owed == old(self).owed,
    {
        proof {
            a_snake_fits_the_board(self@.body);
        }
        let free = CELLS - self.body.len();
        if free == 0 {
            return None;
        }
        let wanted = self.rng.below(free);
        free_cell(&self.body, wanted)
    }

    /// [`Snake::advance`] with the time that has passed given, in nanoseconds.
    /// What is left of it comes back, and whether the game ended.
    pub fn advance_by(&mut self, passed: u128) -> (left: (u128, bool))
        requires
            old(self)@.wf(),
        ensures
            final(self)@ == old(self)@.advance(passed as int),
            final(self)@.wf(),
            left.0 == old(self)@.still_owed(passed as int),
            left.0 <= passed,
            left.0 <= MAX_CATCH_UP,
            left.1 == (old(self)@.status == Status::Running && final(self)@.status
                != Status::Running),
            final(self).stepped_at == old(self).stepped_at,
            final(self).owed == old(self).owed,
    {
        if self.status != Status::Running || passed > MAX_CATCH_UP {
            return (0, false);
        }
        let mut left: u128 = passed;
        while self.status == Status::Running && left >= self.interval() as u128 * 1_000_000
            invariant
                self@.wf(),
                left <= passed,
                self.stepped_at == old(self).stepped_at,
                self.owed == old(self).owed,
                self@.catch_up(left as int) == old(self)@.catch_up(passed as int),
                self@.left_over(left as int) == old(self)@.left_over(passed as int),
            decreases left,
        {
            let due = self.interval() as u128 * 1_000_000;
            left = left - due;
            let _ = self.step();
        }
        let ended = self.status != Status::Running;
        (left, ended)
    }

    /// Takes whatever steps `now` has fallen due, and none at all when the game
    /// is not running. Says whether the game ended.
    pub fn advance(&mut self, now: Instant) -> (ended: bool)
        requires
            old(self)@.wf(),
        ensures
            final(self)@.wf(),
            ended == (old(self)@.status == Status::Running && final(self)@.status
                != Status::Running),
            ({
                let passed = to_catch_up(
                    nanos_apart(now, old(self).stepped_at),
                    old(self).owed,
                );
                let left = old(self)@.still_owed(passed);
                &&& final(self)@ == old(self)@.advance(passed)
                &&& if old(self)@.status != Status::Running || left < passed {
                    final(self).stepped_at == now && final(self).owed == left
                } else {
                    final(self).stepped_at == old(self).stepped_at && final(self).owed
                        == old(self).owed
                }
            }),
            now == old(self).stepped_at ==> nanos_apart(now, old(self).stepped_at) == 0,
    {
        let nanos = nanos_between(&now, &self.stepped_at);
        let passed = if nanos > MAX_CATCH_UP {
            nanos
        } else {
            nanos + self.owed as u128
        };
        let was_running = self.status == Status::Running;
        let (left, ended) = self.advance_by(passed);
        // The clock stands where it stood unless a step was taken or time was
        // let go by.
        if !was_running || left < passed {
            self.stepped_at = now;
            self.owed = left as u64;
        }
        ended
    }
}

// ---- counting -----------------------------------------------------------

/// How many of the first `n` cells are taken.
spec fn taken(body: Seq<Cell>, n: int) -> int
    decreases n,
{
    if n <= 0 {
        0
    } else {
        taken(body, n - 1) + if body.contains(cell_at(n - 1)) {
            1int
        } else {
            0
        }
    }
}

spec fn place(cell: Cell) -> int {
    cell.0 * SIDE + cell.1
}

proof fn place_of_cell(cell: Cell, i: int)
    requires
        on_board(cell),
        0 <= i < CELLS,
    ensures
        0 <= place(cell) < CELLS,
        cell_at(i) == cell <==> i == place(cell),
{
    let (row, col) = cell;
    assert(place(cell) / 20 == row && place(cell) % 20 == col) by (nonlinear_arith)
        requires
            place(cell) == row * 20 + col,
            0 <= col < 20,
            0 <= row < 20,
    ;
}

proof fn one_more_taken(body: Seq<Cell>, cell: Cell, n: int)
    requires
        !body.contains(cell),
        on_board(cell),
        0 <= n <= CELLS,
    ensures
        taken(body.push(cell), n) == taken(body, n) + if place(cell) < n {
            1int
        } else {
            0
        },
    decreases n,
{
    if n > 0 {
        one_more_taken(body, cell, n - 1);
        place_of_cell(cell, n - 1);
        let c = cell_at(n - 1);
        let more = body.push(cell);
        if body.contains(c) {
            let i = choose|i: int| 0 <= i < body.len() && body[i] == c;
            assert(more[i] == c);
        }
        if c == cell {
            assert(more[body.len() as int] == c);
        }
        if more.contains(c) && c != cell {
            let i = choose|i: int| 0 <= i < more.len() && more[i] == c;
            assert(body[i] == c);
        }
    }
}

proof fn all_are_taken(body: Seq<Cell>)
    requires
        body.no_duplicates(),
        forall|i: int| 0 <= i < body.len() ==> on_board(#[trigger] body[i]),
    ensures
        taken(body, CELLS as int) == body.len(),
    decreases body.len(),
{
    if body.len() == 0 {
        none_taken(CELLS as int);
        assert(body =~= Seq::empty());
    } else {
        let rest = body.drop_last();
        let cell = body.last();
        assert(on_board(body[body.len() - 1]));
        assert forall|i: int| 0 <= i < rest.len() implies on_board(#[trigger] rest[i]) by {
            assert(on_board(body[i]));
        }
        assert(!rest.contains(cell)) by {
            if rest.contains(cell) {
                let i = choose|i: int| 0 <= i < rest.len() && rest[i] == cell;
                assert(body[i] == body[body.len() - 1]);
            }
        }
        all_are_taken(rest);
        one_more_taken(rest, cell, CELLS as int);
        place_of_cell(cell, 0);
        assert(rest.push(cell) =~= body);
    }
}

proof fn none_taken(n: int)
    ensures
        taken(Seq::<Cell>::empty(), n) == 0,
    decreases n,
{
    if n > 0 {
        none_taken(n - 1);
    }
}

proof fn at_most_all(body: Seq<Cell>, n: int)
    requires
        0 <= n,
    ensures
        taken(body, n) <= n,
    decreases n,
{
    if n > 0 {
        at_most_all(body, n - 1);
    }
}

/// A snake that is nowhere twice is no longer than the board has cells.
pub proof fn a_snake_fits_the_board(body: Seq<Cell>)
    requires
        body.no_duplicates(),
        forall|i: int| 0 <= i < body.len() ==> on_board(#[trigger] body[i]),
    ensures
        body.len() <= CELLS,
{
    all_are_taken(body);
    at_most_all(body, CELLS as int);
}

proof fn a_free_cell_is_found(body: Seq<Cell>, i: int, n: int)
    requires
        0 <= i <= CELLS,
        0 <= n,
    ensures
        match nth_free(body, i, n) {
            Some(cell) => on_board(cell) && !body.contains(cell),
            None => CELLS - i - (taken(body, CELLS as int) - taken(body, i)) <= n,
        },
    decreases CELLS - i,
{
    if i < CELLS {
        if body.contains(cell_at(i)) || n > 0 {
            a_free_cell_is_found(
                body,
                i + 1,
                if body.contains(cell_at(i)) {
                    n
                } else {
                    n - 1
                },
            );
        }
        assert(taken(body, i + 1) == taken(body, i) + if body.contains(cell_at(i)) {
            1int
        } else {
            0
        });
    }
}

// ---- laws ---------------------------------------------------------------

/// Food is always found a cell of the board that the snake is not on, until the
/// snake is on all of them.
pub proof fn food_never_lands_on_the_snake(game: SnakeState)
    requires
        game.wf(),
    ensures
        game.feed().food is None <==> game.body.len() == CELLS,
        game.feed().food matches Some(cell) ==> on_board(cell) && !game.body.contains(cell),
{
    all_are_taken(game.body);
    a_snake_fits_the_board(game.body);
    if game.body.len() < CELLS {
        let free = CELLS - game.body.len();
        let n = shuffled(game.rng) as int % free;
        assert(0 <= n < free) by (nonlinear_arith)
            requires
                n == shuffled(game.rng) as int % free,
                free > 0,
        ;
        a_free_cell_is_found(game.body, 0, n);
    }
}

/// However many turns are asked for inside one step, the snake never reverses.
pub proof fn a_step_never_reverses(game: SnakeState, first: Dir, second: Dir)
    requires
        game.wf(),
        game.status == Status::Running,
        game.pending is None,
    ensures
        game.turn(first).turn(second).step().dir != game.dir.reverse(),
{
}

/// The snake gets longer only by eating, and by one cell at a time.
pub proof fn a_step_moves_or_grows_by_one(game: SnakeState)
    requires
        game.wf(),
        game.status == Status::Running,
        game.step().status == Status::Running,
    ensures
        game.step().body.len() == game.body.len() || (game.step().body.len() == game.body.len() + 1
            && game.food == Some(game.step().body[0])),
        game.food != Some(game.step().body[0]) ==> game.step().score == game.score,
{
}

/// A board that is full is won, not lost.
pub proof fn filling_the_board_wins(game: SnakeState)
    requires
        game.wf(),
        game.body.len() == CELLS,
    ensures
        game.eat().status == Status::Won,
{
}

/// A step takes no less than the fastest and no more than the first, and never
/// longer for a higher score.
pub proof fn the_step_shortens_with_the_score(game: SnakeState, more: u32)
    requires
        game.score <= more,
    ensures
        FASTEST_STEP_MS <= game.step_ms() <= START_STEP_MS,
        (SnakeState { score: more, ..game }).step_ms() <= game.step_ms(),
{
}

/// Time spent elsewhere is dropped rather than caught up on.
pub proof fn missed_time_is_dropped(game: SnakeState, passed: int)
    requires
        passed > MAX_CATCH_UP,
    ensures
        game.advance(passed) == game,
{
}

/// However the time is told, a game that is too far behind the clock takes no
/// step, and owes none from then on.
pub proof fn missed_time_is_not_owed(game: SnakeState, apart: u128, owed: u64)
    requires
        apart > MAX_CATCH_UP,
    ensures
        game.advance(to_catch_up(apart, owed)) == game,
        game.still_owed(to_catch_up(apart, owed)) == 0,
        game.advance(to_catch_up(0, 0)) == game,
{
}

proof fn a_step_keeps_the_snake_together(game: SnakeState)
    requires
        game.wf(),
    ensures
        game.step().wf(),
{
    if game.status == Status::Running {
        let dir = match game.pending {
            Some(dir) => dir,
            None => game.dir,
        };
        let eaten = game.food == dir.ahead(game.body[0]);
        let rest = if eaten {
            game.body
        } else {
            game.body.drop_last()
        };
        assert(on_board(game.body[0]));
        if let Some(head) = dir.ahead(game.body[0]) {
            let body = seq![head] + rest;
            assert forall|i: int| 0 <= i < body.len() implies on_board(#[trigger] body[i]) by {
                if i > 0 {
                    assert(body[i] == game.body[i - 1]);
                }
            }
            if !rest.contains(head) {
                assert forall|i: int, j: int|
                    0 <= i < body.len() && 0 <= j < body.len() && i != j implies body[i]
                    != body[j] by {
                    if i == 0 {
                        assert(body[j] == rest[j - 1]);
                    } else if j == 0 {
                        assert(body[i] == rest[i - 1]);
                    } else {
                        assert(body[i] == game.body[i - 1] && body[j] == game.body[j - 1]);
                    }
                }
            } else if !eaten {
                assert(rest.len() >= 1);
            }
        }
    }
}

/// Every step of a sound game leaves it sound.
pub proof fn a_step_keeps_the_game_sound(game: SnakeState)
    requires
        game.sound(),
    ensures
        game.step().sound(),
{
    a_step_keeps_the_snake_together(game);
    a_snake_fits_the_board(game.body);
    if game.status == Status::Running {
        let dir = match game.pending {
            Some(dir) => dir,
            None => game.dir,
        };
        let s = SnakeState { dir, pending: None, ..game };
        if let Some(head) = dir.ahead(game.body[0]) {
            let eaten = game.food == Some(head);
            let rest = if eaten {
                game.body
            } else {
                game.body.drop_last()
            };
            if let Some(food) = game.food {
                if rest.contains(food) {
                    let i = choose|i: int| 0 <= i < rest.len() && rest[i] == food;
                    assert(game.body[i] == food);
                }
                if !eaten {
                    let body = seq![head] + rest;
                    if body.contains(food) {
                        let i = choose|i: int| 0 <= i < body.len() && body[i] == food;
                        assert(i > 0 && rest[i - 1] == food);
                    }
                }
            }
            if !rest.contains(head) && eaten {
                let moved = SnakeState { body: seq![head] + rest, ..s };
                let score = (game.score + 1) as u32;
                let before = SnakeState {
                    score,
                    high: if score > game.high {
                        score
                    } else {
                        game.high
                    },
                    ..moved
                };
                assert(before.wf()) by {
                    assert(game.step().body == moved.body);
                }
                food_never_lands_on_the_snake(before);
            }
        }
    }
}

/// A new game is sound whatever the best score before it, and so is one that
/// has been started or turned.
pub proof fn every_game_is_sound(game: SnakeState, dir: Dir)
    ensures
        game.restart().sound(),
        game.sound() ==> game.start().sound(),
        game.sound() ==> game.turn(dir).sound(),
{
    let body = seq![(10usize, 10usize), (10usize, 9usize), (10usize, 8usize)];
    let laid = SnakeState {
        body,
        dir: Dir::Right,
        pending: None,
        score: 0,
        status: Status::Ready,
        record: game.high,
        ..game
    };
    assert(laid.wf());
    food_never_lands_on_the_snake(laid);
}

/// However much time passes, a sound game stays sound.
pub proof fn time_keeps_the_game_sound(game: SnakeState, passed: int)
    requires
        game.sound(),
    ensures
        game.advance(passed).sound(),
{
    steps_keep_the_game_sound(game, passed);
}

proof fn steps_keep_the_game_sound(game: SnakeState, passed: int)
    requires
        game.sound(),
    ensures
        game.catch_up(passed).sound(),
    decreases passed,
{
    let due = game.step_ms() * 1_000_000;
    if game.status == Status::Running && passed >= due && due > 0 {
        a_step_keeps_the_game_sound(game);
        steps_keep_the_game_sound(game.step(), passed - due);
    }
}

/// The best score never goes down, and is at least that of the game once it is
/// over.
pub proof fn the_best_score_is_kept(game: SnakeState)
    requires
        game.wf(),
    ensures
        game.step().high >= game.high,
        game.restart().high == game.high,
        game.status == Status::Running && game.step().status != Status::Running
            ==> game.step().high >= game.step().score,
{
}

/// The generator never gets stuck at zero.
pub proof fn the_generator_never_stops(x: u64)
    requires
        x != 0,
    ensures
        shuffled(x) != 0,
{
    let a = x ^ (x << 13u64);
    let b = a ^ (a >> 7u64);
    assert(x != 0 ==> x ^ (x << 13u64) != 0) by (bit_vector);
    assert(a != 0 ==> a ^ (a >> 7u64) != 0) by (bit_vector);
    assert(b != 0 ==> b ^ (b << 17u64) != 0) by (bit_vector);
}

} // verus!
