//! Unattended login.
//!
//! Driven by the *rendered screen* rather than the raw byte stream: IRIS emits
//! prompts in whatever chunks the network gives it, and matching on decoded
//! text means a prompt split across two reads is still recognised.
//!
//! Every step is bounded. A changed prompt must hand control back to the user
//! rather than leaving the tab wedged, so each state gives up after a timeout
//! and says so.

use std::time::Instant;
use vstd::prelude::*;

use crate::clock::{nanos_apart, nanos_between};
use crate::config::Profile;
use crate::objectscript::{type_lines, typed};
use crate::term::grid::Grid;
use crate::term::state::{GridState, RowState};
use crate::text::{
    ascii_alnum, chars_of, contains, copied_strings, end_of_trimmed, is_alnum, join_from, joined,
    last_line, occurs, opt_text, split_chars, text_of, texts, trim, trim_end, trimmed,
    unicode_lower, views,
};

verus! {

/// How long a step may take, in nanoseconds.
pub const STEP_TIMEOUT: u128 = 10_000_000_000;

#[derive(Clone, Copy, Debug, PartialEq, Eq, Structural)]
pub enum State {
    /// Not configured, or already finished.
    Inactive,
    WaitUsername,
    WaitPassword,
    WaitPrompt,
    Done,
    /// Gave up; the user drives from here.
    TimedOut,
}

pub struct Autologon {
    pub state: State,
    pub username: String,
    pub password: Option<String>,
    pub post_login: Vec<String>,
    pub since: Instant,
    /// Grid revision at the last check, so the screen is only read again on new
    /// output.
    pub last_revision: u64,
}

/// An [`Autologon`] as a mathematical value.
#[verifier::ext_equal]
pub struct LogonState {
    pub state: State,
    pub username: Seq<char>,
    pub password: Option<Seq<char>>,
    pub post_login: Seq<Seq<char>>,
    pub since: Instant,
    pub last_revision: u64,
}

impl View for Autologon {
    type V = LogonState;

    open spec fn view(&self) -> LogonState {
        LogonState {
            state: self.state,
            username: self.username@,
            password: opt_text(self.password),
            post_login: texts(self.post_login@),
            since: self.since,
            last_revision: self.last_revision,
        }
    }
}

// ---- the screen ---------------------------------------------------------

/// The texts among `rows` that are not blank.
pub open spec fn written_lines(rows: Seq<RowState>) -> Seq<Seq<char>>
    decreases rows.len(),
{
    if rows.len() == 0 {
        Seq::empty()
    } else if trim(rows.last().text()).len() == 0 {
        written_lines(rows.drop_last())
    } else {
        written_lines(rows.drop_last()).push(rows.last().text())
    }
}

/// The last `n` lines that are not blank, in lower case.
pub open spec fn tail(rows: Seq<RowState>, n: int) -> Seq<char> {
    let lines = written_lines(rows);
    unicode_lower(
        joined(
            if lines.len() > n {
                lines.skip(lines.len() - n)
            } else {
                lines
            },
        ),
    )
}

/// The last `n` non-empty rendered lines, lowercased for matching.
fn tail_text(grid: &Grid, n: usize) -> (text: String)
    ensures
        text@ == tail(grid@.screen, n as int),
{
    let ghost rows = grid@.screen;
    let mut lines: Vec<Vec<char>> = Vec::new();
    let mut i: usize = 0;
    assert(rows.take(0) =~= Seq::empty());
    assert(views(lines@) =~= Seq::empty());
    while i < grid.screen.len()
        invariant
            i <= grid.screen@.len(),
            rows == grid@.screen,
            views(lines@) == written_lines(rows.take(i as int)),
        decreases grid.screen.len() - i,
    {
        let text = grid.screen[i].to_text();
        assert(rows.take(i + 1).drop_last() =~= rows.take(i as int));
        assert(text@ == rows[i as int].text());
        if !trimmed(text.as_str()).as_str().is_empty() {
            let ghost before = views(lines@);
            lines.push(chars_of(text.as_str()));
            assert(views(lines@) =~= before.push(text@));
        }
        i += 1;
    }
    assert(rows.take(i as int) =~= rows);
    let start = if lines.len() > n {
        lines.len() - n
    } else {
        0
    };
    let chars = join_from(&lines, start);
    proof {
        if lines@.len() <= n {
            assert(views(lines@).skip(0) =~= views(lines@));
        }
    }
    text_of(chars.as_slice()).as_str().to_lowercase()
}

pub open spec fn asks_username(text: Seq<char>) -> bool {
    occurs(text, "username:"@) || occurs(text, "user:"@) || occurs(text, "usuário:"@) || occurs(
        text,
        "usuario:"@,
    )
}

fn has(text: &str, pat: &str) -> (yes: bool)
    ensures
        yes == occurs(text@, pat@),
{
    contains(chars_of(text).as_slice(), chars_of(pat).as_slice())
}

pub fn looks_like_username_prompt(text: &str) -> (yes: bool)
    ensures
        yes == asks_username(text@),
{
    has(text, "username:") || has(text, "user:") || has(text, "usuário:") || has(text, "usuario:")
}

pub open spec fn asks_password(text: Seq<char>) -> bool {
    occurs(text, "password:"@) || occurs(text, "senha:"@)
}

pub fn looks_like_password_prompt(text: &str) -> (yes: bool)
    ensures
        yes == asks_password(text@),
{
    has(text, "password:") || has(text, "senha:")
}

/// A character of a namespace name.
pub open spec fn names_namespace(c: char) -> bool {
    ascii_alnum(c) || c == '%' || c == '_' || c == '-' || c == '^'
}

/// Whether a line is a namespace name of up to 32 characters and a `>`.
pub open spec fn is_prompt_line(line: Seq<char>) -> bool {
    &&& 2 <= line.len() <= 33
    &&& line.last() == '>'
    &&& forall|i: int| 0 <= i < line.len() - 1 ==> names_namespace(#[trigger] line[i])
}

/// Whether the last line is an IRIS prompt and nothing else.
pub open spec fn shows_prompt(text: Seq<char>) -> bool {
    match last_line(text) {
        Some(line) => is_prompt_line(trim_end(line)),
        None => false,
    }
}

/// Whether what the characters hold of `..end`, trailing blanks aside, is a
/// prompt.
fn is_prompt(chars: &[char], end: usize) -> (yes: bool)
    requires
        end <= chars@.len(),
    ensures
        yes == is_prompt_line(trim_end(chars@.take(end as int))),
{
    let stop = end_of_trimmed(chars, 0, end);
    let ghost line = trim_end(chars@.take(end as int));
    assert(chars@.take(end as int) =~= chars@.subrange(0, end as int));
    if stop < 2 || stop > 33 || chars[stop - 1] != '>' {
        return false;
    }
    let mut i: usize = 0;
    while i < stop - 1
        invariant
            2 <= stop <= chars@.len(),
            i <= stop - 1,
            line == chars@.subrange(0, stop as int),
            line == trim_end(chars@.take(end as int)),
            forall|k: int| 0 <= k < i ==> names_namespace(#[trigger] line[k]),
        decreases stop - i,
    {
        let c = chars[i];
        assert(line[i as int] == c);
        if !(is_alnum(c) || c == '%' || c == '_' || c == '-' || c == '^') {
            return false;
        }
        i += 1;
    }
    true
}

/// An IRIS prompt is a namespace name followed by `>`, e.g. `USER>`, `%SYS>`, or
/// `RDB1>`. Matching the last line avoids mistaking prose for it.
pub fn looks_like_iris_prompt(text: &str) -> (yes: bool)
    ensures
        yes == shows_prompt(text@),
{
    let chars = chars_of(text);
    let pieces = split_chars(chars.as_slice(), '\n');
    let n = pieces.len();
    let ghost want = views(pieces@);
    assert(want.last() == pieces@[n - 1]@);
    let last = &pieces[n - 1];
    if last.len() > 0 {
        assert(last@.take(last@.len() as int) =~= last@);
        return is_prompt(last.as_slice(), last.len());
    }
    if n < 2 {
        return false;
    }
    let line = &pieces[n - 2];
    assert(want[n - 2] == line@);
    let mut end = line.len();
    if end > 0 && line[end - 1] == '\r' {
        end -= 1;
        assert(line@.take(end as int) =~= line@.drop_last());
    } else {
        assert(line@.take(end as int) =~= line@);
    }
    is_prompt(line.as_slice(), end)
}

// ---- logging in ---------------------------------------------------------

impl LogonState {
    /// A login that has not seen anything yet, begun at a moment.
    pub open spec fn fresh(profile: Profile, password: Option<Seq<char>>, now: Instant) -> LogonState {
        LogonState {
            state: if profile.can_log_on() {
                State::WaitUsername
            } else {
                State::Inactive
            },
            username: profile.username@,
            password: if profile.can_log_on() {
                password
            } else {
                None
            },
            post_login: texts(profile.post_login@),
            since: now,
            last_revision: 0,
        }
    }

    pub open spec fn running(self) -> bool {
        self.state == State::WaitUsername || self.state == State::WaitPassword || self.state
            == State::WaitPrompt
    }

    /// What becomes of the login, and what is sent, when the screen is looked at
    /// now, `waited` nanoseconds after the last step. Once a prompt is answered
    /// and the next is waited for, the time for a step begins anew.
    pub open spec fn observe(self, grid: GridState, waited: int, now: Instant) -> (
        LogonState,
        Option<Seq<char>>,
    ) {
        let seen = LogonState { last_revision: grid.revision, ..self };
        if !self.running() {
            (self, None)
        } else if waited > STEP_TIMEOUT {
            (LogonState { state: State::TimedOut, ..seen }, None)
        } else if grid.revision == self.last_revision {
            (self, None)
        } else {
            let text = tail(grid.screen, 3);
            if self.state == State::WaitUsername && asks_username(text) {
                (
                    LogonState { state: State::WaitPassword, since: now, ..seen },
                    Some(self.username.push('\r')),
                )
            } else if self.state == State::WaitPassword && asks_password(text) {
                match self.password {
                    Some(password) => (
                        LogonState {
                            state: State::WaitPrompt,
                            password: None,
                            since: now,
                            ..seen
                        },
                        Some(password.push('\r')),
                    ),
                    None => (LogonState { state: State::TimedOut, ..seen }, None),
                }
            } else if self.state == State::WaitPrompt && shows_prompt(text) {
                (
                    LogonState { state: State::Done, ..seen },
                    if self.post_login.len() == 0 {
                        None
                    } else {
                        Some(typed(self.post_login))
                    },
                )
            } else {
                (seen, None)
            }
        }
    }
}

fn with_enter(text: &str) -> (out: String)
    ensures
        out@ == text@.push('\r'),
{
    let mut out = String::new();
    out.append(text);
    out.push('\r');
    assert(out@ =~= text@.push('\r'));
    out
}

impl Autologon {
    /// A login for a profile. The password, if one is stored, is handed over
    /// once: asking the keychain for it every frame would be slow.
    pub fn new(profile: &Profile, password: Option<String>) -> (auto: Self)
        ensures
            exists|now: Instant|
                auto@ == #[trigger] LogonState::fresh(*profile, opt_text(password), now),
    {
        Autologon::new_at(profile, password, Instant::now())
    }

    /// [`Autologon::new`] at a given moment.
    pub fn new_at(profile: &Profile, password: Option<String>, now: Instant) -> (auto: Self)
        ensures
            auto@ == LogonState::fresh(*profile, opt_text(password), now),
    {
        let active = profile.autologon_ready();
        Autologon {
            state: if active {
                State::WaitUsername
            } else {
                State::Inactive
            },
            username: profile.username.clone(),
            password: if active {
                password
            } else {
                None
            },
            post_login: copied_strings(&profile.post_login),
            since: now,
            last_revision: 0,
        }
    }

    pub fn state(&self) -> (state: State)
        ensures
            state == self@.state,
    {
        self.state
    }

    pub fn is_running(&self) -> (yes: bool)
        ensures
            yes == self@.running(),
    {
        matches!(self.state, State::WaitUsername | State::WaitPassword | State::WaitPrompt)
    }

    /// Text for the status line, or `None` when there is nothing to say.
    pub fn status_note(&self) -> (note: Option<String>)
        ensures
            opt_text(note) == match self@.state {
                State::WaitUsername => Some("Autologon: waiting for the username prompt…"@),
                State::WaitPassword => Some("Autologon: waiting for the password prompt…"@),
                State::WaitPrompt => Some("Autologon: waiting for the IRIS prompt…"@),
                State::TimedOut => Some(
                    "Autologon timed out — the prompt was not recognised. Continue manually."@,
                ),
                _ => None,
            },
    {
        match self.state {
            State::WaitUsername => Some("Autologon: waiting for the username prompt…".to_owned()),
            State::WaitPassword => Some("Autologon: waiting for the password prompt…".to_owned()),
            State::WaitPrompt => Some("Autologon: waiting for the IRIS prompt…".to_owned()),
            State::TimedOut => Some(
                "Autologon timed out — the prompt was not recognised. Continue manually.".to_owned(),
            ),
            _ => None,
        }
    }

    /// [`Autologon::observe`] with the moment given, and the time since the last
    /// step.
    pub fn observe_after(&mut self, grid: &Grid, waited: u128, now: Instant) -> (to_send: Option<
        String,
    >)
        ensures
            (final(self)@, opt_text(to_send)) == old(self)@.observe(grid@, waited as int, now),
    {
        if !self.is_running() {
            return None;
        }
        // A session that says nothing more has to give up too, so the clock is
        // asked before the screen.
        if waited > STEP_TIMEOUT {
            self.last_revision = grid.revision;
            self.state = State::TimedOut;
            return None;
        }
        if grid.revision == self.last_revision {
            return None;
        }
        self.last_revision = grid.revision;
        // Only the tail matters: an older prompt still sitting further up must
        // not re-trigger a step that already ran.
        let text = tail_text(grid, 3);
        let text = text.as_str();
        match self.state {
            State::WaitUsername => if looks_like_username_prompt(text) {
                self.advance(State::WaitPassword, now);
                Some(with_enter(self.username.as_str()))
            } else {
                None
            },
            State::WaitPassword => if looks_like_password_prompt(text) {
                match self.password.take() {
                    Some(password) => {
                        self.advance(State::WaitPrompt, now);
                        Some(with_enter(password.as_str()))
                    },
                    None => {
                        // No stored secret: stop and let the user type it.
                        self.state = State::TimedOut;
                        None
                    },
                }
            } else {
                None
            },
            State::WaitPrompt => if looks_like_iris_prompt(text) {
                self.state = State::Done;
                if self.post_login.len() == 0 {
                    None
                } else {
                    Some(type_lines(&self.post_login))
                }
            } else {
                None
            },
            _ => None,
        }
    }

    /// Inspects the screen and returns whatever should be sent next.
    ///
    /// Returns `None` when there is nothing to do, which is the common case.
    /// The clock decides whether the step has taken too long.
    pub fn observe(&mut self, grid: &Grid) -> (to_send: Option<String>)
        ensures
            exists|now: Instant|
                (final(self)@, opt_text(to_send)) == old(self)@.observe(
                    grid@,
                    #[trigger] nanos_apart(now, old(self)@.since) as int,
                    now,
                ),
    {
        let now = Instant::now();
        let waited = nanos_between(&now, &self.since);
        self.observe_after(grid, waited, now)
    }

    fn advance(&mut self, next: State, now: Instant)
        ensures
            final(self)@ == (LogonState { state: next, since: now, ..old(self)@ }),
    {
        self.state = next;
        self.since = now;
    }
}

// ---- laws ---------------------------------------------------------------

/// The same screen is never answered twice: after a look, nothing is sent until
/// the screen changes, and nothing else changes until then but that the time for
/// the step runs out.
pub proof fn a_repeated_screen_is_not_answered(
    auto: LogonState,
    grid: GridState,
    waited: int,
    now: Instant,
    later: int,
    then: Instant,
)
    requires
        auto.running(),
    ensures
        ({
            let after = auto.observe(grid, waited, now).0;
            &&& after.observe(grid, later, then).1 is None
            &&& later <= STEP_TIMEOUT ==> after.observe(grid, later, then).0 == after
        }),
{
}

/// A login that has finished, given up or never started sends nothing.
pub proof fn a_login_that_is_over_stays_over(
    auto: LogonState,
    grid: GridState,
    waited: int,
    now: Instant,
)
    requires
        !auto.running(),
    ensures
        auto.observe(grid, waited, now) == (auto, None::<Seq<char>>),
{
}

/// A step that has taken too long hands control back to the user, whatever is on
/// the screen and whether or not anything came in.
pub proof fn a_late_step_gives_up(auto: LogonState, grid: GridState, waited: int, now: Instant)
    requires
        auto.running(),
        waited > STEP_TIMEOUT,
    ensures
        auto.observe(grid, waited, now).0.state == State::TimedOut,
        auto.observe(grid, waited, now).1 is None,
{
}

/// The password is sent at most once: it is gone the moment it goes out, and
/// nothing else is ever sent in its place.
pub proof fn the_password_is_sent_once(
    auto: LogonState,
    grid: GridState,
    waited: int,
    now: Instant,
)
    requires
        auto.state == State::WaitPassword,
    ensures
        ({
            let (after, sent) = auto.observe(grid, waited, now);
            sent is Some ==> after.password is None && auto.password is Some && sent == Some(
                auto.password->0.push('\r'),
            )
        }),
{
}

/// A prompt that is answered in time starts the time for the next one.
pub proof fn every_step_has_its_own_time(
    auto: LogonState,
    grid: GridState,
    waited: int,
    now: Instant,
)
    ensures
        ({
            let after = auto.observe(grid, waited, now).0;
            &&& after.running() && after.state != auto.state ==> after.since == now
            &&& !after.running() || after.state == auto.state ==> after.since == auto.since
        }),
{
}

} // verus!
