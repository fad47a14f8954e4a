//! Where the line being typed starts and ends, when IRIS is sitting at a
//! prompt.
//!
//! IRIS does the line editing, not the terminal: what is on screen is the only
//! record of what has been typed so far. So the gestures a terminal is expected
//! to provide are built by reading the row the cursor is on.
//!
//! The prompt is what makes that safe. A row with no IRIS prompt on it is not
//! a command line, and every function here returns `None` for one.

use vstd::prelude::*;

use super::cell::Cell;
use super::grid::Grid;
use super::state::{used, GridState};
use super::syntax::{chars_in, prompt, prompt_end_of, prompt_from};
use crate::text::{
    end_of_trimmed, is_white, text_between, trim_end, unicode_alphanumeric, white_space,
};

verus! {

/// The command line under the cursor, in columns of the grid.
#[derive(Clone, Copy, Debug, PartialEq, Eq, Structural)]
pub struct LineEdit {
    /// First column of typed text: just past the prompt.
    pub start: usize,
    /// Column the cursor is at.
    pub cursor: usize,
    /// Column just past the last character typed.
    pub end: usize,
}

impl LineEdit {
    /// Whether the cursor is past everything typed, which is where a rubout
    /// erases the last character rather than one in the middle.
    pub fn at_end(self) -> (yes: bool)
        ensures
            yes == (self.cursor >= self.end),
    {
        self.cursor >= self.end
    }

    /// Characters typed since the prompt.
    pub fn len(self) -> (n: usize)
        ensures
            n == if self.end >= self.start {
                self.end - self.start
            } else {
                0
            },
    {
        self.end.saturating_sub(self.start)
    }

    pub fn is_empty(self) -> (yes: bool)
        ensures
            yes == (self.end <= self.start),
    {
        self.len() == 0
    }
}

/// A movement over the command line, in the terms a text field uses.
#[derive(Clone, Copy, Debug, PartialEq, Eq, Structural)]
pub enum Motion {
    Left,
    Right,
    /// Ctrl+Left: to the start of the word before this position.
    WordLeft,
    /// Ctrl+Right: to the start of the word after it.
    WordRight,
    /// Home: the first character typed.
    LineStart,
    /// End: past the last one.
    LineEnd,
}

// ---- words --------------------------------------------------------------

/// What kind of run a character belongs to.
///
/// Three classes rather than "word or not", which is what makes Ctrl+Right stop
/// between `$SYSTEM` and `.OBJ` in a line of ObjectScript instead of skipping
/// the whole expression.
#[derive(Clone, Copy, PartialEq, Eq, Structural)]
pub enum Class {
    Space,
    Word,
    Symbol,
}

pub open spec fn class_of(ch: char) -> Class {
    if white_space(ch) {
        Class::Space
    } else if unicode_alphanumeric(ch) || ch == '_' {
        Class::Word
    } else {
        Class::Symbol
    }
}

fn class(ch: char) -> (kind: Class)
    ensures
        kind == class_of(ch),
{
    if is_white(ch) {
        Class::Space
    } else if ch.is_alphanumeric() || ch == '_' {
        Class::Word
    } else {
        Class::Symbol
    }
}

/// The start of the run of `kind` that ends at `at`.
pub open spec fn run_start(s: Seq<char>, at: int, kind: Class) -> int
    decreases at,
{
    if 0 < at <= s.len() && class_of(s[at - 1]) == kind {
        run_start(s, at - 1, kind)
    } else {
        at
    }
}

/// The end of the run of `kind` that starts at `at`.
pub open spec fn run_end(s: Seq<char>, at: int, kind: Class) -> int
    decreases s.len() - at,
{
    if 0 <= at < s.len() && class_of(s[at]) == kind {
        run_end(s, at + 1, kind)
    } else {
        at
    }
}

/// Column `at`, or the end of the text if that comes first.
pub open spec fn within(s: Seq<char>, at: int) -> int {
    if at <= s.len() {
        at
    } else {
        s.len() as int
    }
}

/// The start of the run before `at`, blanks in between skipped first: a word
/// boundary never lands in the middle of a gap.
pub open spec fn word_left(s: Seq<char>, at: int) -> int {
    let i = run_start(s, within(s, at), Class::Space);
    if i == 0 {
        0
    } else {
        run_start(s, i, class_of(s[i - 1]))
    }
}

/// The start of the run after `at`: out of the run under the cursor, then over
/// the blanks that follow it.
pub open spec fn word_right(s: Seq<char>, at: int) -> int {
    let i = within(s, at);
    let past = if i < s.len() && class_of(s[i]) != Class::Space {
        run_end(s, i, class_of(s[i]))
    } else {
        i
    };
    run_end(s, past, Class::Space)
}

fn find_run_start(chars: &[char], at: usize, kind: Class) -> (start: usize)
    requires
        at <= chars@.len(),
    ensures
        start == run_start(chars@, at as int, kind),
        start <= at,
{
    let mut i: usize = at;
    while i > 0 && class(chars[i - 1]) == kind
        invariant
            i <= at <= chars@.len(),
            run_start(chars@, at as int, kind) == run_start(chars@, i as int, kind),
        decreases i,
    {
        i -= 1;
    }
    i
}

fn find_run_end(chars: &[char], at: usize, kind: Class) -> (end: usize)
    requires
        at <= chars@.len(),
    ensures
        end == run_end(chars@, at as int, kind),
        at <= end <= chars@.len(),
{
    let mut i: usize = at;
    while i < chars.len() && class(chars[i]) == kind
        invariant
            at <= i <= chars@.len(),
            run_end(chars@, at as int, kind) == run_end(chars@, i as int, kind),
        decreases chars.len() - i,
    {
        i += 1;
    }
    i
}

fn previous_word(chars: &[char], at: usize) -> (col: usize)
    ensures
        col == word_left(chars@, at as int),
        col <= chars@.len(),
{
    let at = if at > chars.len() {
        chars.len()
    } else {
        at
    };
    let i = find_run_start(chars, at, Class::Space);
    if i == 0 {
        return 0;
    }
    let kind = class(chars[i - 1]);
    find_run_start(chars, i, kind)
}

fn next_word(chars: &[char], at: usize) -> (col: usize)
    ensures
        col == word_right(chars@, at as int),
        col <= chars@.len(),
{
    let mut i = if at > chars.len() {
        chars.len()
    } else {
        at
    };
    if i < chars.len() {
        let kind = class(chars[i]);
        if kind != Class::Space {
            i = find_run_end(chars, i, kind);
        }
    }
    find_run_end(chars, i, Class::Space)
}

/// The run of like characters around `at`, as a half-open column range.
///
/// One run is one class: a word, a stretch of blanks, or a stretch of symbols.
/// This is what a double-click selects, and it shares its classes with the
/// Ctrl+arrow motions on purpose.
///
/// `None` when `at` is past the end of `chars`, which is a click on nothing.
pub fn word_bounds(chars: &[char], at: usize) -> (bounds: Option<(usize, usize)>)
    ensures
        bounds is None <==> at >= chars@.len(),
        bounds matches Some((start, end)) ==> {
            let kind = class_of(chars@[at as int]);
            &&& start == run_start(chars@, at as int, kind)
            &&& end == run_end(chars@, at as int, kind)
            &&& start <= at < end <= chars@.len()
        },
{
    if at >= chars.len() {
        return None;
    }
    let kind = class(chars[at]);
    let start = find_run_start(chars, at, kind);
    let end = find_run_end(chars, at + 1, kind);
    Some((start, end))
}

// ---- the line -----------------------------------------------------------

/// The characters of the row the cursor is on.
pub open spec fn cursor_line(s: GridState) -> Seq<char> {
    chars_in(s.screen[s.cursor.row as int].cells)
}

/// The command line the cursor is on, or `None` when it is not on one: past a
/// prompt, up to what shows or to the cursor. A trailing space is blank as far
/// as the row is concerned but is still something the user typed.
pub open spec fn line_at(s: GridState) -> Option<LineEdit> {
    if s.cursor.row >= s.screen.len() {
        None
    } else {
        let cells = s.screen[s.cursor.row as int].cells;
        match prompt(chars_in(cells)) {
            Some(start) => if s.cursor.col < start {
                None
            } else {
                Some(
                    LineEdit {
                        start,
                        cursor: s.cursor.col,
                        end: if used(cells) > s.cursor.col {
                            used(cells) as usize
                        } else {
                            s.cursor.col
                        },
                    },
                )
            },
            None => None,
        }
    }
}

/// What the row holds of columns `start..end`.
pub open spec fn held(s: GridState, start: int, end: int) -> Seq<char> {
    if s.cursor.row >= s.screen.len() {
        Seq::empty()
    } else {
        let line = cursor_line(s);
        let to = within(line, end);
        if start <= to {
            line.subrange(start, to)
        } else {
            Seq::empty()
        }
    }
}

/// Where `motion` lands, starting from column `from`.
pub open spec fn landing(s: GridState, line: LineEdit, from: int, motion: Motion) -> int {
    let at = if from < line.start {
        line.start as int
    } else if from > line.end {
        line.end as int
    } else {
        from
    };
    let text = held(s, line.start as int, line.end as int);
    match motion {
        Motion::Left => if at > line.start {
            at - 1
        } else {
            line.start as int
        },
        Motion::Right => if at < line.end {
            at + 1
        } else {
            line.end as int
        },
        Motion::LineStart => line.start as int,
        Motion::LineEnd => line.end as int,
        Motion::WordLeft => line.start + word_left(text, at - line.start),
        Motion::WordRight => line.start + word_right(text, at - line.start),
    }
}

/// Where `motion` lands, starting from column `from`.
///
/// Always inside `line.start..=line.end`: everything here moves over what has
/// been typed, and the prompt itself is not part of that.
pub fn target(grid: &Grid, line: LineEdit, from: usize, motion: Motion) -> (col: usize)
    requires
        line.start <= line.end,
    ensures
        col == landing(grid@, line, from as int, motion),
        line.start <= col <= line.end,
{
    let from = if from < line.start {
        line.start
    } else if from > line.end {
        line.end
    } else {
        from
    };
    match motion {
        Motion::Left => if from > line.start {
            from - 1
        } else {
            line.start
        },
        Motion::Right => if from < line.end {
            from + 1
        } else {
            line.end
        },
        Motion::LineStart => line.start,
        Motion::LineEnd => line.end,
        Motion::WordLeft => {
            let text = text_of(grid, line);
            line.start + previous_word(text.as_slice(), from - line.start)
        },
        Motion::WordRight => {
            let text = text_of(grid, line);
            line.start + next_word(text.as_slice(), from - line.start)
        },
    }
}

/// The characters of `from..to` of a row of cells.
fn chars_between(cells: &Vec<Cell>, from: usize, to: usize) -> (chars: Vec<char>)
    requires
        from <= to <= cells@.len(),
    ensures
        chars@ == chars_in(cells@).subrange(from as int, to as int),
{
    let mut chars: Vec<char> = Vec::new();
    let mut i: usize = from;
    while i < to
        invariant
            from <= i <= to <= cells@.len(),
            chars@ =~= chars_in(cells@).subrange(from as int, i as int),
        decreases to - i,
    {
        chars.push(cells[i].ch);
        i += 1;
    }
    chars
}

/// The typed part of the line, as characters.
fn text_of(grid: &Grid, line: LineEdit) -> (chars: Vec<char>)
    requires
        line.start <= line.end,
    ensures
        chars@ == held(grid@, line.start as int, line.end as int),
        chars@.len() <= line.end - line.start,
{
    let row = grid.cursor.row;
    if row >= grid.screen.len() {
        return Vec::new();
    }
    let cells = &grid.screen[row].cells;
    let end = if line.end > cells.len() {
        cells.len()
    } else {
        line.end
    };
    if line.start > end {
        return Vec::new();
    }
    chars_between(cells, line.start, end)
}

/// The command line the cursor is on, or `None` when it is not on one.
pub fn current(grid: &Grid) -> (line: Option<LineEdit>)
    ensures
        line == line_at(grid@),
        line matches Some(l) ==> {
            &&& grid@.cursor.row < grid@.screen.len()
            &&& l.start <= l.cursor <= l.end
            &&& l.start <= cursor_line(grid@).len()
        },
{
    let row = grid.cursor.row;
    if row >= grid.screen.len() {
        return None;
    }
    let line = &grid.screen[row];
    match prompt_end_of(line.cells.as_slice()) {
        None => None,
        Some(start) => {
            let cursor = grid.cursor.col;
            if cursor < start {
                // The cursor is in the prompt itself, so IRIS is not reading a
                // line here: it is painting something.
                return None;
            }
            let width = line.used_width();
            let end = if width > cursor {
                width
            } else {
                cursor
            };
            Some(LineEdit { start, cursor, end })
        },
    }
}

/// What follows the last colon, or all of the text when there is none.
pub open spec fn after_colon(s: Seq<char>) -> Seq<char>
    decreases s.len(),
{
    if s.len() == 0 || s.last() == ':' {
        Seq::empty()
    } else {
        after_colon(s.drop_last()).push(s.last())
    }
}

/// The namespace named by the prompt the cursor is on, if there is one.
pub open spec fn namespace_at(s: GridState) -> Option<Seq<char>> {
    if s.cursor.row >= s.screen.len() {
        None
    } else {
        match prompt(cursor_line(s)) {
            Some(end) => Some(after_colon(cursor_line(s).take(end - 1))),
            None => None,
        }
    }
}

/// Namespace named by the prompt the cursor is on, if there is one.
///
/// `USER>` is the namespace on its own, and a transaction or an instance
/// prefixes it, as in `TL1:USER>`, so the last colon-separated piece is the
/// namespace in every spelling of the prompt IRIS uses. `None` off a prompt
/// row, which is what keeps a full-screen routine from being read as one.
pub fn namespace(grid: &Grid) -> (name: Option<String>)
    ensures
        match name {
            Some(text) => namespace_at(grid@) == Some(text@) && text@.len() > 0,
            None => namespace_at(grid@) is None,
        },
{
    let row = grid.cursor.row;
    if row >= grid.screen.len() {
        return None;
    }
    let cells = &grid.screen[row].cells;
    let width = cells.len();
    match prompt_end_of(cells.as_slice()) {
        None => None,
        Some(end) => {
            proof {
                assert(chars_in(cells@).len() == width);
                prompt_ends_in_a_name(chars_in(cells@), 0);
            }
            // `end` is just past the `>`, which is not part of the name.
            let chars = chars_between(cells, 0, end - 1);
            let ghost head = cursor_line(grid@).take(end - 1);
            assert(chars@ =~= head);
            let mut start: usize = chars.len();
            assert(head.take(start as int) =~= head);
            assert(head.skip(start as int) =~= Seq::empty());
            while start > 0 && chars[start - 1] != ':'
                invariant
                    start <= chars@.len(),
                    chars@ == head,
                    after_colon(head) =~= after_colon(head.take(start as int)) + head.skip(
                        start as int,
                    ),
                decreases start,
            {
                assert(head.take(start as int).drop_last() =~= head.take(start - 1));
                start -= 1;
            }
            assert(head.skip(start as int) =~= chars@.subrange(start as int, chars@.len() as int));
            Some(text_between(chars.as_slice(), start, chars.len()))
        },
    }
}

/// A prompt is a name and a `>`: the character before it is a letter or digit.
proof fn prompt_ends_in_a_name(s: Seq<char>, from: int)
    requires
        0 <= from <= s.len(),
        s.len() <= usize::MAX,
        prompt_from(s, from) is Some,
    ensures
        ({
            let end = prompt_from(s, from)->0;
            &&& 2 <= end <= s.len()
            &&& s[end - 2] != ':'
        }),
    decreases s.len() - from,
{
    if from < s.len() && s[from] != '>' {
        prompt_ends_in_a_name(s, from + 1);
    }
}

/// Text typed at the prompt the cursor is on, trailing blanks trimmed.
///
/// This is what a command is recorded from. Reading it back off the screen
/// rather than accumulating keystrokes means a line IRIS recalled itself, or
/// one that arrived by paste, counts exactly like a typed one.
pub fn typed_text(grid: &Grid) -> (text: Option<String>)
    ensures
        text is Some <==> line_at(grid@) is Some,
        text matches Some(t) ==> t@ == trim_end(
            held(grid@, line_at(grid@)->0.start as int, line_at(grid@)->0.end as int),
        ),
{
    match current(grid) {
        None => None,
        Some(line) => {
            let chars = text_of(grid, line);
            let end = end_of_trimmed(chars.as_slice(), 0, chars.len());
            assert(chars@.subrange(0, chars@.len() as int) =~= chars@);
            Some(text_between(chars.as_slice(), 0, end))
        },
    }
}

// ---- laws ---------------------------------------------------------------

proof fn run_before(s: Seq<char>, at: int, kind: Class)
    requires
        0 <= at <= s.len(),
    ensures
        0 <= run_start(s, at, kind) <= at,
        forall|i: int| run_start(s, at, kind) <= i < at ==> class_of(#[trigger] s[i]) == kind,
        run_start(s, at, kind) > 0 ==> class_of(s[run_start(s, at, kind) - 1]) != kind,
    decreases at,
{
    if at > 0 && class_of(s[at - 1]) == kind {
        run_before(s, at - 1, kind);
    }
}

proof fn run_after(s: Seq<char>, at: int, kind: Class)
    requires
        0 <= at <= s.len(),
    ensures
        at <= run_end(s, at, kind) <= s.len(),
        forall|i: int| at <= i < run_end(s, at, kind) ==> class_of(#[trigger] s[i]) == kind,
        run_end(s, at, kind) < s.len() ==> class_of(s[run_end(s, at, kind)]) != kind,
    decreases s.len() - at,
{
    if at < s.len() && class_of(s[at]) == kind {
        run_after(s, at + 1, kind);
    }
}

/// What a double-click selects is one run: every character in it is of one
/// class, and the characters on either side of it are not.
pub proof fn a_word_is_one_whole_run(s: Seq<char>, at: int)
    requires
        0 <= at < s.len(),
    ensures
        ({
            let kind = class_of(s[at]);
            let start = run_start(s, at, kind);
            let end = run_end(s, at, kind);
            &&& start <= at < end
            &&& forall|i: int| start <= i < end ==> class_of(#[trigger] s[i]) == kind
            &&& start > 0 ==> class_of(s[start - 1]) != kind
            &&& end < s.len() ==> class_of(s[end]) != kind
        }),
{
    run_before(s, at, class_of(s[at]));
    run_after(s, at, class_of(s[at]));
}

/// Ctrl+Right always gets further, until there is nothing left to cross, and
/// never stops in a gap.
pub proof fn word_motion_right_advances(s: Seq<char>, at: int)
    requires
        0 <= at < s.len(),
    ensures
        at < word_right(s, at) <= s.len(),
        word_right(s, at) < s.len() ==> class_of(s[word_right(s, at)]) != Class::Space,
{
    let kind = class_of(s[at]);
    run_after(s, at, kind);
    let past = if kind != Class::Space {
        run_end(s, at, kind)
    } else {
        at
    };
    run_after(s, past, Class::Space);
}

/// Ctrl+Left always gets back towards the start, and stops where a run begins.
pub proof fn word_motion_left_goes_back(s: Seq<char>, at: int)
    requires
        0 < at <= s.len(),
    ensures
        0 <= word_left(s, at) < at,
        word_left(s, at) > 0 ==> class_of(s[word_left(s, at) - 1]) != class_of(
            s[word_left(s, at)],
        ),
{
    run_before(s, at, Class::Space);
    let i = run_start(s, at, Class::Space);
    if i > 0 {
        run_before(s, i, class_of(s[i - 1]));
    }
}

} // verus!
