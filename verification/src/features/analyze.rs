//! Handing terminal output to an assistant session.
//!
//! The output is written to a file, and a session is opened in a tab of its own
//! with that file loaded into its context. No question is asked on the user's
//! behalf: the session comes up idle, knowing what is on the terminal, and
//! waits for whatever the user actually wanted to ask about it.
//!
//! What "the output" means is the user's choice. Everything is the honest
//! default, but a working scrollback holds a whole afternoon; the other scopes
//! cut it back to the last few commands, or to what is highlighted.

use vstd::prelude::*;

use super::export::{row_states, rows as export_rows, Range};
use crate::clock::{now_stamp, tells_a_moment};
use crate::config::{Profile, ShellCommand};
use crate::number::{unsigned, what_is_written_is_read};
use crate::term::cell::Cell;
use crate::term::encoding::Encoding;
use crate::term::grid::Grid;
use crate::term::row::Row;
use crate::term::state::{GridState, RowState};
use crate::term::syntax::{chars_in, prompt, prompt_end_of};
use crate::text::{
    chars_of, decimal, digits, end_of_trimmed, is_white, join_from, joined, opt_text, text_between,
    text_of, texts, trim, trim_end, trimmed, views, white_space,
};

verus! {

/// How much of the session to hand over.
#[derive(Clone, Copy, Debug, PartialEq, Eq, Structural)]
pub enum Scope {
    /// Scrollback and screen, from the first row the terminal still holds.
    All,
    LastTen,
    LastFive,
    /// Only what is highlighted: the one scope the user draws by hand.
    Selection,
}

/// Which of a split tab's panes to hand over.
///
/// One pane is the honest default, being the one being typed in; but a split is
/// usually two halves of one problem, and cutting one of them out of the
/// context is exactly what makes the answer useless.
#[derive(Clone, Copy, Debug, PartialEq, Eq, Structural)]
pub enum Panes {
    /// The pane the keyboard is in.
    Focused,
    /// Both of a split tab's sessions, each under a heading of its own.
    Both,
}

impl Default for Panes {
    fn default() -> (panes: Self)
        ensures
            panes == Panes::Focused,
    {
        Panes::Focused
    }
}

impl Panes {
    /// Menu entry. Keyed for translation like every other label.
    pub fn label(self) -> (label: &'static str)
        ensures
            label@ == match self {
                Panes::Focused => "This pane"@,
                Panes::Both => "Both panes"@,
            },
    {
        match self {
            Panes::Focused => "This pane",
            Panes::Both => "Both panes",
        }
    }
}

/// One session's contribution to a context file.
pub struct Source<'a> {
    /// What the session is called: the profile's endpoint.
    pub endpoint: &'a str,
    pub grid: &'a Grid,
    /// What is highlighted in this session, for [`Scope::Selection`]. Lives in
    /// the view, not in the grid, so only the caller knows it.
    pub selection: Option<&'a str>,
}

impl Scope {
    pub const ALL: [Scope; 4] = [Scope::All, Scope::LastTen, Scope::LastFive, Scope::Selection];

    /// Whether this scope comes from the mouse rather than from the grid.
    pub fn is_selection(self) -> (yes: bool)
        ensures
            yes == (self == Scope::Selection),
    {
        match self {
            Scope::Selection => true,
            _ => false,
        }
    }

    pub open spec fn reach(self) -> Option<usize> {
        match self {
            Scope::All | Scope::Selection => None,
            Scope::LastTen => Some(10),
            Scope::LastFive => Some(5),
        }
    }

    /// How many commands back to reach, or `None` for everything.
    fn commands(self) -> (n: Option<usize>)
        ensures
            n == self.reach(),
    {
        match self {
            Scope::All | Scope::Selection => None,
            Scope::LastTen => Some(10),
            Scope::LastFive => Some(5),
        }
    }

    pub open spec fn name(self) -> Seq<char> {
        match self {
            Scope::All => "All output"@,
            Scope::LastTen => "Last 10 commands"@,
            Scope::LastFive => "Last 5 commands"@,
            Scope::Selection => "Selection"@,
        }
    }

    /// Menu entry. Keyed for translation like every other label.
    pub fn label(self) -> (label: &'static str)
        ensures
            label@ == self.name(),
    {
        match self {
            Scope::All => "All output",
            Scope::LastTen => "Last 10 commands",
            Scope::LastFive => "Last 5 commands",
            Scope::Selection => "Selection",
        }
    }
}

// ---- what is covered ----------------------------------------------------

/// Whether something is written on a row at or after `from`.
pub open spec fn written_after(cells: Seq<Cell>, from: int) -> bool {
    exists|i: int| from <= i < cells.len() && !white_space((#[trigger] cells[i]).ch)
}

/// Whether a row is a command line: a prompt with something typed after it. The
/// prompt alone is not enough: the last row of a session is almost always a
/// bare one.
pub open spec fn commands_on(row: RowState) -> bool {
    match prompt(chars_in(row.cells)) {
        Some(end) => written_after(row.cells, end as int),
        None => false,
    }
}

pub fn is_command(row: &Row) -> (yes: bool)
    ensures
        yes == commands_on(row@),
{
    match prompt_end_of(row.cells.as_slice()) {
        None => false,
        Some(end) => {
            let mut i: usize = end;
            while i < row.cells.len()
                invariant
                    end <= i <= row.cells@.len(),
                    prompt(chars_in(row@.cells)) == Some(end),
                    forall|k: int| end <= k < i ==> white_space((#[trigger] row.cells@[k]).ch),
                decreases row.cells.len() - i,
            {
                if !is_white(row.cells[i].ch) {
                    assert(written_after(row.cells@, end as int));
                    return true;
                }
                i += 1;
            }
            false
        },
    }
}

/// How many of the rows are command lines.
pub open spec fn command_count(rows: Seq<RowState>) -> nat
    decreases rows.len(),
{
    if rows.len() == 0 {
        0
    } else {
        command_count(rows.drop_last()) + if commands_on(rows.last()) {
            1nat
        } else {
            0
        }
    }
}

/// Where the last `wanted` commands begin; at the top if there are no more than
/// that.
pub open spec fn start_of(rows: Seq<RowState>, wanted: nat, from: int) -> int
    decreases from,
{
    if from <= 0 {
        0
    } else if commands_on(rows[from - 1]) && wanted <= 1 {
        from - 1
    } else {
        start_of(
            rows,
            if commands_on(rows[from - 1]) {
                (wanted - 1) as nat
            } else {
                wanted
            },
            from - 1,
        )
    }
}

/// The rows a scope covers, oldest first.
pub open spec fn in_scope(grid: GridState, scope: Scope) -> Seq<RowState> {
    let all = grid.scrollback + grid.screen;
    match scope.reach() {
        None => all,
        Some(wanted) => all.skip(start_of(all, wanted as nat, all.len() as int)),
    }
}

/// A text without the line feeds and spaces at its end.
pub open spec fn without_blank_end(s: Seq<char>) -> Seq<char>
    decreases s.len(),
{
    if s.len() > 0 && (s.last() == '\n' || s.last() == ' ') {
        without_blank_end(s.drop_last())
    } else {
        s
    }
}

/// The output itself: one row a line, blank ones at the end left off.
pub open spec fn transcribed(grid: GridState, scope: Scope) -> Seq<char> {
    without_blank_end(joined(in_scope(grid, scope).map_values(|r: RowState| r.text())))
}

fn find_start(rows: &Vec<&Row>, wanted: usize) -> (start: usize)
    requires
        wanted > 0,
    ensures
        start == start_of(row_states(rows@), wanted as nat, rows@.len() as int),
        start <= rows@.len(),
{
    let ghost all = row_states(rows@);
    let mut left: usize = wanted;
    let mut i: usize = rows.len();
    while i > 0
        invariant
            i <= rows@.len(),
            left > 0,
            all == row_states(rows@),
            start_of(all, wanted as nat, rows@.len() as int) == start_of(
                all,
                left as nat,
                i as int,
            ),
        decreases i,
    {
        assert(all[i - 1] == rows@[i - 1]@);
        if is_command(rows[i - 1]) {
            if left == 1 {
                return i - 1;
            }
            left -= 1;
        }
        i -= 1;
    }
    0
}

/// The output itself, trailing blank rows trimmed.
pub fn transcript(grid: &Grid, scope: Scope) -> (text: String)
    ensures
        text@ == transcribed(grid@, scope),
{
    let rows = export_rows(grid, Range::All);
    let ghost all = row_states(rows@);
    let start = match scope.commands() {
        None => 0,
        // Counting from the end, so a session with fewer commands than asked
        // for hands over what there is rather than nothing.
        Some(wanted) => find_start(&rows, wanted),
    };
    let ghost covered = in_scope(grid@, scope);
    assert(covered =~= all.skip(start as int));
    let ghost want = covered.map_values(|r: RowState| r.text());
    let mut lines: Vec<Vec<char>> = Vec::new();
    let mut i: usize = start;
    while i < rows.len()
        invariant
            start <= i <= rows@.len(),
            lines@.len() == i - start,
            forall|k: int|
                0 <= k < lines@.len() ==> (#[trigger] lines@[k])@ == rows@[start + k]@.text(),
        decreases rows.len() - i,
    {
        lines.push(chars_of(rows[i].to_text().as_str()));
        i += 1;
    }
    assert forall|k: int| 0 <= k < want.len() implies views(lines@)[k] == #[trigger] want[k] by {
        assert(all[start + k] == rows@[start + k]@);
    }
    assert(views(lines@) =~= want);
    let mut chars = join_from(&lines, 0);
    assert(views(lines@).skip(0) =~= views(lines@));
    let ghost whole = chars@;
    while chars.len() > 0 && (chars[chars.len() - 1] == '\n' || chars[chars.len() - 1] == ' ')
        invariant
            without_blank_end(chars@) == without_blank_end(whole),
        decreases chars.len(),
    {
        let ghost before = chars@;
        let _ = chars.pop();
        assert(chars@ =~= before.drop_last());
    }
    text_of(chars.as_slice())
}

// ---- the context file ---------------------------------------------------

/// What a scope covers in one session.
pub open spec fn said_in(source: Source<'_>, scope: Scope) -> Seq<char> {
    if scope == Scope::Selection {
        match source.selection {
            Some(text) => trim_end(text@),
            None => Seq::empty(),
        }
    } else {
        transcribed(source.grid@, scope)
    }
}

fn captured_text(source: &Source<'_>, scope: Scope) -> (text: String)
    ensures
        text@ == said_in(*source, scope),
{
    if scope.is_selection() {
        // The selection is the caller's to know: the grid has no idea what the
        // mouse has been doing.
        match source.selection {
            Some(text) => {
                let chars = chars_of(text);
                let len = chars.len();
                let end = end_of_trimmed(chars.as_slice(), 0, len);
                assert(chars@.subrange(0, len as int) =~= text@);
                text_between(chars.as_slice(), 0, end)
            },
            None => String::new(),
        }
    } else {
        transcript(source.grid, scope)
    }
}

/// A session's name and what it said.
pub type Capture = (Seq<char>, Seq<char>);

/// The sessions that have something to contribute. One with nothing in it is
/// dropped rather than refused.
pub open spec fn captures(sources: Seq<Source<'_>>, scope: Scope) -> Seq<Capture>
    decreases sources.len(),
{
    if sources.len() == 0 {
        Seq::empty()
    } else {
        let before = captures(sources.drop_last(), scope);
        let text = said_in(sources.last(), scope);
        if trim(text).len() == 0 {
            before
        } else {
            before.push((sources.last().endpoint@, text))
        }
    }
}

/// Why there is nothing to hand over.
#[derive(Clone, Copy, Debug, PartialEq, Eq, Structural)]
pub enum Nothing {
    Selected,
    Said,
}

impl Nothing {
    pub fn message(self) -> (text: &'static str)
        ensures
            text@ == match self {
                Nothing::Selected => "nothing is selected"@,
                Nothing::Said => "there is no output to analyze yet"@,
            },
    {
        match self {
            Nothing::Selected => "nothing is selected",
            Nothing::Said => "there is no output to analyze yet",
        }
    }
}

pub open spec fn context_head(scope: Scope, stamp: Seq<char>) -> Seq<char> {
    "# Context: the user's InterSystems IRIS terminal\n\nBelow is output captured from the terminal the user is working in - ObjectScript on InterSystems IRIS/Caché. It is background for whatever they are about to ask; there is no question in it, so wait for theirs rather than volunteering an analysis of it.\n\n- Captured: "@
        + stamp + "\n- Scope: "@ + scope.name() + "\n"@
}

/// A capture in a fenced block, which is what keeps a line of output from being
/// taken for a heading.
pub open spec fn fenced(text: Seq<char>) -> Seq<char> {
    "\n\n```text\n"@ + text + "\n```\n"@
}

/// Each session under a heading of its own.
pub open spec fn panes(captured: Seq<Capture>) -> Seq<char>
    decreases captured.len(),
{
    if captured.len() == 0 {
        Seq::empty()
    } else {
        let (endpoint, text) = captured.last();
        panes(captured.drop_last()) + "\n## Pane "@ + digits(captured.len()) + " - "@ + endpoint
            + fenced(text)
    }
}

/// One session reads as one capture. Two get a heading each, and a line saying
/// they were side by side.
pub open spec fn context_body(captured: Seq<Capture>) -> Seq<char> {
    if captured.len() == 1 {
        "- Session: "@ + captured[0].0 + fenced(captured[0].1)
    } else {
        "- Panes: "@ + digits(captured.len()) + " sessions, side by side in one split view\n"@
            + panes(captured)
    }
}

fn push_fenced(out: &mut String, text: &str)
    ensures
        final(out)@ == old(out)@ + fenced(text@),
{
    out.append("\n\n```text\n");
    out.append(text);
    out.append("\n```\n");
    assert(out@ =~= old(out)@ + fenced(text@));
}

/// The views of named captures.
pub open spec fn capture_states(list: Seq<(&str, String)>) -> Seq<Capture> {
    list.map_values(|c: (&str, String)| (c.0@, c.1@))
}

fn push_body(out: &mut String, captured: &Vec<(&str, String)>)
    requires
        captured@.len() > 0,
    ensures
        final(out)@ == old(out)@ + context_body(capture_states(captured@)),
{
    let ghost want = capture_states(captured@);
    assert(want[0] == (captured@[0].0@, captured@[0].1@));
    if captured.len() == 1 {
        out.append("- Session: ");
        out.append(captured[0].0);
        push_fenced(out, captured[0].1.as_str());
        assert(out@ =~= old(out)@ + context_body(want));
        return;
    }
    out.append("- Panes: ");
    out.append(decimal(captured.len() as u64).as_str());
    out.append(" sessions, side by side in one split view\n");
    let ghost head = out@;
    let mut i: usize = 0;
    assert(want.take(0) =~= Seq::empty());
    while i < captured.len()
        invariant
            i <= captured@.len(),
            want == capture_states(captured@),
            out@ =~= head + panes(want.take(i as int)),
        decreases captured.len() - i,
    {
        assert(want.take(i + 1).drop_last() =~= want.take(i as int));
        assert(want[i as int] == (captured@[i as int].0@, captured@[i as int].1@));
        out.append("\n## Pane ");
        out.append(decimal((i + 1) as u64).as_str());
        out.append(" - ");
        out.append(captured[i].0);
        push_fenced(out, captured[i].1.as_str());
        i += 1;
    }
    assert(want.take(i as int) =~= want);
    assert(out@ =~= old(out)@ + context_body(want));
}

fn collect<'a>(sources: &'a [Source<'a>], scope: Scope) -> (captured: Vec<(&'a str, String)>)
    ensures
        capture_states(captured@) == captures(sources@, scope),
{
    let mut captured: Vec<(&'a str, String)> = Vec::new();
    let mut i: usize = 0;
    assert(sources@.take(0) =~= Seq::empty());
    assert(capture_states(captured@) =~= Seq::empty());
    while i < sources.len()
        invariant
            i <= sources@.len(),
            capture_states(captured@) == captures(sources@.take(i as int), scope),
        decreases sources.len() - i,
    {
        assert(sources@.take(i + 1).drop_last() =~= sources@.take(i as int));
        let text = captured_text(&sources[i], scope);
        if !trimmed(text.as_str()).as_str().is_empty() {
            let ghost before = capture_states(captured@);
            captured.push((sources[i].endpoint, text));
            assert(capture_states(captured@) =~= before.push(
                (sources@[i as int].endpoint@, text@),
            ));
        }
        i += 1;
    }
    assert(sources@.take(i as int) =~= sources@);
    captured
}

/// What the context file holds, captured at a given moment.
///
/// Markdown, written as context rather than as a request: it is appended to the
/// session's system prompt, so nothing here should read as a task.
///
/// `sources` is one session, or both panes of a split tab.
pub fn context_at<'a>(sources: &'a [Source<'a>], scope: Scope, stamp: &str) -> (file: Result<
    String,
    Nothing,
>)
    ensures
        ({
            let captured = captures(sources@, scope);
            match file {
                Ok(text) => captured.len() > 0 && text@ == context_head(scope, stamp@)
                    + context_body(captured),
                Err(why) => captured.len() == 0 && why == if scope == Scope::Selection {
                    Nothing::Selected
                } else {
                    Nothing::Said
                },
            }
        }),
{
    let captured = collect(sources, scope);
    if captured.len() == 0 {
        if scope.is_selection() {
            return Err(Nothing::Selected);
        }
        return Err(Nothing::Said);
    }
    let mut out = String::new();
    out.append(
        "# Context: the user's InterSystems IRIS terminal\n\nBelow is output captured from the terminal the user is working in - ObjectScript on InterSystems IRIS/Caché. It is background for whatever they are about to ask; there is no question in it, so wait for theirs rather than volunteering an analysis of it.\n\n- Captured: ",
    );
    out.append(stamp);
    out.append("\n- Scope: ");
    out.append(scope.label());
    out.append("\n");
    assert(out@ =~= context_head(scope, stamp@));
    push_body(&mut out, &captured);
    Ok(out)
}

/// What the context file holds, captured now.
pub fn context<'a>(sources: &'a [Source<'a>], scope: Scope) -> (file: Result<String, Nothing>)
    ensures
        ({
            let captured = captures(sources@, scope);
            match file {
                Ok(text) => captured.len() > 0 && exists|stamp: Seq<char>|
                    tells_a_moment(stamp) && text@ == #[trigger] context_head(scope, stamp)
                        + context_body(captured),
                Err(why) => captured.len() == 0 && why == if scope == Scope::Selection {
                    Nothing::Selected
                } else {
                    Nothing::Said
                },
            }
        }),
{
    let stamp = now_stamp("%Y-%m-%d %H:%M:%S");
    context_at(sources, scope, stamp.as_str())
}

/// The name to try at the given attempt: the moment, and from the second on a
/// number behind it. A timestamp is only unique to the second.
pub open spec fn session_name(stamp: Seq<char>, attempt: nat) -> Seq<char> {
    "session-"@ + stamp + (if attempt == 1 {
        Seq::empty()
    } else {
        seq!['-'] + digits(attempt)
    }) + ".md"@
}

pub fn candidate(stamp: &str, attempt: u32) -> (name: String)
    ensures
        name@ == session_name(stamp@, attempt as nat),
{
    let mut name = String::new();
    name.append("session-");
    name.append(stamp);
    if attempt != 1 {
        name.push('-');
        name.append(decimal(attempt as u64).as_str());
    }
    name.append(".md");
    assert(name@ =~= session_name(stamp@, attempt as nat));
    name
}

/// What came of claiming a name.
#[derive(Clone, Copy, Debug, PartialEq, Eq, Structural)]
pub enum Claim {
    /// The file did not exist, and now does.
    Made,
    /// There is one already.
    Taken,
    /// It could not be made.
    Failed,
}

/// What to do about it.
#[derive(Clone, Copy, Debug, PartialEq, Eq, Structural)]
pub enum Next {
    Done,
    /// Try the name of this attempt.
    Try(u32),
    /// Too many names were taken.
    GiveUp,
    Fail,
}

/// How many names are tried.
pub const MOST_ATTEMPTS: u32 = 99;

/// The next thing to do once a name was claimed, or could not be.
pub fn next_attempt(attempt: u32, claim: Claim) -> (next: Next)
    ensures
        next == match claim {
            Claim::Made => Next::Done,
            Claim::Taken => if attempt < MOST_ATTEMPTS {
                Next::Try((attempt + 1) as u32)
            } else {
                Next::GiveUp
            },
            Claim::Failed => Next::Fail,
        },
{
    match claim {
        Claim::Made => Next::Done,
        Claim::Taken => if attempt < MOST_ATTEMPTS {
            Next::Try(attempt + 1)
        } else {
            Next::GiveUp
        },
        Claim::Failed => Next::Fail,
    }
}

/// The flag that loads a file into a session's context without asking it
/// anything. With no prompt after it, the session comes up interactive and
/// idle.
pub const CONTEXT_FLAG: &'static str = "--append-system-prompt-file";

/// The profile that opens a session of an assistant on `file` in `dir`, as a
/// tab that is called after the program.
///
/// The program is named bare rather than resolved. And the file is passed by
/// *name*, with the session started in the folder that holds it, because the
/// command line of a shell tab has no way to quote a space.
pub fn tab_profile(program: &str, dir: &str, file: &str) -> (profile: Profile)
    ensures
        profile.name@ == program@,
        profile.instance@ == program@,
        profile.namespace@.len() == 0,
        profile.username@.len() == 0,
        !profile.autologon,
        profile.post_login@.len() == 0,
        profile.encoding == Encoding::Utf8,
        profile.remote is None,
        profile.shell matches Some(shell) && shell.program@ == program@ && texts(shell.args@)
            == seq![CONTEXT_FLAG@, file@] && opt_text(shell.cwd) == Some(dir@),
{
    let mut args: Vec<String> = Vec::new();
    args.push(CONTEXT_FLAG.to_owned());
    args.push(file.to_owned());
    assert(texts(args@) =~= seq![CONTEXT_FLAG@, file@]);
    let mut profile = Profile::default();
    profile.name = program.to_owned();
    profile.instance = program.to_owned();
    profile.shell = Some(
        ShellCommand { program: program.to_owned(), args, cwd: Some(dir.to_owned()) },
    );
    profile
}

// ---- laws ---------------------------------------------------------------

/// Two captures of the same moment never get the same file.
pub proof fn every_attempt_is_another_file(stamp: Seq<char>, one: nat, other: nat)
    requires
        1 <= one < other,
    ensures
        session_name(stamp, one) != session_name(stamp, other),
{
    let a = session_name(stamp, one);
    let b = session_name(stamp, other);
    let y = digits(other);
    what_is_written_is_read(other, other as int);
    if one == 1 {
        assert(b.len() > a.len());
    } else {
        let x = digits(one);
        what_is_written_is_read(one, other as int);
        if a == b {
            let from = "session-"@.len() + stamp.len() + 1;
            assert(a.len() == from + x.len() + ".md"@.len());
            assert(b.len() == from + y.len() + ".md"@.len());
            assert(a.subrange(from as int, (from + x.len()) as int) =~= x);
            assert(b.subrange(from as int, (from + y.len()) as int) =~= y);
            assert(unsigned(x, other as int) == unsigned(y, other as int));
        }
    }
}

proof fn count_from(rows: Seq<RowState>, wanted: nat, from: int)
    requires
        0 <= from <= rows.len(),
        wanted > 0,
    ensures
        ({
            let start = start_of(rows, wanted, from);
            let taken = command_count(rows.subrange(start, from));
            &&& 0 <= start <= from
            &&& taken <= wanted
            &&& taken < wanted ==> start == 0
            &&& start > 0 ==> taken == wanted
            &&& taken == wanted ==> start < from && commands_on(rows[start])
        }),
    decreases from,
{
    if from > 0 {
        let here = commands_on(rows[from - 1]);
        if here && wanted == 1 {
            let one = rows.subrange(from - 1, from);
            assert(one.drop_last() =~= Seq::empty());
            assert(one.last() == rows[from - 1]);
            reveal_with_fuel(command_count, 2);
        } else {
            let left = if here {
                (wanted - 1) as nat
            } else {
                wanted
            };
            count_from(rows, left, from - 1);
            let start = start_of(rows, left, from - 1);
            let part = rows.subrange(start, from);
            assert(part.drop_last() =~= rows.subrange(start, from - 1));
            assert(part.last() == rows[from - 1]);
        }
    } else {
        assert(rows.subrange(0, 0) =~= Seq::empty());
    }
}

/// A narrow scope hands over that many commands, beginning with the line of the
/// first of them; or everything there is when there are fewer.
pub proof fn a_narrow_scope_is_that_many_commands(rows: Seq<RowState>, wanted: nat)
    requires
        wanted > 0,
    ensures
        ({
            let covered = rows.skip(start_of(rows, wanted, rows.len() as int));
            &&& command_count(rows) < wanted ==> covered == rows
            &&& command_count(rows) >= wanted ==> covered.len() > 0 && commands_on(covered[0])
                && command_count(covered) == wanted
        }),
{
    count_from(rows, wanted, rows.len() as int);
    let start = start_of(rows, wanted, rows.len() as int);
    assert(rows.skip(start) =~= rows.subrange(start, rows.len() as int));
    if start == 0 {
        assert(rows.skip(0) =~= rows);
    }
    a_part_has_no_more_commands(rows, start);
}

proof fn a_part_has_no_more_commands(rows: Seq<RowState>, start: int)
    requires
        0 <= start <= rows.len(),
    ensures
        command_count(rows.skip(start)) <= command_count(rows),
    decreases rows.len(),
{
    if start < rows.len() {
        a_part_has_no_more_commands(rows.drop_last(), start);
        assert(rows.skip(start).drop_last() =~= rows.drop_last().skip(start));
        assert(rows.skip(start).last() == rows.last());
    } else {
        assert(rows.skip(start) =~= Seq::empty());
    }
}

proof fn lines_in_two_parts(a: Seq<Seq<char>>, b: Seq<Seq<char>>)
    requires
        b.len() > 0,
    ensures
        joined(a + b) == if a.len() == 0 {
            joined(b)
        } else {
            joined(a) + seq!['\n'] + joined(b)
        },
    decreases b.len(),
{
    if a.len() == 0 {
        assert(a + b =~= b);
    } else {
        assert((a + b).drop_last() =~= a + b.drop_last());
        if b.len() == 1 {
            assert(a + b.drop_last() =~= a);
        } else {
            lines_in_two_parts(a, b.drop_last());
            assert(joined(a + b) =~= joined(a) + seq!['\n'] + joined(b));
        }
    }
}

proof fn what_is_left_of_the_end(head: Seq<char>, tail: Seq<char>)
    ensures
        without_blank_end(tail).len() > 0 ==> without_blank_end(head + tail) == head
            + without_blank_end(tail),
        without_blank_end(tail).len() <= tail.len(),
    decreases tail.len(),
{
    if tail.len() > 0 {
        let all = head + tail;
        assert(all.last() == tail.last());
        assert(all.drop_last() =~= head + tail.drop_last());
        what_is_left_of_the_end(head, tail.drop_last());
    }
}

/// No transcript ends in a line feed or a blank.
pub proof fn a_transcript_ends_in_something(grid: GridState, scope: Scope)
    ensures
        ({
            let text = transcribed(grid, scope);
            text.len() > 0 ==> text.last() != '\n' && text.last() != ' '
        }),
{
    the_end_is_not_blank(joined(in_scope(grid, scope).map_values(|r: RowState| r.text())));
}

proof fn the_end_is_not_blank(s: Seq<char>)
    ensures
        without_blank_end(s).len() > 0 ==> without_blank_end(s).last() != '\n'
            && without_blank_end(s).last() != ' ',
    decreases s.len(),
{
    if s.len() > 0 && (s.last() == '\n' || s.last() == ' ') {
        the_end_is_not_blank(s.drop_last());
    }
}

/// What a narrow scope hands over is the end of what the whole session would be,
/// and all of it where the session has fewer commands than were asked for.
pub proof fn a_narrow_transcript_ends_the_whole_one(grid: GridState, scope: Scope)
    ensures
        ({
            let narrow = transcribed(grid, scope);
            let whole = transcribed(grid, Scope::All);
            &&& narrow.len() <= whole.len()
            &&& narrow == whole.skip(whole.len() - narrow.len())
            &&& scope.reach() matches Some(wanted) ==> command_count(
                grid.scrollback + grid.screen,
            ) < wanted ==> narrow == whole
        }),
{
    let rows = grid.scrollback + grid.screen;
    let covered = in_scope(grid, scope);
    let narrow = transcribed(grid, scope);
    let whole = transcribed(grid, Scope::All);
    if let Some(wanted) = scope.reach() {
        a_narrow_scope_is_that_many_commands(rows, wanted as nat);
        count_from(rows, wanted as nat, rows.len() as int);
        let start = start_of(rows, wanted as nat, rows.len() as int);
        let texts_of = rows.map_values(|r: RowState| r.text());
        let a = texts_of.take(start);
        let b = texts_of.skip(start);
        assert(b =~= covered.map_values(|r: RowState| r.text()));
        assert(a + b =~= texts_of);
        if b.len() > 0 {
            lines_in_two_parts(a, b);
            let head = if a.len() == 0 {
                Seq::empty()
            } else {
                joined(a) + seq!['\n']
            };
            assert(joined(texts_of) =~= head + joined(b));
            what_is_left_of_the_end(head, joined(b));
            if narrow.len() > 0 {
                assert(whole == head + narrow);
            }
        } else {
            assert(narrow.len() == 0);
        }
    }
    assert(narrow =~= whole.skip(whole.len() - narrow.len()));
}

} // verus!
