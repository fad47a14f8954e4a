//! Shell plugins: the other command interpreters this machine has.
//!
//! A shell plugin is a declaration, not code - a name and a program to run -
//! which is what lets it be a plugin at all.
//!
//! **The folder is the list.** Every shell the app offers is a `.toml` in one
//! folder, with no exceptions. What the platform probes do is *write those
//! files*: the shells found installed are materialised into the folder, each
//! one a file that can then be renamed, re-armed with different arguments, or
//! deleted like any other.
//!
//! Deleting one makes it stay deleted. A stamp file records which programs have
//! ever been written, so a probe never puts back a file the user removed - and
//! a shell installed after that is still picked up, because its program is not
//! in the stamp yet.
//!
//! Looking at the disk and writing to it is the caller's.

use vstd::prelude::*;

use crate::number::{unsigned, what_is_written_is_read};
use crate::text::{
    ascii_alnum, ascii_alpha, chars_of, copied_strings, decimal, digits, is_alnum, is_alpha,
    join_from, joined, joined_is_split_again, lower, lower_char, same, split, split_chars,
    text_between, text_of, texts, texts_push, to_chars, trim, trimmed, unicode_lower, views,
};

verus! {

broadcast use texts_push;

/// One shell the app can open a tab on, as its file declares it.
#[derive(Clone, Debug, PartialEq, Eq)]
pub struct Shell {
    /// What the menu calls it.
    pub name: String,
    pub program: String,
    pub args: Vec<String>,
    /// The file it came from.
    pub file: String,
    /// The app wrote this file, having found the program installed. Purely
    /// informational - it is an ordinary file either way - but it is worth
    /// saying in the settings list which entries the user chose and which ones
    /// simply appeared.
    pub generated: bool,
}

#[verifier::ext_equal]
pub struct ShellState {
    pub name: Seq<char>,
    pub program: Seq<char>,
    pub args: Seq<Seq<char>>,
    pub file: Seq<char>,
    pub generated: bool,
}

impl View for Shell {
    type V = ShellState;

    open spec fn view(&self) -> ShellState {
        ShellState {
            name: self.name@,
            program: self.program@,
            args: texts(self.args@),
            file: self.file@,
            generated: self.generated,
        }
    }
}

/// Each text behind a space.
pub open spec fn spaced(args: Seq<Seq<char>>) -> Seq<char>
    decreases args.len(),
{
    if args.len() == 0 {
        Seq::empty()
    } else {
        spaced(args.drop_last()).push(' ') + args.last()
    }
}

impl Shell {
    /// The command, for a tooltip and for the settings list.
    pub fn command_line(&self) -> (line: String)
        ensures
            line@ == self.program@ + spaced(texts(self.args@)),
    {
        let mut line = self.program.clone();
        let ghost all = texts(self.args@);
        let mut i: usize = 0;
        assert(line@ =~= self.program@ + spaced(all.take(0)));
        while i < self.args.len()
            invariant
                i <= self.args@.len(),
                all == texts(self.args@),
                line@ == self.program@ + spaced(all.take(i as int)),
            decreases self.args.len() - i,
        {
            assert(all.take(i + 1).drop_last() =~= all.take(i as int));
            assert(all.take(i + 1).last() == self.args@[i as int]@);
            line.push(' ');
            line.append(self.args[i].as_str());
            assert(line@ =~= self.program@ + spaced(all.take(i + 1)));
            i += 1;
        }
        assert(all.take(i as int) =~= all);
        line
    }

    /// How the settings list describes where it came from.
    pub fn source_label(&self) -> (label: &'static str)
        ensures
            label@ == if self.generated {
                "found on this machine"@
            } else {
                "declared"@
            },
    {
        if self.generated {
            "found on this machine"
        } else {
            "declared"
        }
    }
}

// ---- what the folder declares -------------------------------------------

/// A shell file, as it is spelled.
///
/// ```toml
/// name = "PowerShell 7"
/// program = "C:/Program Files/PowerShell/7/pwsh.exe"
/// args = ["-NoLogo"]
/// ```
#[derive(Clone, Debug)]
pub struct ShellFile {
    pub name: String,
    pub program: String,
    pub args: Vec<String>,
    /// Written by the app when it materialised a shell it found. A file the
    /// user wrote leaves it out, and leaving it out means "mine".
    pub generated: bool,
}

/// A file of the folder that could be read, and whether the program it names is
/// there.
pub struct Entry {
    pub file: String,
    pub declares: ShellFile,
    pub there: bool,
}

/// Whether a file stands for a shell: it has a name, and a program that is
/// there. A menu entry that cannot start anything is worse than no entry.
pub open spec fn offered(entry: Entry) -> bool {
    trim(entry.declares.name@).len() > 0 && entry.declares.program@.len() > 0 && entry.there
}

/// The shell that a file stands for.
pub open spec fn shell_of(entry: Entry) -> ShellState {
    ShellState {
        name: trim(entry.declares.name@),
        program: entry.declares.program@,
        args: texts(entry.declares.args@),
        file: entry.file@,
        generated: entry.declares.generated,
    }
}

pub open spec fn shells_of(entries: Seq<Entry>) -> Seq<ShellState>
    decreases entries.len(),
{
    if entries.len() == 0 {
        Seq::empty()
    } else if offered(entries.last()) {
        shells_of(entries.drop_last()).push(shell_of(entries.last()))
    } else {
        shells_of(entries.drop_last())
    }
}

pub open spec fn shell_views(shells: Seq<Shell>) -> Seq<ShellState> {
    shells.map_values(|s: Shell| s@)
}

/// The shells that the files of the folder declare, in the order of the files.
pub fn declared(entries: &Vec<Entry>) -> (shells: Vec<Shell>)
    ensures
        shell_views(shells@) == shells_of(entries@),
{
    let mut shells: Vec<Shell> = Vec::new();
    let mut i: usize = 0;
    assert(shell_views(shells@) =~= shells_of(entries@.take(0)));
    while i < entries.len()
        invariant
            i <= entries@.len(),
            shell_views(shells@) == shells_of(entries@.take(i as int)),
        decreases entries.len() - i,
    {
        assert(entries@.take(i + 1).drop_last() =~= entries@.take(i as int));
        let entry = &entries[i];
        let name = trimmed(entry.declares.name.as_str());
        if name.as_str().unicode_len() > 0 && entry.declares.program.as_str().unicode_len() > 0
            && entry.there {
            let shell = Shell {
                name,
                program: entry.declares.program.clone(),
                args: copied_strings(&entry.declares.args),
                file: entry.file.clone(),
                generated: entry.declares.generated,
            };
            let ghost before = shell_views(shells@);
            assert(shell@ =~= shell_of(entries@[i as int]));
            shells.push(shell);
            assert(shell_views(shells@) =~= before.push(shell_of(entries@[i as int])));
        }
        i += 1;
    }
    assert(entries@.take(i as int) =~= entries@);
    shells
}

/// Whether a line says something: it is neither blank nor a comment.
pub open spec fn says_something(line: Seq<char>) -> bool {
    trim(line).len() > 0 && trim(line)[0] != '#'
}

/// Whether a file is nothing but comments. That is somebody's notes, not a
/// broken plugin.
pub fn is_notes(text: &str) -> (yes: bool)
    ensures
        yes == forall|i: int|
            0 <= i < split(text@, '\n').len() ==> !says_something(
                #[trigger] split(text@, '\n')[i],
            ),
{
    let chars = chars_of(text);
    let lines = split_chars(chars.as_slice(), '\n');
    let ghost all = views(lines@);
    let mut i: usize = 0;
    while i < lines.len()
        invariant
            i <= lines@.len(),
            all == views(lines@),
            all == split(text@, '\n'),
            forall|k: int| 0 <= k < i ==> !says_something(#[trigger] all[k]),
        decreases lines.len() - i,
    {
        assert(all[i as int] == lines@[i as int]@);
        if line_of(&lines[i]).is_some() {
            return false;
        }
        i += 1;
    }
    true
}

/// A line that says something, trimmed.
fn line_of(line: &Vec<char>) -> (text: Option<String>)
    ensures
        match text {
            Some(text) => says_something(line@) && text@ == trim(line@),
            None => !says_something(line@),
        },
{
    let whole = text_between(line.as_slice(), 0, line.len());
    assert(whole@ =~= line@);
    let text = trimmed(whole.as_str());
    if text.as_str().unicode_len() == 0 || text.as_str().get_char(0) == '#' {
        return None;
    }
    Some(text)
}

// ---- what is already known ----------------------------------------------

/// The lines of a stamp file that name a program.
pub open spec fn stamped_in(lines: Seq<Seq<char>>) -> Seq<Seq<char>>
    decreases lines.len(),
{
    if lines.len() == 0 {
        Seq::empty()
    } else if says_something(lines.last()) {
        stamped_in(lines.drop_last()).push(trim(lines.last()))
    } else {
        stamped_in(lines.drop_last())
    }
}

/// The programs already written out, from the stamp file.
pub fn read_stamp(text: &str) -> (programs: Vec<String>)
    ensures
        texts(programs@) == stamped_in(split(text@, '\n')),
{
    let chars = chars_of(text);
    let lines = split_chars(chars.as_slice(), '\n');
    let ghost all = views(lines@);
    let mut programs: Vec<String> = Vec::new();
    let mut i: usize = 0;
    assert(texts(programs@) =~= stamped_in(all.take(0)));
    while i < lines.len()
        invariant
            i <= lines@.len(),
            all == views(lines@),
            texts(programs@) == stamped_in(all.take(i as int)),
        decreases lines.len() - i,
    {
        assert(all.take(i + 1).drop_last() =~= all.take(i as int));
        assert(all.take(i + 1).last() == lines@[i as int]@);
        if let Some(program) = line_of(&lines[i]) {
            programs.push(program);
        }
        i += 1;
    }
    assert(all.take(i as int) =~= all);
    programs
}

/// What a stamp file says of itself.
pub const STAMP_NOTE: &'static str =
    "# Programs newIrisTerminal has written a shell file for. Delete a line to have";

pub const STAMP_NOTE_REST: &'static str = "# its file written again on the next start.";

/// The lines of a stamp file: what it is, and a program a line.
pub open spec fn stamp_lines(programs: Seq<Seq<char>>) -> Seq<Seq<char>> {
    (seq![STAMP_NOTE@, STAMP_NOTE_REST@] + programs).push(Seq::empty())
}

/// The stamp file that names some programs and some more.
pub fn stamp_text(stamped: &Vec<String>, added: &Vec<String>) -> (text: String)
    ensures
        text@ == joined(stamp_lines(texts(stamped@) + texts(added@))),
{
    let mut lines: Vec<String> = Vec::new();
    lines.push(STAMP_NOTE.to_owned());
    lines.push(STAMP_NOTE_REST.to_owned());
    let mut old = copied_strings(stamped);
    let mut new = copied_strings(added);
    let ghost o = old@;
    let ghost n = new@;
    lines.append(&mut old);
    lines.append(&mut new);
    lines.push(String::new());
    assert(texts(lines@) =~= stamp_lines(texts(o) + texts(n)));
    let chars = to_chars(lines.as_slice());
    assert(views(chars@).skip(0) =~= views(chars@));
    let whole = join_from(&chars, 0);
    text_of(whole.as_slice())
}

/// What distinguishes a path where case and the slash do not.
pub open spec fn folded(path: Seq<char>) -> Seq<char> {
    unicode_lower(path).map_values(
        |c: char|
            if c == '\\' {
                '/'
            } else {
                c
            },
    )
}

/// The steps of a path that lead anywhere. A dot does only at the start, where
/// it says that the path is relative.
pub open spec fn steps(pieces: Seq<Seq<char>>) -> Seq<Seq<char>>
    decreases pieces.len(),
{
    if pieces.len() == 0 {
        Seq::empty()
    } else if pieces.last().len() == 0 || (pieces.last() == seq!['.'] && pieces.len() > 1) {
        steps(pieces.drop_last())
    } else {
        steps(pieces.drop_last()).push(pieces.last())
    }
}

/// Whether two paths name the same program: on Windows, case and the direction
/// of a slash say nothing; elsewhere, a path is the steps it takes and whether
/// it starts at the root.
pub open spec fn one_program(a: Seq<char>, b: Seq<char>, windows: bool) -> bool {
    if windows {
        folded(a) == folded(b)
    } else {
        &&& (a.len() > 0 && a[0] == '/') == (b.len() > 0 && b[0] == '/')
        &&& steps(split(a, '/')) == steps(split(b, '/'))
    }
}

fn fold(path: &str) -> (out: Vec<char>)
    ensures
        out@ == folded(path@),
{
    let small = path.to_lowercase();
    let chars = chars_of(small.as_str());
    let ghost want = folded(path@);
    let mut out: Vec<char> = Vec::new();
    let mut i: usize = 0;
    while i < chars.len()
        invariant
            i <= chars@.len(),
            chars@ == unicode_lower(path@),
            want == folded(path@),
            out@ =~= want.take(i as int),
        decreases chars.len() - i,
    {
        let c = chars[i];
        out.push(if c == '\\' {
            '/'
        } else {
            c
        });
        assert(want[i as int] == out@[i as int]);
        i += 1;
    }
    assert(want.take(i as int) =~= want);
    out
}

fn steps_of(path: &Vec<char>) -> (out: Vec<String>)
    ensures
        texts(out@) == steps(split(path@, '/')),
{
    let pieces = split_chars(path.as_slice(), '/');
    let ghost all = views(pieces@);
    let mut out: Vec<String> = Vec::new();
    let mut i: usize = 0;
    assert(texts(out@) =~= steps(all.take(0)));
    while i < pieces.len()
        invariant
            i <= pieces@.len(),
            all == views(pieces@),
            texts(out@) == steps(all.take(i as int)),
        decreases pieces.len() - i,
    {
        assert(all.take(i + 1).drop_last() =~= all.take(i as int));
        assert(all.take(i + 1).last() == pieces@[i as int]@);
        let piece = &pieces[i];
        let dot = piece.len() == 1 && piece[0] == '.';
        assert(dot == (piece@ =~= seq!['.']));
        if piece.len() > 0 && !(dot && i > 0) {
            let text = text_between(piece.as_slice(), 0, piece.len());
            assert(text@ =~= piece@);
            out.push(text);
        }
        i += 1;
    }
    assert(all.take(i as int) =~= all);
    out
}

fn same_texts(a: &Vec<String>, b: &Vec<String>) -> (yes: bool)
    ensures
        yes == (texts(a@) == texts(b@)),
{
    let ghost x = texts(a@);
    let ghost y = texts(b@);
    if a.len() != b.len() {
        assert(x.len() != y.len());
        return false;
    }
    let mut i: usize = 0;
    while i < a.len()
        invariant
            i <= a@.len() == b@.len(),
            x == texts(a@),
            y == texts(b@),
            x.take(i as int) =~= y.take(i as int),
        decreases a.len() - i,
    {
        assert(x[i as int] == a@[i as int]@);
        assert(y[i as int] == b@[i as int]@);
        if !same(a[i].as_str(), b[i].as_str()) {
            return false;
        }
        assert(x.take(i + 1) =~= x.take(i as int).push(x[i as int]));
        assert(y.take(i + 1) =~= y.take(i as int).push(y[i as int]));
        i += 1;
    }
    assert(x.take(i as int) =~= x);
    assert(y.take(i as int) =~= y);
    true
}

/// Whether two paths name the same program, as far as the platform cares.
pub fn same_program(a: &str, b: &str, windows: bool) -> (yes: bool)
    ensures
        yes == one_program(a@, b@, windows),
{
    if windows {
        let x = text_of(fold(a).as_slice());
        let y = text_of(fold(b).as_slice());
        same(x.as_str(), y.as_str())
    } else {
        let x = chars_of(a);
        let y = chars_of(b);
        let x_root = x.len() > 0 && x[0] == '/';
        let y_root = y.len() > 0 && y[0] == '/';
        x_root == y_root && same_texts(&steps_of(&x), &steps_of(&y))
    }
}

// ---- what is found ------------------------------------------------------

/// A shell the platform probes found installed, before it has a file.
pub struct Candidate {
    pub name: String,
    pub program: String,
    pub args: Vec<String>,
}

/// Whether a program is among some.
pub open spec fn among(programs: Seq<Seq<char>>, program: Seq<char>, windows: bool) -> bool {
    exists|i: int|
        0 <= i < programs.len() && one_program(#[trigger] programs[i], program, windows)
}

fn is_among(programs: &Vec<String>, program: &str, windows: bool) -> (yes: bool)
    ensures
        yes == among(texts(programs@), program@, windows),
{
    let ghost all = texts(programs@);
    let mut i: usize = 0;
    while i < programs.len()
        invariant
            i <= programs@.len(),
            all == texts(programs@),
            forall|k: int| 0 <= k < i ==> !one_program(#[trigger] all[k], program@, windows),
        decreases programs.len() - i,
    {
        assert(all[i as int] == programs@[i as int]@);
        if same_program(programs[i].as_str(), program, windows) {
            return true;
        }
        i += 1;
    }
    false
}

/// Which of the shells found are to get a file: those whose program is neither
/// in the stamp nor in a file of the folder.
pub open spec fn new_ones(
    found: Seq<Seq<char>>,
    stamped: Seq<Seq<char>>,
    existing: Seq<Seq<char>>,
    windows: bool,
) -> Seq<int>
    decreases found.len(),
{
    if found.len() == 0 {
        Seq::empty()
    } else {
        let before = new_ones(found.drop_last(), stamped, existing, windows);
        if among(stamped, found.last(), windows) || among(existing, found.last(), windows) {
            before
        } else {
            before.push(found.len() - 1)
        }
    }
}

pub open spec fn programs_of(found: Seq<Candidate>) -> Seq<Seq<char>> {
    found.map_values(|c: Candidate| c.program@)
}

/// Which of the shells found are to get a file.
///
/// Two reasons to skip one: the stamp already names the program (so a file for
/// it was written once, and whether it is still there is the user's business),
/// or a file in the folder already names it (so the user is managing that
/// program by hand).
pub fn to_write(
    found: &Vec<Candidate>,
    stamped: &Vec<String>,
    existing: &Vec<String>,
    windows: bool,
) -> (which: Vec<usize>)
    ensures
        which@.map_values(|i: usize| i as int) == new_ones(
            programs_of(found@),
            texts(stamped@),
            texts(existing@),
            windows,
        ),
        forall|k: int| 0 <= k < which@.len() ==> #[trigger] which@[k] < found@.len(),
{
    let mut which: Vec<usize> = Vec::new();
    let ghost all = programs_of(found@);
    let mut i: usize = 0;
    assert(which@.map_values(|i: usize| i as int) =~= new_ones(
        all.take(0),
        texts(stamped@),
        texts(existing@),
        windows,
    ));
    while i < found.len()
        invariant
            i <= found@.len(),
            all == programs_of(found@),
            which@.map_values(|i: usize| i as int) == new_ones(
                all.take(i as int),
                texts(stamped@),
                texts(existing@),
                windows,
            ),
            forall|k: int| 0 <= k < which@.len() ==> #[trigger] which@[k] < found@.len(),
        decreases found.len() - i,
    {
        assert(all.take(i + 1).drop_last() =~= all.take(i as int));
        assert(all.take(i + 1).last() == found@[i as int].program@);
        let program = found[i].program.as_str();
        if !is_among(stamped, program, windows) && !is_among(existing, program, windows) {
            let ghost before = which@.map_values(|i: usize| i as int);
            which.push(i);
            assert(which@.map_values(|i: usize| i as int) =~= before.push(i as int));
        }
        i += 1;
    }
    assert(all.take(i as int) =~= all);
    which
}

/// The header on a file the app wrote, so it is obvious which is which when the
/// folder is opened.
pub const GENERATED_HEADER: &'static str = "# Written by newIrisTerminal: this shell was found installed on this machine.\n# It is an ordinary shell plugin - rename it, change its arguments, or delete\n# it, and the app will leave your version alone.\n";

/// The file of a shell that was found, around what it declares.
pub fn generated_file(body: &str) -> (text: String)
    ensures
        text@ == GENERATED_HEADER@ + seq!['\n'] + body@,
{
    let mut text = GENERATED_HEADER.to_owned();
    text.push('\n');
    text.append(body);
    assert(text@ =~= GENERATED_HEADER@ + seq!['\n'] + body@);
    text
}

/// What a shell that was found declares.
pub fn declaration(candidate: &Candidate) -> (file: ShellFile)
    ensures
        file.name@ == candidate.name@,
        file.program@ == candidate.program@,
        texts(file.args@) == texts(candidate.args@),
        file.generated,
{
    ShellFile {
        name: candidate.name.clone(),
        program: candidate.program.clone(),
        args: copied_strings(&candidate.args),
        generated: true,
    }
}

// ---- file names ---------------------------------------------------------

/// A name in lower case, with a hyphen for everything but letters and digits.
pub open spec fn hyphened(name: Seq<char>) -> Seq<char> {
    name.map_values(
        |c: char|
            if ascii_alnum(c) {
                lower_char(c)
            } else {
                '-'
            },
    )
}

/// A text without the hyphens it ends with.
pub open spec fn no_end_hyphens(s: Seq<char>) -> Seq<char>
    decreases s.len(),
{
    if s.len() > 0 && s.last() == '-' {
        no_end_hyphens(s.drop_last())
    } else {
        s
    }
}

/// A text without the hyphens it starts with.
pub open spec fn no_start_hyphens(s: Seq<char>) -> Seq<char>
    decreases s.len(),
{
    if s.len() > 0 && s[0] == '-' {
        no_start_hyphens(s.skip(1))
    } else {
        s
    }
}

/// What a file named after a shell is called, without its ending.
pub open spec fn slug_of(name: Seq<char>) -> Seq<char> {
    let slug = no_start_hyphens(no_end_hyphens(hyphened(name)));
    if slug.len() == 0 {
        "shell"@
    } else {
        slug
    }
}

/// The names to try for a file, in order: the slug, and then the slug with a
/// number from two on.
pub open spec fn attempt(slug: Seq<char>, n: int) -> Seq<char> {
    if n <= 0 {
        slug + ".toml"@
    } else {
        slug + seq!['-'] + digits((n + 1) as nat) + ".toml"@
    }
}

fn slug(name: &str) -> (out: String)
    ensures
        out@ == slug_of(name@),
{
    let chars = chars_of(name);
    let ghost want = hyphened(name@);
    let mut out: Vec<char> = Vec::new();
    let mut i: usize = 0;
    while i < chars.len()
        invariant
            i <= chars@.len(),
            chars@ == name@,
            want == hyphened(name@),
            out@ =~= want.take(i as int),
        decreases chars.len() - i,
    {
        let c = chars[i];
        out.push(if is_alnum(c) {
            lower(c)
        } else {
            '-'
        });
        assert(want[i as int] == out@[i as int]);
        i += 1;
    }
    assert(out@ =~= want);
    let mut end = out.len();
    assert(out@.take(end as int) =~= out@);
    while end > 0 && out[end - 1] == '-'
        invariant
            end <= out@.len(),
            no_end_hyphens(out@) == no_end_hyphens(out@.take(end as int)),
        decreases end,
    {
        assert(out@.take(end as int).drop_last() =~= out@.take(end - 1));
        assert(out@.take(end as int).last() == out@[end - 1]);
        end -= 1;
    }
    assert(end > 0 ==> out@.take(end as int).last() == out@[end - 1]);
    let ghost rest = out@.take(end as int);
    assert(no_end_hyphens(out@) == rest);
    let mut start: usize = 0;
    assert(rest.skip(0) =~= rest);
    while start < end && out[start] == '-'
        invariant
            start <= end <= out@.len(),
            rest == out@.take(end as int),
            no_start_hyphens(rest) == no_start_hyphens(rest.skip(start as int)),
        decreases end - start,
    {
        assert(rest.skip(start as int).skip(1) =~= rest.skip(start + 1));
        assert(rest.skip(start as int)[0] == out@[start as int]);
        start += 1;
    }
    assert(start < end ==> rest.skip(start as int)[0] == out@[start as int]);
    if start == end {
        assert(rest.skip(start as int).len() == 0);
        return "shell".to_owned();
    }
    let text = text_between(out.as_slice(), start, end);
    assert(text@ =~= rest.skip(start as int));
    text
}

fn name_of_attempt(slug: &str, n: usize) -> (name: String)
    requires
        n < usize::MAX,
    ensures
        name@ == attempt(slug@, n as int),
{
    let mut name = slug.to_owned();
    if n > 0 {
        name.push('-');
        name.append(decimal(n as u64 + 1).as_str());
    }
    name.append(".toml");
    assert(name@ =~= attempt(slug@, n as int));
    name
}

fn is_taken(taken: &Vec<String>, name: &str) -> (yes: bool)
    ensures
        yes == texts(taken@).contains(name@),
{
    let ghost all = texts(taken@);
    let mut i: usize = 0;
    while i < taken.len()
        invariant
            i <= taken@.len(),
            all == texts(taken@),
            forall|k: int| 0 <= k < i ==> #[trigger] all[k] != name@,
        decreases taken.len() - i,
    {
        assert(all[i as int] == taken@[i as int]@);
        if same(taken[i].as_str(), name) {
            return true;
        }
        i += 1;
    }
    false
}

proof fn attempts_differ(slug: Seq<char>, m: int, n: int)
    requires
        0 <= m < n,
    ensures
        attempt(slug, m) != attempt(slug, n),
{
    let a = attempt(slug, m);
    let b = attempt(slug, n);
    let y = digits((n + 1) as nat);
    what_is_written_is_read((n + 1) as nat, n + 1);
    if m == 0 {
        assert(b.len() > a.len());
    } else {
        let x = digits((m + 1) as nat);
        what_is_written_is_read((m + 1) as nat, n + 1);
        if a == b {
            assert(x.len() == y.len());
            let from = slug.len() + 1;
            assert(a.subrange(from as int, (from + x.len()) as int) =~= x);
            assert(b.subrange(from as int, (from + y.len()) as int) =~= y);
            assert(unsigned(x, n + 1) == unsigned(y, n + 1));
        }
    }
}

/// Among more names than are taken one is free.
proof fn one_is_free(slug: Seq<char>, taken: Seq<Seq<char>>)
    ensures
        exists|n: int| 0 <= n <= taken.len() && !taken.contains(#[trigger] attempt(slug, n)),
{
    if forall|n: int| 0 <= n <= taken.len() ==> taken.contains(#[trigger] attempt(slug, n)) {
        let names = Seq::new(taken.len() + 1, |n: int| attempt(slug, n));
        assert(names.no_duplicates()) by {
            assert forall|i: int, j: int|
                0 <= i < names.len() && 0 <= j < names.len() && i != j implies names[i]
                != names[j] by {
                if i < j {
                    attempts_differ(slug, i, j);
                } else {
                    attempts_differ(slug, j, i);
                }
            }
        }
        names.unique_seq_to_set();
        taken.lemma_cardinality_of_set();
        assert(names.to_set().subset_of(taken.to_set())) by {
            assert forall|name: Seq<char>| names.to_set().contains(name) implies taken.to_set().contains(
                name,
            ) by {
                let i = choose|i: int| 0 <= i < names.len() && names[i] == name;
                assert(taken.contains(attempt(slug, i)));
            }
        }
        vstd::set_lib::lemma_len_subset(names.to_set(), taken.to_set());
        assert(false);
    }
}

/// A file name that nothing is using yet, based on the name of a shell, given
/// the names that are taken.
pub fn free_path(name: &str, taken: &Vec<String>) -> (file: String)
    requires
        taken@.len() < usize::MAX - 1,
    ensures
        exists|n: int|
            {
                &&& 0 <= n
                &&& file@ == #[trigger] attempt(slug_of(name@), n)
                &&& !texts(taken@).contains(file@)
                &&& forall|m: int|
                    0 <= m < n ==> texts(taken@).contains(#[trigger] attempt(slug_of(name@), m))
            },
{
    let slug = slug(name);
    let ghost all = texts(taken@);
    let mut n: usize = 0;
    while n <= taken.len()
        invariant
            n <= taken@.len() + 1,
            taken@.len() < usize::MAX - 1,
            all == texts(taken@),
            slug@ == slug_of(name@),
            forall|m: int| 0 <= m < n ==> all.contains(#[trigger] attempt(slug@, m)),
        decreases taken@.len() + 1 - n,
    {
        let file = name_of_attempt(slug.as_str(), n);
        if !is_taken(taken, file.as_str()) {
            return file;
        }
        n += 1;
    }
    proof {
        one_is_free(slug@, all);
        assert(all.len() == taken@.len());
        let m = choose|m: int| 0 <= m <= all.len() && !all.contains(#[trigger] attempt(slug@, m));
        assert(all.contains(attempt(slug@, m)));
        assert(false);
    }
    slug
}

// ---- probes -------------------------------------------------------------

/// A probe: what to call it, where to look, and how to start it.
pub struct Probe {
    pub name: String,
    /// Tried in order; the first that is a file wins.
    pub paths: Vec<String>,
    pub args: Vec<String>,
}

#[verifier::ext_equal]
pub struct ProbeState {
    pub name: Seq<char>,
    pub paths: Seq<Seq<char>>,
    pub args: Seq<Seq<char>>,
}

impl View for Probe {
    type V = ProbeState;

    open spec fn view(&self) -> ProbeState {
        ProbeState { name: self.name@, paths: texts(self.paths@), args: texts(self.args@) }
    }
}

pub open spec fn probe_views(probes: Seq<Probe>) -> Seq<ProbeState> {
    probes.map_values(|p: Probe| p@)
}

/// Whether a path is a drive and nothing else, which stands for the directory
/// that is current on it.
pub open spec fn bare_drive(dir: Seq<char>) -> bool {
    dir.len() == 2 && ascii_alpha(dir[0]) && dir[1] == ':'
}

/// A path below a directory.
pub open spec fn below(dir: Seq<char>, rest: Seq<char>) -> Seq<char> {
    if dir.len() == 0 || dir.last() == '\\' || dir.last() == '/' || bare_drive(dir) {
        dir + rest
    } else {
        dir.push('\\') + rest
    }
}

fn path_below(dir: &str, rest: &str) -> (path: String)
    ensures
        path@ == below(dir@, rest@),
{
    let mut path = dir.to_owned();
    let n = dir.unicode_len();
    if n > 0 {
        let last = dir.get_char(n - 1);
        let drive = n == 2 && last == ':' && is_alpha(dir.get_char(0));
        if last != '\\' && last != '/' && !drive {
            path.push('\\');
        }
    }
    path.append(rest);
    path
}

fn list1(a: String) -> (list: Vec<String>)
    ensures
        texts(list@) == seq![a@],
{
    let mut list: Vec<String> = Vec::new();
    list.push(a);
    assert(texts(list@) =~= seq![a@]);
    list
}

fn list2(a: String, b: String) -> (list: Vec<String>)
    ensures
        texts(list@) == seq![a@, b@],
{
    let mut list = list1(a);
    list.push(b);
    assert(texts(list@) =~= seq![a@, b@]);
    list
}

fn no_args() -> (list: Vec<String>)
    ensures
        texts(list@) == Seq::<Seq<char>>::empty(),
{
    let list: Vec<String> = Vec::new();
    assert(texts(list@) =~= Seq::<Seq<char>>::empty());
    list
}

/// Where Windows keeps its shells, below the three directories it has.
pub open spec fn windows_shells(root: Seq<char>, pf: Seq<char>, pf86: Seq<char>) -> Seq<ProbeState> {
    let system32 = below(root, "System32"@);
    seq![
        ProbeState {
            name: "Command Prompt"@,
            paths: seq![below(system32, "cmd.exe"@)],
            args: Seq::empty(),
        },
        ProbeState {
            name: "Windows PowerShell"@,
            paths: seq![below(system32, "WindowsPowerShell\\v1.0\\powershell.exe"@)],
            args: seq!["-NoLogo"@],
        },
        ProbeState {
            name: "PowerShell 7"@,
            paths: seq![
                below(pf, "PowerShell\\7\\pwsh.exe"@),
                below(pf, "PowerShell\\6\\pwsh.exe"@),
                below(pf86, "PowerShell\\7\\pwsh.exe"@),
            ],
            args: seq!["-NoLogo"@],
        },
        ProbeState {
            name: "Git Bash"@,
            paths: seq![below(pf, "Git\\bin\\bash.exe"@), below(pf86, "Git\\bin\\bash.exe"@)],
            args: seq!["--login"@, "-i"@],
        },
        ProbeState {
            name: "WSL"@,
            paths: seq![below(system32, "wsl.exe"@)],
            args: Seq::empty(),
        },
    ]
}

/// What to look for on Windows.
pub fn windows_probes(root: &str, pf: &str, pf86: &str) -> (probes: Vec<Probe>)
    ensures
        probe_views(probes@) == windows_shells(root@, pf@, pf86@),
{
    let system32 = path_below(root, "System32");
    let mut probes: Vec<Probe> = Vec::new();
    probes.push(
        Probe {
            name: "Command Prompt".to_owned(),
            paths: list1(path_below(system32.as_str(), "cmd.exe")),
            args: no_args(),
        },
    );
    probes.push(
        Probe {
            name: "Windows PowerShell".to_owned(),
            paths: list1(
                path_below(system32.as_str(), "WindowsPowerShell\\v1.0\\powershell.exe"),
            ),
            // Without it the banner is the first two lines of every session.
            args: list1("-NoLogo".to_owned()),
        },
    );
    let mut paths = list2(
        path_below(pf, "PowerShell\\7\\pwsh.exe"),
        path_below(pf, "PowerShell\\6\\pwsh.exe"),
    );
    paths.push(path_below(pf86, "PowerShell\\7\\pwsh.exe"));
    probes.push(
        Probe { name: "PowerShell 7".to_owned(), paths, args: list1("-NoLogo".to_owned()) },
    );
    probes.push(
        Probe {
            name: "Git Bash".to_owned(),
            paths: list2(
                path_below(pf, "Git\\bin\\bash.exe"),
                path_below(pf86, "Git\\bin\\bash.exe"),
            ),
            // A login shell, which is what reads the Git profile scripts and
            // puts the Git tools on PATH.
            args: list2("--login".to_owned(), "-i".to_owned()),
        },
    );
    probes.push(
        Probe {
            name: "WSL".to_owned(),
            paths: list1(path_below(system32.as_str(), "wsl.exe")),
            args: no_args(),
        },
    );
    proof {
        let have = probe_views(probes@);
        let want = windows_shells(root@, pf@, pf86@);
        assert(have[0] =~= want[0]);
        assert(have[1] =~= want[1]);
        assert(texts(probes@[2].paths@) =~= want[2].paths);
        assert(have[2] =~= want[2]);
        assert(have[3] =~= want[3]);
        assert(have[4] =~= want[4]);
        assert(have =~= want);
    }
    probes
}

/// The shells there usually are elsewhere.
pub const USUAL_SHELLS: [(&'static str, &'static str); 4] = [
    ("Bash", "/bin/bash"),
    ("Zsh", "/bin/zsh"),
    ("Fish", "/usr/bin/fish"),
    ("Sh", "/bin/sh"),
];

/// The shells that a machine lists: its lines that start at the root.
pub open spec fn listed_in(lines: Seq<Seq<char>>) -> Seq<Seq<char>>
    decreases lines.len(),
{
    if lines.len() == 0 {
        Seq::empty()
    } else if trim(lines.last()).len() > 0 && trim(lines.last())[0] == '/' {
        listed_in(lines.drop_last()).push(trim(lines.last()))
    } else {
        listed_in(lines.drop_last())
    }
}

/// The usual shells among the first `n` that a machine lists. One that lists
/// none has them all.
pub open spec fn usual_among(listed: Seq<Seq<char>>, n: int) -> Seq<ProbeState>
    decreases n,
{
    if n <= 0 || n > USUAL_SHELLS@.len() {
        Seq::empty()
    } else {
        let before = usual_among(listed, n - 1);
        let (name, path) = USUAL_SHELLS@[n - 1];
        if listed.len() == 0 || among(listed, path@, false) {
            before.push(ProbeState { name: name@, paths: seq![path@], args: Seq::empty() })
        } else {
            before
        }
    }
}

fn read_listed(text: &str) -> (paths: Vec<String>)
    ensures
        texts(paths@) == listed_in(split(text@, '\n')),
{
    let chars = chars_of(text);
    let lines = split_chars(chars.as_slice(), '\n');
    let ghost all = views(lines@);
    let mut paths: Vec<String> = Vec::new();
    let mut i: usize = 0;
    assert(texts(paths@) =~= listed_in(all.take(0)));
    while i < lines.len()
        invariant
            i <= lines@.len(),
            all == views(lines@),
            texts(paths@) == listed_in(all.take(i as int)),
        decreases lines.len() - i,
    {
        assert(all.take(i + 1).drop_last() =~= all.take(i as int));
        assert(all.take(i + 1).last() == lines@[i as int]@);
        let whole = text_between(lines[i].as_slice(), 0, lines[i].len());
        assert(whole@ =~= lines@[i as int]@);
        let path = trimmed(whole.as_str());
        if path.as_str().unicode_len() > 0 && path.as_str().get_char(0) == '/' {
            paths.push(path);
        }
        i += 1;
    }
    assert(all.take(i as int) =~= all);
    paths
}

/// What to look for elsewhere, given what the machine lists.
///
/// Only what the machine lists, when it lists anything at all: a shell present
/// but not listed is one the system does not offer as a login shell, and
/// offering it here would be second-guessing that.
pub fn unix_probes(listed: &str) -> (probes: Vec<Probe>)
    ensures
        probe_views(probes@) == usual_among(
            listed_in(split(listed@, '\n')),
            USUAL_SHELLS@.len() as int,
        ),
{
    let paths = read_listed(listed);
    let ghost all = texts(paths@);
    let mut probes: Vec<Probe> = Vec::new();
    let mut i: usize = 0;
    assert(probe_views(probes@) =~= usual_among(all, 0));
    while i < USUAL_SHELLS.len()
        invariant
            i <= USUAL_SHELLS@.len(),
            all == texts(paths@),
            probe_views(probes@) == usual_among(all, i as int),
        decreases USUAL_SHELLS.len() - i,
    {
        let (name, path) = USUAL_SHELLS[i];
        if paths.len() == 0 || is_among(&paths, path, false) {
            let probe = Probe {
                name: name.to_owned(),
                paths: list1(path.to_owned()),
                args: no_args(),
            };
            let ghost before = probe_views(probes@);
            let ghost state = probe@;
            probes.push(probe);
            assert(probe_views(probes@) =~= before.push(state));
            assert(state =~= ProbeState { name: name@, paths: seq![path@], args: Seq::empty() });
        }
        assert(all.len() == paths@.len());
        i += 1;
    }
    probes
}

/// The shell a probe finds, given which of its paths are files: the first.
pub fn discover(probe: &Probe, files: &Vec<bool>) -> (found: Option<Candidate>)
    requires
        files@.len() == probe.paths@.len(),
    ensures
        match found {
            Some(found) => {
                &&& found.name@ == probe.name@
                &&& texts(found.args@) == texts(probe.args@)
                &&& exists|i: int|
                    {
                        &&& 0 <= i < files@.len()
                        &&& #[trigger] files@[i]
                        &&& forall|k: int| 0 <= k < i ==> !#[trigger] files@[k]
                        &&& found.program@ == probe.paths@[i]@
                    }
            },
            None => forall|k: int| 0 <= k < files@.len() ==> !#[trigger] files@[k],
        },
{
    let mut i: usize = 0;
    while i < files.len()
        invariant
            i <= files@.len() == probe.paths@.len(),
            forall|k: int| 0 <= k < i ==> !#[trigger] files@[k],
        decreases files.len() - i,
    {
        if files[i] {
            return Some(
                Candidate {
                    name: probe.name.clone(),
                    program: probe.paths[i].clone(),
                    args: copied_strings(&probe.args),
                },
            );
        }
        i += 1;
    }
    None
}

// ---- laws ---------------------------------------------------------------

/// Whether a program comes back from a stamp as it went in: it is one line that
/// is neither blank nor a comment nor blank at an end.
pub open spec fn stampable(program: Seq<char>) -> bool {
    says_something(program) && trim(program) == program && !program.contains('\n')
}

proof fn stamps_are_kept(lines: Seq<Seq<char>>)
    requires
        forall|i: int| 0 <= i < lines.len() ==> stampable(#[trigger] lines[i]),
    ensures
        stamped_in(lines) == lines,
    decreases lines.len(),
{
    if lines.len() > 0 {
        assert(stampable(lines[lines.len() - 1]));
        assert forall|i: int| 0 <= i < lines.len() - 1 implies stampable(
            #[trigger] lines.drop_last()[i],
        ) by {
            assert(stampable(lines[i]));
        }
        stamps_are_kept(lines.drop_last());
        assert(lines.drop_last().push(lines.last()) =~= lines);
    } else {
        assert(lines =~= Seq::empty());
    }
}

proof fn stamping_goes_on(before: Seq<Seq<char>>, more: Seq<Seq<char>>)
    ensures
        stamped_in(before + more) == stamped_in(before) + stamped_in(more),
    decreases more.len(),
{
    if more.len() > 0 {
        stamping_goes_on(before, more.drop_last());
        assert((before + more).drop_last() =~= before + more.drop_last());
        assert(stamped_in(before + more) =~= stamped_in(before) + stamped_in(more));
    } else {
        assert(before + more =~= before);
        assert(stamped_in(before) + stamped_in(more) =~= stamped_in(before));
    }
}

proof fn notes_are_notes(note: Seq<char>)
    requires
        note.len() > 0,
        note[0] == '#',
    ensures
        !says_something(note),
{
    crate::text::trim_keeps_a_solid_start(note);
}

/// What a stamp was written with is what is read from it.
pub proof fn a_stamp_is_read_as_written(programs: Seq<Seq<char>>)
    requires
        forall|i: int| 0 <= i < programs.len() ==> stampable(#[trigger] programs[i]),
    ensures
        stamped_in(split(joined(stamp_lines(programs)), '\n')) == programs,
{
    reveal_strlit("# Programs newIrisTerminal has written a shell file for. Delete a line to have");
    reveal_strlit("# its file written again on the next start.");
    let lines = stamp_lines(programs);
    let head = seq![STAMP_NOTE@, STAMP_NOTE_REST@];
    let tail = seq![Seq::<char>::empty()];
    assert forall|i: int| 0 <= i < lines.len() implies !(#[trigger] lines[i]).contains('\n') by {
        if 2 <= i < lines.len() - 1 {
            assert(lines[i] == programs[i - 2]);
            assert(stampable(programs[i - 2]));
        }
    }
    joined_is_split_again(lines);
    assert(lines =~= head + (programs + tail));
    stamping_goes_on(head, programs + tail);
    stamping_goes_on(programs, tail);
    stamps_are_kept(programs);
    reveal_with_fuel(stamped_in, 3);
    notes_are_notes(STAMP_NOTE@);
    notes_are_notes(STAMP_NOTE_REST@);
    assert(head.drop_last() =~= seq![STAMP_NOTE@]);
    assert(head.drop_last().drop_last() =~= Seq::empty());
    assert(stamped_in(head) =~= Seq::empty());
    assert(tail.drop_last() =~= Seq::empty());
    assert(!says_something(tail[0])) by {
        assert(trim(Seq::<char>::empty()).len() == 0);
    }
    assert(stamped_in(tail) =~= Seq::empty());
    assert(stamped_in(lines) =~= programs);
}

proof fn known_ones_are_skipped(
    found: Seq<Seq<char>>,
    stamped: Seq<Seq<char>>,
    existing: Seq<Seq<char>>,
    windows: bool,
)
    ensures
        forall|k: int|
            0 <= k < new_ones(found, stamped, existing, windows).len() ==> {
                let i = #[trigger] new_ones(found, stamped, existing, windows)[k];
                0 <= i < found.len() && !among(stamped, found[i], windows) && !among(
                    existing,
                    found[i],
                    windows,
                )
            },
    decreases found.len(),
{
    if found.len() > 0 {
        known_ones_are_skipped(found.drop_last(), stamped, existing, windows);
        let before = new_ones(found.drop_last(), stamped, existing, windows);
        let all = new_ones(found, stamped, existing, windows);
        assert forall|k: int| 0 <= k < all.len() implies {
            let i = #[trigger] all[k];
            0 <= i < found.len() && !among(stamped, found[i], windows) && !among(
                existing,
                found[i],
                windows,
            )
        } by {
            if k < before.len() {
                assert(all[k] == before[k]);
                assert(found.drop_last()[before[k]] == found[before[k]]);
            }
        }
    }
}

/// Deleting a file makes it stay deleted: once the stamp has been written with
/// a program in it, no later look writes a file for that program, however it is
/// spelled and whatever is left in the folder.
pub proof fn a_deleted_shell_stays_deleted(
    programs: Seq<Seq<char>>,
    at: int,
    found: Seq<Seq<char>>,
    existing: Seq<Seq<char>>,
    windows: bool,
    k: int,
)
    requires
        forall|i: int| 0 <= i < programs.len() ==> stampable(#[trigger] programs[i]),
        0 <= at < programs.len(),
        0 <= k < new_ones(
            found,
            stamped_in(split(joined(stamp_lines(programs)), '\n')),
            existing,
            windows,
        ).len(),
    ensures
        ({
            let i = new_ones(
                found,
                stamped_in(split(joined(stamp_lines(programs)), '\n')),
                existing,
                windows,
            )[k];
            0 <= i < found.len() && !one_program(programs[at], found[i], windows)
        }),
{
    a_stamp_is_read_as_written(programs);
    known_ones_are_skipped(found, programs, existing, windows);
    let i = new_ones(found, programs, existing, windows)[k];
    assert(!among(programs, found[i], windows));
    assert(!one_program(programs[at], found[i], windows));
}

/// A program that a file of the folder names is the user's to manage: no second
/// file is written for it.
pub proof fn a_declared_program_is_left_alone(
    found: Seq<Seq<char>>,
    stamped: Seq<Seq<char>>,
    existing: Seq<Seq<char>>,
    windows: bool,
    at: int,
    k: int,
)
    requires
        0 <= at < existing.len(),
        0 <= k < new_ones(found, stamped, existing, windows).len(),
    ensures
        ({
            let i = new_ones(found, stamped, existing, windows)[k];
            0 <= i < found.len() && !one_program(existing[at], found[i], windows)
        }),
{
    known_ones_are_skipped(found, stamped, existing, windows);
    let i = new_ones(found, stamped, existing, windows)[k];
    assert(!among(existing, found[i], windows));
    assert(!one_program(existing[at], found[i], windows));
}

proof fn unknown_ones_are_written(
    found: Seq<Seq<char>>,
    stamped: Seq<Seq<char>>,
    existing: Seq<Seq<char>>,
    windows: bool,
    i: int,
)
    requires
        0 <= i < found.len(),
        !among(stamped, found[i], windows),
        !among(existing, found[i], windows),
    ensures
        new_ones(found, stamped, existing, windows).contains(i),
    decreases found.len(),
{
    let all = new_ones(found, stamped, existing, windows);
    let before = new_ones(found.drop_last(), stamped, existing, windows);
    if i == found.len() - 1 {
        assert(all[before.len() as int] == i);
    } else {
        assert(found.drop_last()[i] == found[i]);
        unknown_ones_are_written(found.drop_last(), stamped, existing, windows, i);
        let k = choose|k: int| 0 <= k < before.len() && before[k] == i;
        assert(all[k] == i);
    }
}

/// A shell installed later still gets a file: what counts is the program, not
/// that there has been a look before.
pub proof fn a_shell_installed_later_is_written(
    found: Seq<Seq<char>>,
    stamped: Seq<Seq<char>>,
    existing: Seq<Seq<char>>,
    windows: bool,
    i: int,
)
    requires
        0 <= i < found.len(),
        forall|k: int| 0 <= k < stamped.len() ==> !one_program(#[trigger] stamped[k], found[i], windows),
        forall|k: int|
            0 <= k < existing.len() ==> !one_program(#[trigger] existing[k], found[i], windows),
    ensures
        new_ones(found, stamped, existing, windows).contains(i),
{
    unknown_ones_are_written(found, stamped, existing, windows, i);
}

/// Two attempts at a file name never try the same name.
pub proof fn every_attempt_is_another_name(slug: Seq<char>, m: int, n: int)
    requires
        0 <= m < n,
    ensures
        attempt(slug, m) != attempt(slug, n),
{
    attempts_differ(slug, m, n);
}

} // verus!
