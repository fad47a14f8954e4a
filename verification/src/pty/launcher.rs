//! Resolving how to start an IRIS session on a machine.
//!
//! | Platform | Binary                | Invocation                    |
//! |----------|-----------------------|-------------------------------|
//! | Windows  | `irissession.exe`     | `irissession.exe INSTANCE`    |
//! | Linux    | `iris` (or `csession`)| `iris session INSTANCE`       |
//! | macOS    | `iris` (or `csession`)| `iris session INSTANCE`       |
//!
//! A command is worked out here as plain text, with what was found on disk
//! handed in. Running it is the caller's.

use vstd::prelude::*;

use crate::text::{
    behind, chars_of, copied_option, copied_strings, first_at, find, lowered, lowered_text, same,
    split, split_chars, strip, texts, texts_push, text_between, trim, trimmed, views,
};

verus! {

broadcast use texts_push;

/// An IRIS instance as reported by `iris list` or discovered on disk.
#[derive(Clone, Debug, PartialEq, Eq)]
pub struct Instance {
    pub name: String,
    /// Directory containing the session binary, when known.
    pub bin_dir: Option<String>,
}

/// Everything needed to start one session.
#[derive(Clone, Debug)]
pub struct LaunchSpec {
    pub instance: String,
    /// Namespace to land in. Passed via `-U`; ignored when empty.
    pub namespace: Option<String>,
    /// Routine to run instead of the interactive prompt. Rarely used, but it is
    /// how a profile can open straight into a menu.
    pub routine: Option<String>,
    /// Overrides discovery entirely when the user has a non-standard install.
    pub binary_override: Option<String>,
}

impl Default for LaunchSpec {
    fn default() -> (spec: Self)
        ensures
            spec.instance@ == Seq::<char>::empty(),
            spec.namespace is None,
            spec.routine is None,
            spec.binary_override is None,
    {
        LaunchSpec {
            instance: String::new(),
            namespace: None,
            routine: None,
            binary_override: None,
        }
    }
}

/// A program to start, with what it is given and what it finds in its
/// environment.
pub struct Launch {
    pub program: String,
    pub args: Vec<String>,
    /// The terminal it is told it has.
    pub term: Option<String>,
    /// Where it looks for programs, if not where this one does.
    pub path: Option<String>,
    /// The directory it starts in, when that matters.
    pub cwd: Option<String>,
}

#[verifier::ext_equal]
pub struct LaunchState {
    pub program: Seq<char>,
    pub args: Seq<Seq<char>>,
    pub term: Option<Seq<char>>,
    pub path: Option<Seq<char>>,
    pub cwd: Option<Seq<char>>,
}

impl View for Launch {
    type V = LaunchState;

    open spec fn view(&self) -> LaunchState {
        LaunchState {
            program: self.program@,
            args: texts(self.args@),
            term: crate::text::opt_text(self.term),
            path: crate::text::opt_text(self.path),
            cwd: crate::text::opt_text(self.cwd),
        }
    }
}

/// What a terminal of this kind is called, to IRIS. A VT102-compatible subset
/// is what is understood; claiming more would invite sequences that are not.
pub const TERMINAL: &'static str = "vt100";

/// What it is called to a shell, which looks the name up in a database that no
/// longer has the other entry.
pub const SHELL_TERMINAL: &'static str = "xterm-256color";

// ---- arguments ----------------------------------------------------------

/// A text that counts only if it says something.
pub open spec fn given(s: Option<String>) -> Option<Seq<char>> {
    match s {
        Some(s) if s@.len() > 0 => Some(s@),
        _ => None,
    }
}

pub open spec fn args_of(spec: LaunchSpec) -> Seq<Seq<char>> {
    let namespace = match given(spec.namespace) {
        Some(ns) => seq!["-U"@, ns],
        None => Seq::empty(),
    };
    match given(spec.routine) {
        Some(routine) => namespace.push(routine),
        None => namespace,
    }
}

/// The arguments a session takes after the instance name: the namespace to
/// open in, and a routine to run instead of the prompt.
pub fn session_args(spec: &LaunchSpec) -> (args: Vec<String>)
    ensures
        texts(args@) == args_of(*spec),
{
    let mut args: Vec<String> = Vec::new();
    assert(texts(args@) =~= Seq::<Seq<char>>::empty());
    if let Some(ns) = &spec.namespace {
        if ns.as_str().unicode_len() > 0 {
            args.push("-U".to_owned());
            args.push(ns.clone());
            assert(texts(args@) =~= seq!["-U"@, ns@]);
        }
    }
    if let Some(routine) = &spec.routine {
        if routine.as_str().unicode_len() > 0 {
            args.push(routine.clone());
        }
    }
    args
}

/// Whether `cmd` would act on a character.
pub open spec fn cmd_acts_on(c: char) -> bool {
    c == '^' || c == '&' || c == '|' || c == '<' || c == '>' || c == '(' || c == ')' || c == '"'
}

/// A text with a caret in front of every character that `cmd` would act on.
pub open spec fn escaped(s: Seq<char>) -> Seq<char>
    decreases s.len(),
{
    if s.len() == 0 {
        Seq::empty()
    } else if cmd_acts_on(s.last()) {
        escaped(s.drop_last()).push('^').push(s.last())
    } else {
        escaped(s.drop_last()).push(s.last())
    }
}

/// One argument, safe to put in a command line `cmd` will parse.
///
/// `^` is the character cmd escapes with, and an IRIS routine name starts with
/// one: a profile set to run `^MYROUTINE` would otherwise have the caret eaten
/// on the way through. Quoting is not the alternative it looks like, so every
/// character cmd would act on gets a caret of its own.
///
/// The one thing it cannot do anything about is a space, because a space is not
/// something cmd escapes: it is the delimiter. That is why a program is named
/// bare and its directory put on PATH instead.
pub fn escape_for_cmd(arg: &str) -> (out: String)
    ensures
        out@ == escaped(arg@),
{
    let chars = chars_of(arg);
    let mut out = String::new();
    let mut i: usize = 0;
    while i < chars.len()
        invariant
            i <= chars@.len(),
            out@ == escaped(chars@.take(i as int)),
        decreases chars.len() - i,
    {
        assert(chars@.take(i + 1).drop_last() =~= chars@.take(i as int));
        let c = chars[i];
        if c == '^' || c == '&' || c == '|' || c == '<' || c == '>' || c == '(' || c == ')' || c
            == '"' {
            out.push('^');
        }
        out.push(c);
        i += 1;
    }
    assert(chars@.take(i as int) =~= chars@);
    out
}

/// Arguments, each escaped and behind a space.
pub open spec fn spaced(args: Seq<Seq<char>>) -> Seq<char>
    decreases args.len(),
{
    if args.len() == 0 {
        Seq::empty()
    } else {
        spaced(args.drop_last()).push(' ') + escaped(args.last())
    }
}

fn push_spaced(line: &mut String, args: &Vec<String>)
    ensures
        final(line)@ == old(line)@ + spaced(texts(args@)),
{
    let ghost all = texts(args@);
    let mut i: usize = 0;
    assert(line@ =~= old(line)@ + spaced(all.take(0)));
    while i < args.len()
        invariant
            i <= args@.len(),
            all == texts(args@),
            line@ == old(line)@ + spaced(all.take(i as int)),
        decreases args.len() - i,
    {
        assert(all.take(i + 1).drop_last() =~= all.take(i as int));
        assert(all.take(i + 1).last() == args@[i as int]@);
        let ghost before = line@;
        line.push(' ');
        line.append(escape_for_cmd(args[i].as_str()).as_str());
        assert(line@ =~= old(line)@ + spaced(all.take(i + 1)));
        i += 1;
    }
    assert(all.take(i as int) =~= all);
}

// ---- commands -----------------------------------------------------------

/// A directory in front of the path a program would inherit.
pub open spec fn path_with(dir: Seq<char>, path: Option<String>) -> Seq<char> {
    match path {
        Some(path) => dir + seq![';'] + path@,
        None => dir,
    }
}

fn prepend_to_path(dir: &str, path: &Option<String>) -> (out: String)
    ensures
        out@ == path_with(dir@, *path),
{
    let mut out = dir.to_owned();
    if let Some(path) = path {
        out.push(';');
        out.append(path.as_str());
        assert(out@ =~= dir@ + seq![';'] + path@);
    }
    out
}

/// A line for `cmd` to run with the console in UTF-8.
pub open spec fn cmd_args(line: Seq<char>) -> Seq<Seq<char>> {
    seq!["/s"@, "/c"@, "chcp 65001>nul & "@ + line]
}

/// A line run by `cmd` with the console put into UTF-8 first. `/s` keeps cmd
/// from applying its own quoting rules to what follows, and `>nul` keeps the
/// "Active code page" line off the screen.
fn in_utf8(line: &str) -> (args: Vec<String>)
    ensures
        texts(args@) == cmd_args(line@),
{
    let mut whole = "chcp 65001>nul & ".to_owned();
    whole.append(line);
    let mut args: Vec<String> = Vec::new();
    args.push("/s".to_owned());
    args.push("/c".to_owned());
    args.push(whole);
    assert(texts(args@) =~= cmd_args(line@));
    args
}

/// Where a program is: its file name and the directory it is in.
pub struct Place {
    pub name: String,
    pub dir: String,
}

/// The command that starts a shell where consoles open in some other codepage.
pub open spec fn shell_on_windows(
    program: Seq<char>,
    place: Option<Place>,
    args: Seq<Seq<char>>,
    path: Option<String>,
    cwd: Option<Seq<char>>,
) -> LaunchState {
    match place {
        Some(place) => LaunchState {
            program: "cmd.exe"@,
            args: cmd_args(escaped(place.name@) + spaced(args)),
            term: Some(SHELL_TERMINAL@),
            path: Some(path_with(place.dir@, path)),
            cwd,
        },
        None => LaunchState { program, args, term: Some(SHELL_TERMINAL@), path: None, cwd },
    }
}

/// A shell, with the console put into UTF-8 first.
///
/// The program is named bare, with its directory prepended to PATH, because the
/// command line inside `cmd /c` is one `cmd` parses and a path with a space in
/// it is several words to it. A program that has no directory is started
/// directly, and the console is left on whatever codepage it opened on.
pub fn windows_shell_command(
    program: &str,
    place: &Option<Place>,
    args: &Vec<String>,
    path: &Option<String>,
    cwd: &Option<String>,
) -> (launch: Launch)
    ensures
        launch@ == shell_on_windows(
            program@,
            *place,
            texts(args@),
            *path,
            crate::text::opt_text(*cwd),
        ),
{
    match place {
        Some(place) => {
            let mut line = escape_for_cmd(place.name.as_str());
            push_spaced(&mut line, args);
            Launch {
                program: "cmd.exe".to_owned(),
                args: in_utf8(line.as_str()),
                term: Some(SHELL_TERMINAL.to_owned()),
                path: Some(prepend_to_path(place.dir.as_str(), path)),
                cwd: copied_option(cwd),
            }
        },
        None => unix_shell_command(program, args, cwd),
    }
}

/// A shell where there is nothing to arrange: the terminal is already UTF-8 and
/// the shell reads that from the locale.
pub fn unix_shell_command(program: &str, args: &Vec<String>, cwd: &Option<String>) -> (launch:
    Launch)
    ensures
        launch@ == (LaunchState {
            program: program@,
            args: texts(args@),
            term: Some(SHELL_TERMINAL@),
            path: None,
            cwd: crate::text::opt_text(*cwd),
        }),
{
    Launch {
        program: program.to_owned(),
        args: copied_strings(args),
        term: Some(SHELL_TERMINAL.to_owned()),
        path: None,
        cwd: copied_option(cwd),
    }
}

/// The command that opens a session where consoles open in some other codepage.
pub open spec fn session_on_windows(
    exe: Seq<char>,
    place: Option<Place>,
    spec: LaunchSpec,
    path: Option<String>,
) -> LaunchState {
    match place {
        Some(place) => LaunchState {
            program: "cmd.exe"@,
            args: cmd_args(place.name@ + spaced(seq![spec.instance@] + args_of(spec))),
            term: Some(TERMINAL@),
            path: Some(path_with(place.dir@, path)),
            cwd: None,
        },
        None => LaunchState {
            program: exe,
            args: seq![spec.instance@],
            term: Some(TERMINAL@),
            path: None,
            cwd: None,
        },
    }
}

/// The command that opens a session, with the console put into UTF-8 first.
///
/// A pseudo-console starts on the machine's OEM codepage, and IRIS speaks
/// UTF-8: the console would re-encode the instance's bytes, and an accent would
/// cost a column that only one side of the connection knows about.
pub fn windows_session_command(
    exe: &str,
    place: &Option<Place>,
    spec: &LaunchSpec,
    path: &Option<String>,
) -> (launch: Launch)
    ensures
        launch@ == session_on_windows(exe@, *place, *spec, *path),
{
    let mut args: Vec<String> = Vec::new();
    args.push(spec.instance.clone());
    assert(texts(args@) =~= seq![spec.instance@]);
    match place {
        Some(place) => {
            let mut more = session_args(spec);
            let ghost rest = more@;
            args.append(&mut more);
            assert(texts(args@) =~= seq![spec.instance@] + texts(rest));
            let mut line = place.name.clone();
            push_spaced(&mut line, &args);
            Launch {
                program: "cmd.exe".to_owned(),
                args: in_utf8(line.as_str()),
                term: Some(TERMINAL.to_owned()),
                path: Some(prepend_to_path(place.dir.as_str(), path)),
                cwd: None,
            }
        },
        None => Launch {
            program: exe.to_owned(),
            args,
            term: Some(TERMINAL.to_owned()),
            path: None,
            cwd: None,
        },
    }
}

/// Whether a binary is the one that takes the instance directly.
pub open spec fn is_csession(name: Option<Seq<char>>) -> bool {
    name matches Some(name) && behind(name, "csession"@) is Some
}

/// The command that opens a session where the terminal is already UTF-8.
/// `csession` takes the instance directly; `iris` needs the `session`
/// subcommand first.
pub fn unix_session_command(exe: &str, name: &Option<String>, spec: &LaunchSpec) -> (launch: Launch)
    ensures
        launch@ == (LaunchState {
            program: exe@,
            args: if is_csession(crate::text::opt_text(*name)) {
                seq![spec.instance@] + args_of(*spec)
            } else {
                seq!["session"@, spec.instance@] + args_of(*spec)
            },
            term: Some(TERMINAL@),
            path: None,
            cwd: None,
        }),
{
    let mut args: Vec<String> = Vec::new();
    let direct = match name {
        Some(name) => strip(name.as_str(), "csession").is_some(),
        None => false,
    };
    if !direct {
        args.push("session".to_owned());
    }
    args.push(spec.instance.clone());
    let ghost head = args@;
    let mut more = session_args(spec);
    let ghost rest = more@;
    args.append(&mut more);
    assert(texts(args@) =~= texts(head) + texts(rest));
    assert(direct ==> texts(head) =~= seq![spec.instance@]);
    assert(!direct ==> texts(head) =~= seq!["session"@, spec.instance@]);
    Launch {
        program: exe.to_owned(),
        args,
        term: Some(TERMINAL.to_owned()),
        path: None,
        cwd: None,
    }
}

// ---- finding the binary -------------------------------------------------

/// A path, and whether there is a file at it.
pub struct Probed {
    pub path: String,
    pub is_file: bool,
}

/// The first path that is a file.
pub open spec fn first_file(candidates: Seq<Probed>) -> Option<Seq<char>>
    decreases candidates.len(),
{
    if candidates.len() == 0 {
        None
    } else if candidates[0].is_file {
        Some(candidates[0].path@)
    } else {
        first_file(candidates.skip(1))
    }
}

fn find_file(candidates: &Vec<Probed>) -> (found: Option<String>)
    ensures
        match found {
            Some(found) => first_file(candidates@) == Some(found@),
            None => first_file(candidates@) is None,
        },
{
    let mut i: usize = 0;
    assert(candidates@.skip(0) =~= candidates@);
    while i < candidates.len()
        invariant
            i <= candidates@.len(),
            first_file(candidates@) == first_file(candidates@.skip(i as int)),
        decreases candidates.len() - i,
    {
        assert(candidates@.skip(i as int).skip(1) =~= candidates@.skip(i + 1));
        assert(candidates@.skip(i as int)[0] == candidates@[i as int]);
        if candidates[i].is_file {
            return Some(candidates[i].path.clone());
        }
        i += 1;
    }
    assert(candidates@.skip(i as int).len() == 0);
    None
}

/// Locates a binary by trying an explicit override, then a list of candidates,
/// then its bare name, which is looked up on PATH.
///
/// An override that is not there is an error rather than a reason to go on: the
/// message to show is returned.
pub fn find_binary(configured: &Option<Probed>, candidates: &Vec<Probed>, name: &str) -> (path:
    Result<String, String>)
    ensures
        match path {
            Ok(path) => match *configured {
                Some(there) => there.is_file && path@ == there.path@,
                None => path@ == match first_file(candidates@) {
                    Some(found) => found,
                    None => name@,
                },
            },
            Err(why) => {
                &&& *configured matches Some(there)
                &&& !there.is_file
                &&& why@ == "configured IRIS binary not found: "@ + there.path@
            },
        },
{
    if let Some(there) = configured {
        return if there.is_file {
            Ok(there.path.clone())
        } else {
            let mut why = "configured IRIS binary not found: ".to_owned();
            why.append(there.path.as_str());
            Err(why)
        };
    }
    match find_file(candidates) {
        Some(found) => Ok(found),
        None => Ok(name.to_owned()),
    }
}

/// The directories to look in for an instance: those of the instances with its
/// name, whatever their case, and then the usual ones.
pub open spec fn dirs_of(instances: Seq<Instance>, instance: Seq<char>) -> Seq<Seq<char>>
    decreases instances.len(),
{
    if instances.len() == 0 {
        Seq::empty()
    } else {
        let before = dirs_of(instances.drop_last(), instance);
        match instances.last().bin_dir {
            Some(dir) if lowered(instances.last().name@) == lowered(instance) => before.push(dir@),
            _ => before,
        }
    }
}

/// Where to look for the binary of an instance: prefer the directory of the one
/// that was asked for, so a machine with several installs uses the matching
/// binary.
pub fn search_dirs(instances: &Vec<Instance>, instance: &str, roots: &Vec<String>) -> (dirs: Vec<
    String,
>)
    ensures
        texts(dirs@) == dirs_of(instances@, instance@) + texts(roots@),
{
    let wanted = lowered_text(instance);
    let mut dirs: Vec<String> = Vec::new();
    let mut i: usize = 0;
    assert(texts(dirs@) =~= dirs_of(instances@.take(0), instance@));
    while i < instances.len()
        invariant
            i <= instances@.len(),
            wanted@ == lowered(instance@),
            texts(dirs@) == dirs_of(instances@.take(i as int), instance@),
        decreases instances.len() - i,
    {
        assert(instances@.take(i + 1).drop_last() =~= instances@.take(i as int));
        if let Some(dir) = &instances[i].bin_dir {
            if same(lowered_text(instances[i].name.as_str()).as_str(), wanted.as_str()) {
                dirs.push(dir.clone());
            }
        }
        i += 1;
    }
    assert(instances@.take(i as int) =~= instances@);
    let ghost head = dirs@;
    let mut rest = copied_strings(roots);
    let ghost tail = rest@;
    dirs.append(&mut rest);
    assert(texts(dirs@) =~= texts(head) + texts(tail));
    dirs
}

// ---- instances ----------------------------------------------------------

/// What a line names an instance with.
pub open spec fn heading(line: Seq<char>) -> Option<Seq<char>> {
    let line = trim(line);
    if behind(line, "Instance "@) is Some {
        behind(line, "Instance "@)
    } else {
        behind(line, "Configuration "@)
    }
}

/// The instance a line of `iris list` names.
pub open spec fn named_by(line: Seq<char>) -> Option<Seq<char>> {
    match heading(line) {
        Some(rest) => {
            let rest = trim(rest);
            if rest.len() > 0 && rest[0] == '\'' {
                match first_at(rest.skip(1), '\'', 0) {
                    Some(end) => Some(rest.skip(1).take(end)),
                    None => None,
                }
            } else {
                None
            }
        },
        None => None,
    }
}

/// The instances that the lines of a list name, in their order.
pub open spec fn names_in(lines: Seq<Seq<char>>) -> Seq<Seq<char>>
    decreases lines.len(),
{
    if lines.len() == 0 {
        Seq::empty()
    } else {
        let before = names_in(lines.drop_last());
        match named_by(lines.last()) {
            Some(name) => before.push(name),
            None => before,
        }
    }
}

fn name_in(line: &Vec<char>) -> (name: Option<String>)
    ensures
        match name {
            Some(name) => named_by(line@) == Some(name@),
            None => named_by(line@) is None,
        },
{
    let whole = text_between(line.as_slice(), 0, line.len());
    assert(whole@ =~= line@);
    let line = trimmed(whole.as_str());
    let rest = match strip(line.as_str(), "Instance ") {
        Some(rest) => rest,
        None => match strip(line.as_str(), "Configuration ") {
            Some(rest) => rest,
            None => {
                return None;
            },
        },
    };
    let rest = trimmed(rest.as_str());
    let chars = chars_of(rest.as_str());
    if chars.len() == 0 || chars[0] != '\'' {
        return None;
    }
    let quoted = text_between(chars.as_slice(), 1, chars.len());
    assert(quoted@ =~= chars@.skip(1));
    let inner = chars_of(quoted.as_str());
    match find(inner.as_slice(), '\'') {
        Some(end) => {
            let name = text_between(inner.as_slice(), 0, end);
            assert(name@ =~= inner@.take(end as int));
            Some(name)
        },
        None => None,
    }
}

/// `iris list` prints one stanza per instance, headed by a quoted name.
///
/// The keyword varies by version and install type: standard installs say
/// `Instance 'NAME'`, while 2023+ custom installs say `Configuration 'NAME'`.
/// Both must be recognised, because the directory name is not merely less
/// precise, it is often wrong.
pub fn parse_iris_list(text: &str) -> (names: Vec<String>)
    ensures
        texts(names@) == names_in(split(text@, '\n')),
{
    let chars = chars_of(text);
    let lines = split_chars(chars.as_slice(), '\n');
    let ghost all = views(lines@);
    let mut names: Vec<String> = Vec::new();
    let mut i: usize = 0;
    assert(texts(names@) =~= names_in(all.take(0)));
    while i < lines.len()
        invariant
            i <= lines@.len(),
            all == views(lines@),
            texts(names@) == names_in(all.take(i as int)),
        decreases lines.len() - i,
    {
        assert(all.take(i + 1).drop_last() =~= all.take(i as int));
        assert(all.take(i + 1).last() == lines@[i as int]@);
        if let Some(name) = name_in(&lines[i]) {
            names.push(name);
        }
        i += 1;
    }
    assert(all.take(i as int) =~= all);
    names
}

/// Whether an instance of a name is known, whatever its case.
pub open spec fn knows(found: Seq<Instance>, name: Seq<char>) -> bool {
    exists|i: int| 0 <= i < found.len() && lowered((#[trigger] found[i]).name@) == lowered(name)
}

fn is_known(found: &Vec<Instance>, name: &str) -> (yes: bool)
    ensures
        yes == knows(found@, name@),
{
    let wanted = lowered_text(name);
    let mut i: usize = 0;
    while i < found.len()
        invariant
            i <= found@.len(),
            wanted@ == lowered(name@),
            forall|k: int|
                0 <= k < i ==> lowered((#[trigger] found@[k]).name@) != lowered(name@),
        decreases found.len() - i,
    {
        if same(lowered_text(found[i].name.as_str()).as_str(), wanted.as_str()) {
            return true;
        }
        i += 1;
    }
    false
}

/// Some instances and the ones that a list names besides, all in one directory:
/// a name is taken once, as it is first spelled.
pub open spec fn with_names(
    found: Seq<(Seq<char>, Option<Seq<char>>)>,
    names: Seq<Seq<char>>,
    bin: Seq<char>,
) -> Seq<(Seq<char>, Option<Seq<char>>)>
    decreases names.len(),
{
    if names.len() == 0 {
        found
    } else {
        let before = with_names(found, names.drop_last(), bin);
        if listed(before, names.last()) {
            before
        } else {
            before.push((names.last(), Some(bin)))
        }
    }
}

pub open spec fn listed(found: Seq<(Seq<char>, Option<Seq<char>>)>, name: Seq<char>) -> bool {
    exists|i: int| 0 <= i < found.len() && lowered(#[trigger] found[i].0) == lowered(name)
}

/// Instances as plain text.
pub open spec fn instance_texts(found: Seq<Instance>) -> Seq<(Seq<char>, Option<Seq<char>>)> {
    found.map_values(|i: Instance| (i.name@, crate::text::opt_text(i.bin_dir)))
}

proof fn known_is_listed(found: Seq<Instance>, name: Seq<char>)
    ensures
        knows(found, name) == listed(instance_texts(found), name),
{
    let plain = instance_texts(found);
    if knows(found, name) {
        let i = choose|i: int|
            0 <= i < found.len() && lowered((#[trigger] found[i]).name@) == lowered(name);
        assert(plain[i].0 == found[i].name@);
    }
    if listed(plain, name) {
        let i = choose|i: int| 0 <= i < plain.len() && lowered(#[trigger] plain[i].0) == lowered(name);
        assert(plain[i].0 == found[i].name@);
    }
}

/// Adds the instances that `iris list` names, as run in a directory.
pub fn add_listed(found: &mut Vec<Instance>, list: &str, bin: &str)
    ensures
        instance_texts(final(found)@) == with_names(
            instance_texts(old(found)@),
            names_in(split(list@, '\n')),
            bin@,
        ),
{
    let names = parse_iris_list(list);
    let ghost all = texts(names@);
    let ghost start = instance_texts(found@);
    let mut i: usize = 0;
    while i < names.len()
        invariant
            i <= names@.len(),
            all == texts(names@),
            instance_texts(found@) == with_names(start, all.take(i as int), bin@),
        decreases names.len() - i,
    {
        assert(all.take(i + 1).drop_last() =~= all.take(i as int));
        assert(all.take(i + 1).last() == names@[i as int]@);
        proof {
            known_is_listed(found@, names@[i as int]@);
        }
        if !is_known(found, names[i].as_str()) {
            let ghost before = instance_texts(found@);
            let name = names[i].clone();
            let ghost text = name@;
            found.push(Instance { name, bin_dir: Some(bin.to_owned()) });
            assert(instance_texts(found@) =~= before.push((text, Some(bin@))));
        }
        i += 1;
    }
    assert(all.take(i as int) =~= all);
}

/// The names that the first directory with any lists.
pub open spec fn first_of(lists: Seq<Seq<Seq<char>>>) -> Seq<Seq<char>>
    decreases lists.len(),
{
    if lists.len() == 0 {
        Seq::empty()
    } else if lists[0].len() > 0 {
        lists[0]
    } else {
        first_of(lists.skip(1))
    }
}

/// Lists of names as plain text.
pub open spec fn list_texts(lists: Seq<Vec<String>>) -> Seq<Seq<Seq<char>>> {
    lists.map_values(|names: Vec<String>| texts(names@))
}

/// What the directories list, in the order in which they were looked in: the
/// first one that lists anything is believed, and the others are not asked.
pub fn first_found(found: &Vec<Vec<String>>) -> (names: Vec<String>)
    ensures
        texts(names@) == first_of(list_texts(found@)),
{
    let ghost all = list_texts(found@);
    let mut i: usize = 0;
    assert(all.skip(0) =~= all);
    while i < found.len()
        invariant
            i <= found@.len(),
            all == list_texts(found@),
            first_of(all) == first_of(all.skip(i as int)),
        decreases found.len() - i,
    {
        assert(all.skip(i as int)[0] == texts(found@[i as int]@));
        assert(all.skip(i as int).skip(1) =~= all.skip(i + 1));
        if found[i].len() > 0 {
            return copied_strings(&found[i]);
        }
        i += 1;
    }
    let names: Vec<String> = Vec::new();
    assert(texts(names@) =~= Seq::empty());
    names
}

/// A directory that an install may be in: the name of the folder, if it has one,
/// the `bin` below it, and whether the session binary is there.
pub struct Folder {
    pub name: Option<String>,
    pub bin: String,
    pub has_session: bool,
}

/// The instances that folders are named for: those that hold the session binary
/// and have a name, in their order.
pub open spec fn named_for(folders: Seq<Folder>) -> Seq<(Seq<char>, Option<Seq<char>>)>
    decreases folders.len(),
{
    if folders.len() == 0 {
        Seq::empty()
    } else {
        let before = named_for(folders.drop_last());
        match folders.last().name {
            Some(name) if folders.last().has_session => before.push(
                (name@, Some(folders.last().bin@)),
            ),
            _ => before,
        }
    }
}

/// The instances to offer where no directory lists any: each install directory
/// is usually named for its instance.
pub fn folder_instances(folders: &Vec<Folder>) -> (found: Vec<Instance>)
    ensures
        instance_texts(found@) == named_for(folders@),
{
    let mut found: Vec<Instance> = Vec::new();
    let mut i: usize = 0;
    assert(instance_texts(found@) =~= named_for(folders@.take(0)));
    while i < folders.len()
        invariant
            i <= folders@.len(),
            instance_texts(found@) == named_for(folders@.take(i as int)),
        decreases folders.len() - i,
    {
        assert(folders@.take(i + 1).drop_last() =~= folders@.take(i as int));
        if let Some(name) = &folders[i].name {
            if folders[i].has_session {
                let ghost before = instance_texts(found@);
                let name = name.clone();
                let bin = folders[i].bin.clone();
                let ghost text = (name@, Some(bin@));
                found.push(Instance { name, bin_dir: Some(bin) });
                assert(instance_texts(found@) =~= before.push(text));
            }
        }
        i += 1;
    }
    assert(folders@.take(i as int) =~= folders@);
    found
}

// ---- laws ---------------------------------------------------------------

/// What `cmd` makes of a line it parses: a caret goes, and the character behind
/// it is taken as it is.
pub open spec fn cmd_reads(s: Seq<char>) -> Seq<char>
    decreases s.len(),
{
    if s.len() == 0 {
        Seq::empty()
    } else if s[0] == '^' {
        if s.len() == 1 {
            Seq::empty()
        } else {
            seq![s[1]] + cmd_reads(s.skip(2))
        }
    } else {
        seq![s[0]] + cmd_reads(s.skip(1))
    }
}

/// Whether a text has a caret in front of every character that `cmd` acts on.
spec fn settled(s: Seq<char>) -> bool
    decreases s.len(),
{
    if s.len() == 0 {
        true
    } else if s[0] == '^' {
        s.len() >= 2 && settled(s.skip(2))
    } else {
        settled(s.skip(1))
    }
}

proof fn reading_goes_on(s: Seq<char>, t: Seq<char>)
    requires
        settled(s),
    ensures
        cmd_reads(s + t) == cmd_reads(s) + cmd_reads(t),
        settled(t) ==> settled(s + t),
    decreases s.len(),
{
    if s.len() == 0 {
        assert(s + t =~= t);
        assert(cmd_reads(s) + cmd_reads(t) =~= cmd_reads(t));
    } else if s[0] == '^' {
        reading_goes_on(s.skip(2), t);
        assert((s + t).skip(2) =~= s.skip(2) + t);
        assert((s + t)[1] == s[1]);
        assert(cmd_reads(s + t) =~= cmd_reads(s) + cmd_reads(t));
    } else {
        reading_goes_on(s.skip(1), t);
        assert((s + t).skip(1) =~= s.skip(1) + t);
        assert(cmd_reads(s + t) =~= cmd_reads(s) + cmd_reads(t));
    }
}

/// What `cmd` reads of an escaped argument is the argument.
pub proof fn cmd_reads_what_was_meant(s: Seq<char>)
    ensures
        cmd_reads(escaped(s)) == s,
{
    escaping_is_undone(s);
}

proof fn escaping_is_undone(s: Seq<char>)
    ensures
        cmd_reads(escaped(s)) == s,
        settled(escaped(s)),
    decreases s.len(),
{
    if s.len() > 0 {
        escaping_is_undone(s.drop_last());
        reveal_with_fuel(cmd_reads, 3);
        reveal_with_fuel(settled, 3);
        let head = escaped(s.drop_last());
        let tail = if cmd_acts_on(s.last()) {
            seq!['^', s.last()]
        } else {
            seq![s.last()]
        };
        assert(escaped(s) =~= head + tail);
        reading_goes_on(head, tail);
        assert(tail.skip(tail.len() as int) =~= Seq::<char>::empty());
        assert(cmd_reads(tail) =~= seq![s.last()]);
        assert(settled(tail));
        assert(s.drop_last() + seq![s.last()] =~= s);
    } else {
        assert(cmd_reads(escaped(s)) =~= s);
    }
}

proof fn names_differ(
    found: Seq<(Seq<char>, Option<Seq<char>>)>,
    names: Seq<Seq<char>>,
    bin: Seq<char>,
)
    requires
        all_differ(found),
    ensures
        all_differ(with_names(found, names, bin)),
    decreases names.len(),
{
    if names.len() > 0 {
        names_differ(found, names.drop_last(), bin);
    }
}

/// Whether no two instances have the same name.
pub open spec fn all_differ(found: Seq<(Seq<char>, Option<Seq<char>>)>) -> bool {
    forall|i: int, j: int|
        0 <= i < j < found.len() ==> lowered(#[trigger] found[i].0) != lowered(
            #[trigger] found[j].0,
        )
}

/// No instance is listed twice, however many directories list it and however
/// they spell it.
pub proof fn no_instance_is_found_twice(
    found: Seq<(Seq<char>, Option<Seq<char>>)>,
    list: Seq<char>,
    bin: Seq<char>,
)
    requires
        all_differ(found),
    ensures
        all_differ(with_names(found, names_in(split(list, '\n')), bin)),
{
    names_differ(found, names_in(split(list, '\n')), bin);
}

/// The directory a program is in never reaches the line that `cmd` parses, so a
/// space in it does not split the line.
pub proof fn the_directory_stays_off_the_line(
    exe: Seq<char>,
    here: Place,
    there: Place,
    spec: LaunchSpec,
    args: Seq<Seq<char>>,
    path: Option<String>,
    cwd: Option<Seq<char>>,
)
    requires
        here.name@ == there.name@,
    ensures
        session_on_windows(exe, Some(here), spec, path).args == session_on_windows(
            exe,
            Some(there),
            spec,
            path,
        ).args,
        shell_on_windows(exe, Some(here), args, path, cwd).args == shell_on_windows(
            exe,
            Some(there),
            args,
            path,
            cwd,
        ).args,
{
}

} // verus!
