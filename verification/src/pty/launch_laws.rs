//! What is started and how, with the command lines written out.

use vstd::prelude::*;

use super::launcher::{
    args_of, cmd_acts_on, dirs_of, escaped, first_file, first_of, given, named_by, named_for,
    names_in, session_on_windows, shell_on_windows, spaced, with_names, Folder, Instance,
    LaunchSpec, Place, Probed,
};
use super::remote::{endpoint_of, opening, RemoteState};
use super::session::{
    at_least, child_of, is_last, is_session, session_of, DrainState, Process, Read, Received, SessionEvent,
};
use crate::text::{behind, digits, first_at, lowered, trim, unicode_lower};
use crate::text_laws::{behind_a_prefix, trimming_takes_off_what_is_around};

verus! {

// ---- arguments ----------------------------------------------------------

/// A session is started in its namespace, by `-U`, and in its routine, if either
/// is given.
pub proof fn the_arguments_of_a_session(spec: LaunchSpec)
    ensures
        given(spec.namespace) is None && given(spec.routine) is None ==> args_of(spec) == Seq::<
            Seq<char>,
        >::empty(),
        given(spec.namespace) is Some && given(spec.routine) is None ==> args_of(spec) == seq![
            "-U"@,
            spec.namespace->0@,
        ],
        given(spec.namespace) is None && given(spec.routine) is Some ==> args_of(spec) == seq![
            spec.routine->0@,
        ],
        given(spec.namespace) is Some && given(spec.routine) is Some ==> args_of(spec) == seq![
            "-U"@,
            spec.namespace->0@,
            spec.routine->0@,
        ],
        given(spec.namespace) is Some <==> (spec.namespace matches Some(s) && s@.len() > 0),
{
    if given(spec.namespace) is None && given(spec.routine) is Some {
        assert(args_of(spec) =~= seq![spec.routine->0@]);
    }
    if given(spec.namespace) is Some && given(spec.routine) is Some {
        assert(args_of(spec) =~= seq!["-U"@, spec.namespace->0@, spec.routine->0@]);
    }
}

/// Whether no character that `cmd` acts on stands in a line without a caret
/// before it.
pub open spec fn guarded(s: Seq<char>) -> bool
    decreases s.len(),
{
    if s.len() == 0 {
        true
    } else if s[0] == '^' {
        s.len() >= 2 && guarded(s.skip(2))
    } else if s[0] == '&' || s[0] == '|' || s[0] == '<' || s[0] == '>' || s[0] == '(' || s[0] == ')'
        || s[0] == '"' {
        false
    } else {
        guarded(s.skip(1))
    }
}

/// An escaped argument holds nothing that `cmd` would act on, and nothing is
/// escaped that need not be.
pub proof fn an_argument_is_guarded(s: Seq<char>)
    ensures
        guarded(escaped(s)),
        (forall|i: int|
            0 <= i < s.len() ==> #[trigger] s[i] != '^' && s[i] != '&' && s[i] != '|' && s[i] != '<'
                && s[i] != '>' && s[i] != '(' && s[i] != ')' && s[i] != '"') ==> escaped(s) == s,
    decreases s.len(),
{
    if s.len() == 0 {
        assert(escaped(s) =~= s);
    } else {
        let head = escaped(s.drop_last());
        an_argument_is_guarded(s.drop_last());
        let c = s.last();
        let tail = if cmd_acts_on(c) {
            seq!['^', c]
        } else {
            seq![c]
        };
        assert(escaped(s) =~= head + tail);
        assert(guarded(tail)) by {
            reveal_with_fuel(guarded, 3);
            assert(seq!['^', c].skip(2) =~= Seq::empty());
            assert(seq![c].skip(1) =~= Seq::empty());
        }
        guarding_goes_on(head, tail);
        if forall|i: int|
            0 <= i < s.len() ==> #[trigger] s[i] != '^' && s[i] != '&' && s[i] != '|' && s[i] != '<'
                && s[i] != '>' && s[i] != '(' && s[i] != ')' && s[i] != '"' {
            assert(s[s.len() - 1] != '^');
            assert forall|i: int| 0 <= i < s.drop_last().len() implies #[trigger] s.drop_last()[i]
                != '^' && s.drop_last()[i] != '&' && s.drop_last()[i] != '|' && s.drop_last()[i]
                != '<' && s.drop_last()[i] != '>' && s.drop_last()[i] != '(' && s.drop_last()[i]
                != ')' && s.drop_last()[i] != '"' by {
                assert(s[i] != '^');
            }
            assert(escaped(s) =~= s);
        }
    }
}

proof fn guarding_goes_on(a: Seq<char>, b: Seq<char>)
    requires
        guarded(a),
        guarded(b),
    ensures
        guarded(a + b),
    decreases a.len(),
{
    if a.len() == 0 {
        assert(a + b =~= b);
    } else if a[0] == '^' {
        assert((a + b)[0] == '^');
        assert((a + b).skip(2) =~= a.skip(2) + b);
        guarding_goes_on(a.skip(2), b);
    } else {
        assert((a + b)[0] == a[0]);
        assert((a + b).skip(1) =~= a.skip(1) + b);
        guarding_goes_on(a.skip(1), b);
    }
}

/// Arguments follow one another, a blank before each.
pub proof fn a_blank_stands_before_each_argument(args: Seq<Seq<char>>, arg: Seq<char>)
    ensures
        spaced(args.push(arg)) == spaced(args) + seq![' '] + escaped(arg),
        spaced(Seq::<Seq<char>>::empty()) == Seq::<char>::empty(),
{
    assert(args.push(arg).drop_last() =~= args);
    assert(spaced(args.push(arg)) =~= spaced(args) + seq![' '] + escaped(arg));
}

/// On Windows a session is started through `cmd`, which first sets the console
/// to UTF-8; the program is named bare, its directory comes first on the path,
/// and the instance is its first argument.
pub proof fn a_session_on_windows(
    exe: Seq<char>,
    place: Place,
    spec: LaunchSpec,
    path: Option<String>,
)
    requires
        given(spec.namespace) is None,
        given(spec.routine) is None,
    ensures
        ({
            let launch = session_on_windows(exe, Some(place), spec, path);
            &&& launch.program == "cmd.exe"@
            &&& launch.args.len() == 3
            &&& launch.args[0] == "/s"@
            &&& launch.args[1] == "/c"@
            &&& launch.args[2] == "chcp 65001>nul & "@ + place.name@ + seq![' '] + escaped(
                spec.instance@,
            )
            &&& launch.term == Some("vt100"@)
            &&& launch.path == Some(
                match path {
                    Some(path) => place.dir@ + seq![';'] + path@,
                    None => place.dir@,
                },
            )
        }),
{
    the_arguments_of_a_session(spec);
    assert(seq![spec.instance@] + args_of(spec) =~= Seq::<Seq<char>>::empty().push(spec.instance@));
    a_blank_stands_before_each_argument(Seq::empty(), spec.instance@);
    let launch = session_on_windows(exe, Some(place), spec, path);
    assert(launch.args[2] =~= "chcp 65001>nul & "@ + place.name@ + seq![' '] + escaped(
        spec.instance@,
    ));
}

/// A shell is started the same way, in its own directory, as a terminal of 256
/// colours.
pub proof fn a_shell_on_windows(
    program: Seq<char>,
    place: Place,
    args: Seq<Seq<char>>,
    path: Option<String>,
    cwd: Option<Seq<char>>,
)
    ensures
        ({
            let launch = shell_on_windows(program, Some(place), args, path, cwd);
            &&& launch.program == "cmd.exe"@
            &&& launch.args.len() == 3
            &&& launch.args[0] == "/s"@
            &&& launch.args[1] == "/c"@
            &&& launch.args[2] == "chcp 65001>nul & "@ + (escaped(place.name@) + spaced(args))
            &&& launch.term == Some("xterm-256color"@)
            &&& launch.cwd == cwd
        }),
        ({
            let launch = shell_on_windows(program, None, args, path, cwd);
            launch.program == program && launch.args == args && launch.term == Some(
                "xterm-256color"@,
            ) && launch.cwd == cwd
        }),
{
}

// ---- finding ------------------------------------------------------------

/// The first path that is a file is taken.
pub proof fn the_first_file_is_taken(candidates: Seq<Probed>, i: int)
    requires
        0 <= i < candidates.len(),
        candidates[i].is_file,
        forall|k: int| 0 <= k < i ==> !(#[trigger] candidates[k]).is_file,
    ensures
        first_file(candidates) == Some(candidates[i].path@),
    decreases i,
{
    if i > 0 {
        assert(!candidates[0].is_file);
        let rest = candidates.skip(1);
        assert(rest[i - 1] == candidates[i]);
        assert forall|k: int| 0 <= k < i - 1 implies !(#[trigger] rest[k]).is_file by {
            assert(rest[k] == candidates[k + 1]);
        }
        the_first_file_is_taken(rest, i - 1);
    }
}

/// The first list with anything in it is taken.
pub proof fn the_first_list_is_taken(lists: Seq<Seq<Seq<char>>>, i: int)
    requires
        0 <= i < lists.len(),
        lists[i].len() > 0,
        forall|k: int| 0 <= k < i ==> (#[trigger] lists[k]).len() == 0,
    ensures
        first_of(lists) == lists[i],
    decreases i,
{
    if i > 0 {
        assert(lists[0].len() == 0);
        let rest = lists.skip(1);
        assert(rest[i - 1] == lists[i]);
        assert forall|k: int| 0 <= k < i - 1 implies (#[trigger] rest[k]).len() == 0 by {
            assert(rest[k] == lists[k + 1]);
        }
        the_first_list_is_taken(rest, i - 1);
    }
}

/// A heading of `iris list` names an instance in quotes, behind either keyword.
pub proof fn an_instance_is_named_in_quotes(name: Seq<char>, rest: Seq<char>)
    requires
        !name.contains('\''),
        rest.len() > 0 ==> !crate::text::white_space(rest.last()),
    ensures
        named_by("Instance "@ + (seq!['\''] + name + seq!['\''] + rest)) == Some(name),
        named_by("Configuration "@ + (seq!['\''] + name + seq!['\''] + rest)) == Some(name),
{
    let quoted = seq!['\''] + name + seq!['\''] + rest;
    reveal_strlit("Instance ");
    reveal_strlit("Configuration ");
    it_stands_alone("Instance "@, quoted);
    it_stands_alone("Configuration "@, quoted);
    behind_a_prefix("Instance "@, quoted, "Configuration "@ + quoted);
    behind_a_prefix("Configuration "@, quoted, "Configuration "@ + quoted);
    assert(("Configuration "@ + quoted)[0] == 'C');
    assert(behind("Configuration "@ + quoted, "Instance "@) is None) by {
        if let Some(r) = behind("Configuration "@ + quoted, "Instance "@) {
            assert(("Instance "@ + r)[0] == 'I');
        }
    }
    the_name_is_quoted(name, rest);
}

proof fn it_stands_alone(keyword: Seq<char>, quoted: Seq<char>)
    requires
        keyword.len() > 0,
        quoted.len() > 0,
        !crate::text::white_space(keyword[0]),
        !crate::text::white_space(quoted[0]),
        !crate::text::white_space(quoted.last()),
    ensures
        trim(keyword + quoted) == keyword + quoted,
        trim(quoted) == quoted,
{
    let nothing = Seq::<char>::empty();
    let line = keyword + quoted;
    assert(line[0] == keyword[0] && line.last() == quoted.last());
    trimming_takes_off_what_is_around(nothing, line, nothing);
    trimming_takes_off_what_is_around(nothing, quoted, nothing);
    assert(nothing + line + nothing =~= line);
    assert(nothing + quoted + nothing =~= quoted);
}

proof fn the_name_is_quoted(name: Seq<char>, rest: Seq<char>)
    requires
        !name.contains('\''),
    ensures
        ({
            let inner = (seq!['\''] + name + seq!['\''] + rest).skip(1);
            first_at(inner, '\'', 0) == Some(name.len() as int) && inner.take(name.len() as int)
                == name
        }),
{
    let inner = (seq!['\''] + name + seq!['\''] + rest).skip(1);
    let n = name.len() as int;
    assert forall|i: int| 0 <= i < n implies #[trigger] inner[i] != '\'' by {
        assert(inner[i] == name[i]);
    }
    assert(inner[n] == '\'');
    the_quote_is_found(inner, 0, n);
    assert(inner.take(n) =~= name);
}

proof fn the_quote_is_found(s: Seq<char>, from: int, at: int)
    requires
        0 <= from <= at < s.len(),
        s[at] == '\'',
        forall|i: int| 0 <= i < at ==> #[trigger] s[i] != '\'',
    ensures
        first_at(s, '\'', from) == Some(at),
    decreases at - from,
{
    if from < at {
        the_quote_is_found(s, from + 1, at);
    }
}

/// The lines of a list name instances one after the other, and a line that names
/// none is passed over.
pub proof fn instances_are_named_in_order(lines: Seq<Seq<char>>, line: Seq<char>)
    ensures
        names_in(lines.push(line)) == match named_by(line) {
            Some(name) => names_in(lines).push(name),
            None => names_in(lines),
        },
{
    assert(lines.push(line).drop_last() =~= lines);
}

/// A name that is not known yet is added with its directory, and one that is
/// known, however it is cased, is not added again.
pub proof fn a_name_is_added_once(
    found: Seq<(Seq<char>, Option<Seq<char>>)>,
    name: Seq<char>,
    bin: Seq<char>,
)
    ensures
        (forall|i: int| 0 <= i < found.len() ==> lowered(#[trigger] found[i].0) != lowered(name))
            ==> with_names(found, seq![name], bin) == found.push((name, Some(bin))),
        (exists|i: int| 0 <= i < found.len() && lowered(#[trigger] found[i].0) == lowered(name))
            ==> with_names(found, seq![name], bin) == found,
{
    reveal_with_fuel(with_names, 2);
    assert(seq![name].drop_last() =~= Seq::empty());
}

/// The directories of an instance are those of the installs with its name, in
/// their order.
pub proof fn an_instance_has_its_own_directories(
    instances: Seq<Instance>,
    one: Instance,
    instance: Seq<char>,
)
    ensures
        dirs_of(instances.push(one), instance) == match one.bin_dir {
            Some(dir) => if lowered(one.name@) == lowered(instance) {
                dirs_of(instances, instance).push(dir@)
            } else {
                dirs_of(instances, instance)
            },
            None => dirs_of(instances, instance),
        },
{
    assert(instances.push(one).drop_last() =~= instances);
}

/// A folder with the session binary and a name is an instance of that name.
pub proof fn a_folder_is_an_instance(folders: Seq<Folder>, folder: Folder)
    ensures
        named_for(folders.push(folder)) == if folder.has_session && folder.name is Some {
            named_for(folders).push((folder.name->0@, Some(folder.bin@)))
        } else {
            named_for(folders)
        },
{
    assert(folders.push(folder).drop_last() =~= folders);
}

// ---- sessions -----------------------------------------------------------

/// A terminal is no smaller than two either way, and otherwise as large as was
/// asked.
pub proof fn a_terminal_is_two_at_least(n: u16)
    ensures
        n >= 2 ==> at_least(n) == n,
        n < 2 ==> at_least(n) == 2,
{
}

/// What is drained is every chunk in the order it came, up to the end or to where
/// there is no more.
pub proof fn chunks_are_drained_in_order(state: DrainState, chunk: Vec<u8>)
    requires
        !state.done,
    ensures
        state.took(Received::Event(SessionEvent::Output(chunk))).bytes == state.bytes + chunk@,
        !state.took(Received::Event(SessionEvent::Output(chunk))).done,
        !state.took(Received::Event(SessionEvent::Output(chunk))).ended || state.ended,
        state.took(Received::Empty).done && state.took(Received::Empty).ended == state.ended,
        state.took(Received::Disconnected).done && state.took(Received::Disconnected).ended,
        state.took(Received::Event(SessionEvent::Closed)).done && state.took(
            Received::Event(SessionEvent::Closed),
        ).ended,
        state.took(Received::Empty).bytes == state.bytes,
{
}

/// The process that is meant is the first session under the shell.
pub proof fn the_session_under_the_shell(processes: Seq<Process>, shell: u32, i: int)
    requires
        0 <= i < processes.len(),
        processes[i].parent == shell,
        super::session::is_session(processes[i].name@),
        forall|k: int|
            0 <= k < i ==> (#[trigger] processes[k]).parent != shell
                || !super::session::is_session(processes[k].name@),
    ensures
        session_of(processes, shell) == Some(processes[i].pid),
    decreases i,
{
    if i > 0 {
        assert(processes[0].parent != shell || !super::session::is_session(processes[0].name@));
        let rest = processes.skip(1);
        assert(rest[i - 1] == processes[i]);
        assert forall|k: int| 0 <= k < i - 1 implies (#[trigger] rest[k]).parent != shell
            || !super::session::is_session(rest[k].name@) by {
            assert(rest[k] == processes[k + 1]);
        }
        the_session_under_the_shell(rest, shell, i - 1);
    }
}

// ---- remote sessions ----------------------------------------------------

/// A remote session opens by offering the terminal type and the window size and
/// by asking for no go-ahead and the echo; its size is reported from then on.
pub proof fn a_remote_session_opens(address: Seq<char>, port: u16, cols: u16, rows: u16)
    ensures
        opening() == seq![
            255u8, 251u8, 24u8, 255u8, 251u8, 31u8, 255u8, 253u8, 3u8, 255u8, 253u8, 1u8,
        ],
        endpoint_of(address, port) == address + seq![':'] + digits(port as nat),
        ({
            let s = RemoteState::opened(address, port, cols, rows);
            &&& s.codec.us[24] && s.codec.us[31] && s.codec.them[3] && s.codec.them[1]
            &&& !s.codec.us[0] && !s.codec.us[3]
            &&& cols >= 2 && rows >= 2 ==> s.codec.size == (cols, rows) && s.cols == cols && s.rows
                == rows
            &&& !s.closed && !s.codec.naws && !s.codec.binary_out
            &&& s.endpoint == address + seq![':'] + digits(port as nat)
        }),
{
}

/// Bytes that are read go through the protocol; an interruption changes nothing;
/// and the end of the stream, or its failure, closes the session.
pub proof fn a_remote_session_hears(s: RemoteState, bytes: Vec<u8>)
    ensures
        bytes@.len() > 0 ==> s.heard(Read::Bytes(bytes)).codec == s.codec.feed(bytes@).codec,
        bytes@.len() > 0 ==> s.heard(Read::Bytes(bytes)).closed == s.closed,
        bytes@.len() == 0 ==> s.heard(Read::Bytes(bytes)).closed,
        s.heard(Read::Interrupted) == s,
        s.heard(Read::Failed).closed,
        s.output(Read::Bytes(bytes)) == s.codec.feed(bytes@).data,
        s.reply(Read::Bytes(bytes)) == s.codec.feed(bytes@).replies,
        bytes@.len() > 0 ==> !is_last(Read::Bytes(bytes)),
        bytes@.len() == 0 ==> is_last(Read::Bytes(bytes)),
        !is_last(Read::Interrupted) && is_last(Read::Failed),
{
}

/// Where a shell started no session, the first process that it did start is taken.
pub proof fn the_first_child_of_the_shell(processes: Seq<Process>, shell: u32, i: int)
    requires
        0 <= i < processes.len(),
        processes[i].parent == shell,
        forall|k: int| 0 <= k < i ==> (#[trigger] processes[k]).parent != shell,
    ensures
        child_of(processes, shell) == Some(processes[i].pid),
    decreases i,
{
    if i > 0 {
        assert(processes[0].parent != shell);
        let rest = processes.skip(1);
        assert(rest[i - 1] == processes[i]);
        assert forall|k: int| 0 <= k < i - 1 implies (#[trigger] rest[k]).parent != shell by {
            assert(rest[k] == processes[k + 1]);
        }
        the_first_child_of_the_shell(rest, shell, i - 1);
    }
}

/// A session goes by the name of either program, however it is cased and whatever
/// follows.
pub proof fn a_session_goes_by_its_name(name: Seq<char>, rest: Seq<char>)
    ensures
        unicode_lower(name) == "irissession"@ + rest ==> is_session(name),
        unicode_lower(name) == "csession"@ + rest ==> is_session(name),
        is_session(name) ==> (exists|r: Seq<char>|
            unicode_lower(name) == "irissession"@ + r || unicode_lower(name) == "csession"@ + r),
{
    let small = unicode_lower(name);
    behind_a_prefix("irissession"@, rest, small);
    behind_a_prefix("csession"@, rest, small);
    if is_session(name) {
        if let Some(r) = behind(small, "irissession"@) {
            assert(small == "irissession"@ + r);
        } else if let Some(r) = behind(small, "csession"@) {
            assert(small == "csession"@ + r);
        }
    }
}

/// A drain begins with nothing, and goes on until it is done.
pub proof fn a_drain_begins_with_nothing()
    ensures
        DrainState::start().bytes.len() == 0,
        !DrainState::start().ended,
        !DrainState::start().done,
{
}

} // verus!
