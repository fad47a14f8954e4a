//! What a plugin hands over, and which shells are offered, written out.

use vstd::prelude::*;

use super::api::{packed, unpacked, Hook};
use super::host::{handed, registered, replacement, Answer, HostState, PassState, Rejected, Stream};
use super::shells::{
    among, attempt, below, folded, hyphened, listed_in, no_end_hyphens, no_start_hyphens,
    offered, one_program, shell_of, shells_of, slug_of, spaced, stamped_in, steps, usual_among,
    windows_shells, Entry, ProbeState, USUAL_SHELLS,
};
use crate::text::{ascii_alnum, digits, lower_char, split, trim, unicode_lower};

verus! {

// ---- what a plugin hands over -------------------------------------------

/// A buffer is packed with its place in the upper half of the number and its
/// length in the lower.
pub proof fn the_place_is_above_the_length(ptr: u32, len: u32)
    ensures
        ptr < 0x8000_0000 ==> packed(ptr, len) == ptr * 4294967296 + len,
        ptr >= 0x8000_0000 ==> packed(ptr, len) == (ptr - 4294967296) * 4294967296 + len,
        unpacked(0) is None,
{
}

/// A replacement is the bytes at that place, as many as its length says; it is
/// refused past eight mebibytes and outside of the plugin's memory.
pub proof fn a_replacement_is_the_bytes_at_its_place(ptr: u32, len: u32, memory: Seq<u8>)
    requires
        ptr < 0x8000_0000,
        ptr != 0 || len != 0,
    ensures
        ({
            let value = (ptr * 4294967296 + len) as i64;
            &&& len <= 8388608 && ptr + len <= memory.len() ==> replacement(value, memory) == Ok::<
                Option<Seq<u8>>,
                Rejected,
            >(Some(memory.subrange(ptr as int, ptr + len)))
            &&& len > 8388608 ==> replacement(value, memory) == Err::<Option<Seq<u8>>, Rejected>(
                Rejected::TooBig(len),
            )
            &&& len <= 8388608 && ptr + len > memory.len() ==> replacement(value, memory) == Err::<
                Option<Seq<u8>>,
                Rejected,
            >(Rejected::OutOfBounds)
        }),
        replacement(0, memory) == Ok::<Option<Seq<u8>>, Rejected>(None),
{
    super::api::pack_and_unpack_are_inverse(ptr, len);
    the_place_is_above_the_length(ptr, len);
}

/// What a plugin hands to the host is read the same way.
pub proof fn what_is_handed_over(ptr: i32, len: i32, memory: Seq<u8>)
    requires
        ptr >= 0,
    ensures
        handed(ptr, len, memory) == if 0 <= len <= 8388608 && ptr + len <= memory.len() {
            Some(memory.subrange(ptr as int, ptr + len))
        } else {
            None
        },
{
}

/// The commands of a plugin are those it registered, in its order.
pub proof fn commands_are_registered_in_order(hooks: Seq<Hook>, hook: Hook)
    ensures
        registered(hooks.push(hook)) == match hook {
            Hook::RegisterCommand(name) => registered(hooks).push(name@),
            _ => registered(hooks),
        },
{
    assert(hooks.push(hook).drop_last() =~= hooks);
}

/// A stream goes to the plugins that rewrite it, in their order: each to the first
/// one behind the last, and what one answers is what the next is handed.
pub proof fn a_stream_goes_from_plugin_to_plugin(
    host: HostState,
    stream: Stream,
    from: int,
    i: int,
    pass: PassState,
    bytes: Vec<u8>,
)
    requires
        0 <= from <= i < host.plugins.len(),
        !host.plugins[i].disabled,
        stream == Stream::Output ==> host.plugins[i].exports.on_output,
        stream == Stream::Input ==> host.plugins[i].exports.on_input,
        forall|k: int|
            from <= k < i ==> (#[trigger] host.plugins[k]).disabled || (stream == Stream::Output
                && !host.plugins[k].exports.on_output) || (stream == Stream::Input
                && !host.plugins[k].exports.on_input),
    ensures
        host.next_rewriting(stream, from) == Some(i),
        pass.after(i, Answer::Replacement(bytes)).current == bytes@,
        pass.after(i, Answer::Replacement(bytes)).from == i + 1,
        pass.after(i, Answer::Replacement(bytes)).stream == pass.stream,
    decreases i - from,
{
    if from < i {
        assert(host.plugins[from].disabled || (stream == Stream::Output
            && !host.plugins[from].exports.on_output) || (stream == Stream::Input
            && !host.plugins[from].exports.on_input));
        a_stream_goes_from_plugin_to_plugin(host, stream, from + 1, i, pass, bytes);
    }
}

/// A command is run by the first plugin that registered it, takes commands and is
/// still called.
pub proof fn a_command_goes_to_who_registered_it(
    host: HostState,
    name: Seq<char>,
    from: int,
    i: int,
)
    requires
        0 <= from <= i < host.plugins.len(),
        !host.plugins[i].disabled,
        host.plugins[i].exports.command,
        host.infos[i].commands.contains(name),
        forall|k: int|
            from <= k < i ==> (#[trigger] host.plugins[k]).disabled
                || !host.plugins[k].exports.command || !host.infos[k].commands.contains(name),
    ensures
        host.next_running(name, from) == Some(i),
    decreases i - from,
{
    if from < i {
        assert(host.plugins[from].disabled || !host.plugins[from].exports.command
            || !host.infos[from].commands.contains(name));
        a_command_goes_to_who_registered_it(host, name, from + 1, i);
    }
}

// ---- shells -------------------------------------------------------------

/// A declaration with a name and a program that is there is offered, under its
/// name without the white space around it; the others are left out.
pub proof fn what_is_there_is_offered(entries: Seq<Entry>, entry: Entry)
    ensures
        ({
            let named = trim(entry.declares.name@).len() > 0 && entry.declares.program@.len() > 0;
            &&& named && entry.there ==> shells_of(entries.push(entry)) == shells_of(entries).push(
                shell_of(entry),
            )
            &&& !named || !entry.there ==> shells_of(entries.push(entry)) == shells_of(entries)
            &&& shell_of(entry).name == trim(entry.declares.name@)
            &&& shell_of(entry).program == entry.declares.program@
            &&& shell_of(entry).file == entry.file@
            &&& shell_of(entry).args == crate::text::texts(entry.declares.args@)
        }),
{
    assert(entries.push(entry).drop_last() =~= entries);
}

/// On Windows two paths are one program if they differ in case or in the kind of
/// their strokes only; elsewhere case counts, and empty steps do not.
pub proof fn paths_that_name_one_program(a: Seq<char>, b: Seq<char>)
    ensures
        one_program(a, a, true) && one_program(a, a, false),
        one_program(a, b, true) == (folded(a) == folded(b)),
        one_program(a, b, true) == one_program(b, a, true),
        one_program(a, b, false) == one_program(b, a, false),
        one_program(a, b, false) ==> steps(split(a, '/')) == steps(split(b, '/')),
        folded(a).len() == unicode_lower(a).len(),
        forall|i: int|
            0 <= i < folded(a).len() ==> #[trigger] folded(a)[i] != '\\' && (folded(a)[i]
                == unicode_lower(a)[i] || (folded(a)[i] == '/' && unicode_lower(a)[i] == '\\')),
{
}

/// Empty steps and single dots in a path say nothing.
pub proof fn steps_that_say_nothing(pieces: Seq<Seq<char>>, step: Seq<char>)
    ensures
        steps(pieces.push(Seq::empty())) == steps(pieces),
        pieces.len() > 0 ==> steps(pieces.push(seq!['.'])) == steps(pieces),
        step.len() > 0 && step != seq!['.'] ==> steps(pieces.push(step)) == steps(pieces).push(
            step,
        ),
{
    assert(pieces.push(Seq::<char>::empty()).drop_last() =~= pieces);
    assert(pieces.push(seq!['.']).drop_last() =~= pieces);
    assert(pieces.push(step).drop_last() =~= pieces);
}

/// A file is named after its shell: letters and digits in lower case, a hyphen
/// for anything else, and no hyphen at either end.
pub proof fn a_file_is_named_after_its_shell(name: Seq<char>, i: int)
    requires
        0 <= i < name.len(),
    ensures
        hyphened(name).len() == name.len(),
        hyphened(name)[i] == if ascii_alnum(name[i]) { lower_char(name[i]) } else { '-' },
        ({
            let slug = slug_of(name);
            &&& slug.len() > 0
            &&& slug[0] != '-'
            &&& slug.last() != '-'
        }),
        (forall|k: int| 0 <= k < name.len() ==> ascii_alnum(#[trigger] name[k])) ==> slug_of(name)
            == hyphened(name),
        attempt(slug_of(name), 0) == slug_of(name) + ".toml"@,
        attempt(slug_of(name), 1) == slug_of(name) + seq!['-', '2'] + ".toml"@,
{
    reveal_strlit("shell");
    let all = hyphened(name);
    the_end_is_no_hyphen(all);
    let cut = no_end_hyphens(all);
    the_start_is_no_hyphen(cut);
    assert(digits(2) =~= seq!['2']);
    assert(attempt(slug_of(name), 1) =~= slug_of(name) + seq!['-', '2'] + ".toml"@);
    if forall|k: int| 0 <= k < name.len() ==> ascii_alnum(#[trigger] name[k]) {
        assert(ascii_alnum(name[name.len() - 1]) && ascii_alnum(name[0]));
        assert(all.last() != '-' && all[0] != '-');
        assert(cut == all);
    }
}

proof fn the_end_is_no_hyphen(s: Seq<char>)
    ensures
        no_end_hyphens(s).len() > 0 ==> no_end_hyphens(s).last() != '-',
    decreases s.len(),
{
    if s.len() > 0 && s.last() == '-' {
        the_end_is_no_hyphen(s.drop_last());
    }
}

proof fn the_start_is_no_hyphen(s: Seq<char>)
    ensures
        no_start_hyphens(s).len() > 0 ==> no_start_hyphens(s)[0] != '-',
        no_start_hyphens(s).len() > 0 && s.last() != '-' ==> no_start_hyphens(s).last() == s.last(),
    decreases s.len(),
{
    if s.len() > 0 && s[0] == '-' {
        the_start_is_no_hyphen(s.skip(1));
        if s.len() > 1 {
            assert(s.skip(1).last() == s.last());
        }
    }
}

/// A path below a directory has one stroke between the two.
pub proof fn one_stroke_before_what_is_below(dir: Seq<char>, rest: Seq<char>)
    requires
        dir.len() > 2,
        dir.last() != '\\' && dir.last() != '/',
    ensures
        below(dir, rest) == dir + seq!['\\'] + rest,
        below(dir + seq!['\\'], rest) == dir + seq!['\\'] + rest,
        below(dir + seq!['/'], rest) == dir + seq!['/'] + rest,
{
    assert(below(dir, rest) =~= dir + seq!['\\'] + rest);
}

/// The shells of Windows are looked for in its own directories, and those that
/// are installed beside it under either folder for programs.
pub proof fn the_shells_of_windows(root: Seq<char>, pf: Seq<char>, pf86: Seq<char>)
    ensures
        ({
            let probes = windows_shells(root, pf, pf86);
            let system32 = below(root, "System32"@);
            &&& probes.len() == 5
            &&& probes[0].name == "Command Prompt"@
            &&& probes[0].paths == seq![below(system32, "cmd.exe"@)]
            &&& probes[0].args == Seq::<Seq<char>>::empty()
            &&& probes[1].name == "Windows PowerShell"@
            &&& probes[1].paths == seq![
                below(system32, "WindowsPowerShell\\v1.0\\powershell.exe"@),
            ]
            &&& probes[1].args == seq!["-NoLogo"@]
            &&& probes[2].name == "PowerShell 7"@
            &&& probes[2].paths == seq![
                below(pf, "PowerShell\\7\\pwsh.exe"@),
                below(pf, "PowerShell\\6\\pwsh.exe"@),
                below(pf86, "PowerShell\\7\\pwsh.exe"@),
            ]
            &&& probes[2].args == seq!["-NoLogo"@]
            &&& probes[3].name == "Git Bash"@
            &&& probes[3].paths == seq![
                below(pf, "Git\\bin\\bash.exe"@),
                below(pf86, "Git\\bin\\bash.exe"@),
            ]
            &&& probes[3].args == seq!["--login"@, "-i"@]
            &&& probes[4].name == "WSL"@
            &&& probes[4].paths == seq![below(system32, "wsl.exe"@)]
        }),
{
}

/// Elsewhere they are Bash, Zsh, Fish and Sh at their usual places, as far as the
/// machine lists them, or all of them where it lists none.
pub proof fn the_usual_shells(listed: Seq<Seq<char>>)
    ensures
        USUAL_SHELLS@[0].0@ == "Bash"@ && USUAL_SHELLS@[0].1@ == "/bin/bash"@,
        USUAL_SHELLS@[1].0@ == "Zsh"@ && USUAL_SHELLS@[1].1@ == "/bin/zsh"@,
        USUAL_SHELLS@[2].0@ == "Fish"@ && USUAL_SHELLS@[2].1@ == "/usr/bin/fish"@,
        USUAL_SHELLS@[3].0@ == "Sh"@ && USUAL_SHELLS@[3].1@ == "/bin/sh"@,
        listed.len() == 0 ==> usual_among(listed, 4).len() == 4,
        among(listed, "/bin/bash"@, false) && !among(listed, "/bin/zsh"@, false) && !among(
            listed,
            "/usr/bin/fish"@,
            false,
        ) && !among(listed, "/bin/sh"@, false) && listed.len() > 0 ==> usual_among(listed, 4)
            == seq![
            ProbeState { name: "Bash"@, paths: seq!["/bin/bash"@], args: Seq::empty() },
        ],
{
    reveal_with_fuel(usual_among, 5);
    if among(listed, "/bin/bash"@, false) && !among(listed, "/bin/zsh"@, false) && !among(
        listed,
        "/usr/bin/fish"@,
        false,
    ) && !among(listed, "/bin/sh"@, false) && listed.len() > 0 {
        assert(usual_among(listed, 4) =~= seq![
            ProbeState { name: "Bash"@, paths: seq!["/bin/bash"@], args: Seq::empty() },
        ]);
    }
}

/// What the machine lists are the lines that begin with a stroke, and what a
/// stamp lists are those that say something and are no notes.
pub proof fn lines_that_count(lines: Seq<Seq<char>>, line: Seq<char>)
    ensures
        listed_in(lines.push(line)) == if trim(line).len() > 0 && trim(line)[0] == '/' {
            listed_in(lines).push(trim(line))
        } else {
            listed_in(lines)
        },
        stamped_in(lines.push(line)) == if trim(line).len() > 0 && trim(line)[0] != '#' {
            stamped_in(lines).push(trim(line))
        } else {
            stamped_in(lines)
        },
        spaced(lines.push(line)) == spaced(lines) + seq![' '] + line,
{
    assert(lines.push(line).drop_last() =~= lines);
    assert(spaced(lines.push(line)) =~= spaced(lines) + seq![' '] + line);
}

/// Behind a drive, and behind nothing, there is no stroke.
pub proof fn no_stroke_behind_a_drive(letter: char, rest: Seq<char>)
    ensures
        ('a' <= letter && letter <= 'z') || ('A' <= letter && letter <= 'Z') ==> below(
            seq![letter, ':'],
            rest,
        ) == seq![letter, ':'] + rest,
        below(Seq::empty(), rest) == rest,
{
    assert(Seq::<char>::empty() + rest =~= rest);
}

} // verus!
