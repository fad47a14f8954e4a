//! What is remembered, logged and typed for a session, with the numbers written
//! out.

use std::time::Instant;
use vstd::prelude::*;
use vstd::utf8::encode_utf8;
use super::autologon::{
    asks_password, asks_username, is_prompt_line, shows_prompt, tail, written_lines, LogonState,
    State,
};
use super::history::{
    back, commands_in, forward, inherited, loaded, recalled, saved, with_recent, without,
    worth_keeping,
};
use super::logging::{cleaned, lines_text, safe_name, says_something, SessionLog, WriteState};
use super::natives::{field, Native};
use crate::config::LogMode;
use crate::objectscript::typed;
use crate::term::state::{GridState, RowState};
use crate::text::{ascii_alnum, joined, occurs, split, trim, trim_end, unicode_lower, white_space};
use crate::text_laws::{a_literal_keeps_the_text, the_last_line};

verus! {

// ---- recalling commands -------------------------------------------------

/// Up begins with the newest command and goes one further back each time, until
/// there is none; Down comes one nearer, and from the newest to the line that
/// was being typed.
pub proof fn up_goes_back_and_down_comes_forward(step: usize, len: usize)
    requires
        step < usize::MAX,
    ensures
        back(None, len) == if len > 0 { Some(Some(0usize)) } else { None },
        back(Some(step), len) == if step + 1 < len { Some(Some((step + 1) as usize)) } else { None },
        forward(None) is None,
        forward(Some(0)) == Some(None::<usize>),
        forward(Some((step + 1) as usize)) == Some(Some(step)),
{
}

/// A command is kept if there is anything of it, up to two thousand bytes.
pub proof fn what_is_worth_keeping(command: Seq<char>)
    requires
        encode_utf8(command).len() <= usize::MAX,
    ensures
        worth_keeping(command) == (command.len() > 0 && encode_utf8(command).len() <= 2000),
{
}

/// A command that is recorded stands last; every other one stays, in its place
/// among the others, as long as there are no more than five hundred.
pub proof fn recording_keeps_the_others(entries: Seq<Seq<char>>, command: Seq<char>)
    requires
        !entries.contains(command),
    ensures
        entries.len() < 500 ==> with_recent(entries, command) == entries.push(command),
        entries.len() >= 500 ==> with_recent(entries, command).len() == 500 && with_recent(
            entries,
            command,
        ) == entries.push(command).skip(entries.len() - 499),
{
    nothing_is_taken_out(entries, command);
    assert(entries.push(command).skip(0) =~= entries.push(command));
}

proof fn nothing_is_taken_out(entries: Seq<Seq<char>>, command: Seq<char>)
    requires
        !entries.contains(command),
    ensures
        without(entries, command) == entries,
    decreases entries.len(),
{
    if entries.len() > 0 {
        assert(entries[entries.len() - 1] == entries.last());
        assert forall|k: int| 0 <= k < entries.drop_last().len() implies entries.drop_last()[k]
            != command by {
            assert(entries[k] != command);
        }
        nothing_is_taken_out(entries.drop_last(), command);
        assert(entries.drop_last().push(entries.last()) =~= entries);
    } else {
        assert(entries =~= Seq::empty());
    }
}

/// A command that is recorded again moves to the end and is there once.
pub proof fn a_repeat_moves_to_the_end(
    before: Seq<Seq<char>>,
    command: Seq<char>,
    after: Seq<Seq<char>>,
)
    requires
        !before.contains(command),
        !after.contains(command),
        before.len() + after.len() < 500,
    ensures
        with_recent(before + seq![command] + after, command) == (before + after).push(command),
{
    taking_out_one(before, command, after);
}

proof fn taking_out_one(before: Seq<Seq<char>>, command: Seq<char>, after: Seq<Seq<char>>)
    requires
        !before.contains(command),
        !after.contains(command),
    ensures
        without(before + seq![command] + after, command) == before + after,
    decreases after.len(),
{
    let all = before + seq![command] + after;
    if after.len() == 0 {
        assert(all.drop_last() =~= before);
        assert(all.last() == command);
        nothing_is_taken_out(before, command);
        assert(before + after =~= before);
    } else {
        assert(all.drop_last() =~= before + seq![command] + after.drop_last());
        assert(all.last() == after.last());
        assert(after[after.len() - 1] != command);
        assert forall|k: int| 0 <= k < after.drop_last().len() implies after.drop_last()[k]
            != command by {
            assert(after[k] != command);
        }
        taking_out_one(before, command, after.drop_last());
        assert((before + after.drop_last()).push(after.last()) =~= before + after);
    }
}

/// Up reaches a session's own commands from the newest to the oldest, and then
/// those of earlier runs the same way.
pub proof fn the_newest_is_recalled_first(earlier: Seq<Seq<char>>, own: Seq<Seq<char>>, i: int)
    requires
        0 <= i < own.len() + earlier.len(),
        forall|k: int| 0 <= k < earlier.len() ==> !own.contains(#[trigger] earlier[k]),
    ensures
        recalled(earlier, own).len() == own.len() + earlier.len(),
        recalled(earlier, own)[i] == if i < own.len() {
            own[own.len() - 1 - i]
        } else {
            earlier[earlier.len() - 1 - (i - own.len())]
        },
{
    all_are_inherited(earlier, own);
}

proof fn all_are_inherited(earlier: Seq<Seq<char>>, own: Seq<Seq<char>>)
    requires
        forall|k: int| 0 <= k < earlier.len() ==> !own.contains(#[trigger] earlier[k]),
    ensures
        inherited(earlier, own) == earlier.reverse(),
    decreases earlier.len(),
{
    if earlier.len() > 0 {
        let rest = earlier.skip(1);
        assert forall|k: int| 0 <= k < rest.len() implies !own.contains(#[trigger] rest[k]) by {
            assert(rest[k] == earlier[k + 1]);
        }
        all_are_inherited(rest, own);
        assert(!own.contains(earlier[0]));
        assert(rest.reverse().push(earlier[0]) =~= earlier.reverse());
    } else {
        assert(inherited(earlier, own) =~= earlier.reverse());
    }
}

/// The file holds one command a line, the oldest first.
pub proof fn the_file_is_a_command_a_line(entries: Seq<Seq<char>>, command: Seq<char>)
    ensures
        entries.len() > 0 ==> saved(entries.push(command)) == joined(entries) + seq!['\n'] + command
            + seq!['\n'],
        saved(seq![command]) == command + seq!['\n'],
{
    assert(entries.push(command).drop_last() =~= entries);
    if entries.len() > 0 {
        assert(saved(entries.push(command)) =~= joined(entries) + seq!['\n'] + command + seq![
            '\n',
        ]);
    }
    assert(saved(seq![command]) =~= command + seq!['\n']);
}

/// No more than five hundred are loaded, the newest of them.
pub proof fn the_newest_are_loaded(text: Seq<char>)
    ensures
        loaded(text).len() <= 500,
        ({
            let all = commands_in(split(text, '\n'));
            loaded(text) == if all.len() > 500 { all.skip(all.len() - 500) } else { all }
        }),
{
}

// ---- logging ------------------------------------------------------------

/// Bytes are logged as they came, the size of the file counts them, and a limit
/// that is reached starts another file; no limit never does.
pub proof fn bytes_are_logged_as_they_came(log: SessionLog, bytes: Seq<u8>)
    requires
        log.mode == LogMode::Raw,
        !log.muted,
        log.written + bytes.len() <= u64::MAX,
    ensures
        log.max_bytes == 0 || log.written < log.max_bytes ==> log.raw(bytes) == (
            SessionLog { written: (log.written + bytes.len()) as u64, ..log },
            WriteState::Append(bytes),
        ),
        log.max_bytes != 0 && log.written >= log.max_bytes ==> log.raw(bytes) == (
            SessionLog { written: bytes.len() as u64, ..log },
            WriteState::Rotate(bytes),
        ),
{
}

/// The lines that are new are logged, each ended by a line feed, and the size
/// counts their bytes and one for each line feed.
pub proof fn a_new_line_is_logged_whole(log: SessionLog, lines: Seq<Seq<char>>)
    requires
        log.mode == LogMode::Clean,
        !log.muted,
        log.max_bytes == 0,
        log.next_line < lines.len() <= usize::MAX,
        encode_utf8(lines[log.next_line as int]).len() <= usize::MAX,
        log.written + encode_utf8(lines[log.next_line as int]).len() + 1 <= u64::MAX,
    ensures
        ({
            let line = lines[log.next_line as int];
            let (after, write) = log.settle(lines, (log.next_line + 1) as usize);
            &&& write == WriteState::Append(encode_utf8(line + seq!['\n']))
            &&& after.next_line == log.next_line + 1
            &&& after.written == log.written + encode_utf8(line).len() + 1
        }),
{
    let n = log.next_line as int;
    reveal_with_fuel(lines_text, 2);
    reveal_with_fuel(super::logging::size_after, 2);
    assert(lines_text(lines, n, n + 1) =~= lines[n] + seq!['\n']);
}

/// Lines follow one another.
pub proof fn logged_lines_follow_one_another(lines: Seq<Seq<char>>, from: int, to: int)
    requires
        0 <= from <= to < lines.len(),
    ensures
        lines_text(lines, from, to + 1) == lines_text(lines, from, to) + lines[to] + seq!['\n'],
        lines_text(lines, from, from) == Seq::<char>::empty(),
{
    assert(lines_text(lines, from, to + 1) =~= lines_text(lines, from, to) + lines[to] + seq![
        '\n',
    ]);
}

/// A file name keeps the letters, the digits, hyphens and underscores of a
/// profile's name, has a hyphen for anything else, and is never nothing.
pub proof fn a_log_name_is_safe(name: Seq<char>, i: int)
    requires
        0 <= i < name.len(),
    ensures
        ({
            let c = name[i];
            let kept = ascii_alnum(c) || c == '-' || c == '_';
            &&& cleaned(name).len() == name.len()
            &&& cleaned(name)[i] == if kept { c } else { '-' }
        }),
        (exists|k: int| 0 <= k < name.len() && (ascii_alnum(#[trigger] name[k]) || name[k] == '_'))
            ==> safe_name(name) == cleaned(name),
        (forall|k: int| 0 <= k < name.len() ==> !ascii_alnum(#[trigger] name[k]) && name[k] != '_')
            ==> safe_name(name) == "session"@,
{
    if exists|k: int| 0 <= k < name.len() && (ascii_alnum(#[trigger] name[k]) || name[k] == '_') {
        let k = choose|k: int|
            0 <= k < name.len() && (ascii_alnum(#[trigger] name[k]) || name[k] == '_');
        assert(cleaned(name)[k] != '-');
        assert(says_something(cleaned(name)));
    }
}

// ---- logging on ---------------------------------------------------------

/// A text asks for a name, or for a password, wherever one of these words stands
/// in it, and not otherwise.
pub proof fn a_prompt_asks(head: Seq<char>, rest: Seq<char>, text: Seq<char>)
    ensures
        asks_username(head + "username:"@ + rest),
        asks_username(head + "user:"@ + rest),
        asks_username(head + "usuário:"@ + rest),
        asks_username(head + "usuario:"@ + rest),
        asks_password(head + "password:"@ + rest),
        asks_password(head + "senha:"@ + rest),
        asks_username(text) ==> text.contains(':'),
        asks_password(text) ==> text.contains(':'),
{
    stands_there(head, "username:"@, rest);
    stands_there(head, "user:"@, rest);
    stands_there(head, "usuário:"@, rest);
    stands_there(head, "usuario:"@, rest);
    stands_there(head, "password:"@, rest);
    stands_there(head, "senha:"@, rest);
    reveal_strlit("username:");
    reveal_strlit("user:");
    reveal_strlit("usuário:");
    reveal_strlit("usuario:");
    reveal_strlit("password:");
    reveal_strlit("senha:");
    a_colon_stands_there(text, "username:"@);
    a_colon_stands_there(text, "user:"@);
    a_colon_stands_there(text, "usuário:"@);
    a_colon_stands_there(text, "usuario:"@);
    a_colon_stands_there(text, "password:"@);
    a_colon_stands_there(text, "senha:"@);
}

proof fn stands_there(head: Seq<char>, pat: Seq<char>, rest: Seq<char>)
    ensures
        occurs(head + pat + rest, pat),
{
    let s = head + pat + rest;
    let n = head.len() as int;
    assert(s.subrange(n, n + pat.len()) =~= pat);
}

proof fn a_colon_stands_there(text: Seq<char>, pat: Seq<char>)
    requires
        pat.len() > 0,
        pat.last() == ':',
    ensures
        occurs(text, pat) ==> text.contains(':'),
{
    if occurs(text, pat) {
        let i = choose|i: int|
            0 <= i && i + pat.len() <= text.len() && #[trigger] text.subrange(i, i + pat.len())
                == pat;
        assert(text.subrange(i, i + pat.len()).last() == text[i + pat.len() - 1]);
        assert(text[i + pat.len() - 1] == ':');
    }
}

/// A last line that is a namespace of up to thirty-two characters and a `>` is a
/// prompt; one with a blank before the `>` is none.
pub proof fn a_namespace_and_a_bracket(head: Seq<char>, name: Seq<char>)
    requires
        1 <= name.len() <= 32,
        forall|i: int|
            0 <= i < name.len() ==> ascii_alnum(#[trigger] name[i]) || name[i] == '%' || name[i]
                == '_' || name[i] == '-' || name[i] == '^',
    ensures
        shows_prompt(name + seq!['>']),
        shows_prompt(head + seq!['\n'] + (name + seq!['>'])),
        !shows_prompt(head + seq!['\n'] + (name + seq![' ', '>'])),
        !shows_prompt(head + seq!['\n'] + name),
{
    let line = name + seq!['>'];
    assert(line.last() == '>');
    assert forall|i: int| 0 <= i < line.len() implies line[i] != '\n' by {
        if i < name.len() {
            assert(line[i] == name[i]);
        }
    }
    the_last_line(head, line);
    assert(trim_end(line) == line);
    assert forall|i: int| 0 <= i < line.len() - 1 implies super::autologon::names_namespace(
        #[trigger] line[i],
    ) by {
        assert(line[i] == name[i]);
    }
    let prose = name + seq![' ', '>'];
    assert forall|i: int| 0 <= i < prose.len() implies prose[i] != '\n' by {
        if i < name.len() {
            assert(prose[i] == name[i]);
        }
    }
    the_last_line(head, prose);
    assert(trim_end(prose) == prose);
    assert(prose[name.len() as int] == ' ');
    assert(!is_prompt_line(prose));
    assert(!name.contains('\n'));
    the_last_line(head, name);
    assert(!white_space(name[name.len() - 1]));
    assert(trim_end(name) == name);
    assert(name[name.len() - 1] != '>');
}

/// What is looked at are the last three lines with something on them, in lower
/// case.
pub proof fn the_last_three_lines_are_read(rows: Seq<RowState>, row: RowState)
    ensures
        trim(row.text()).len() == 0 ==> tail(rows.push(row), 3) == tail(rows, 3),
        trim(row.text()).len() > 0 ==> written_lines(rows.push(row)) == written_lines(rows).push(
            row.text(),
        ),
        ({
            let lines = written_lines(rows);
            let n = lines.len();
            &&& n >= 3 ==> tail(rows, 3) == unicode_lower(
                lines[n - 3] + seq!['\n'] + lines[n - 2] + seq!['\n'] + lines[n - 1],
            )
            &&& n == 1 ==> tail(rows, 3) == unicode_lower(lines[0])
        }),
{
    assert(rows.push(row).drop_last() =~= rows);
    let lines = written_lines(rows);
    let n = lines.len();
    if n >= 3 {
        let last = lines.skip(n - 3);
        let three = seq![lines[n - 3], lines[n - 2], lines[n - 1]];
        assert(last =~= three);
        if n == 3 {
            assert(lines =~= three);
        }
        reveal_with_fuel(joined, 4);
        assert(three.drop_last() =~= seq![lines[n - 3], lines[n - 2]]);
        assert(three.drop_last().drop_last() =~= seq![lines[n - 3]]);
        assert(joined(three) =~= lines[n - 3] + seq!['\n'] + lines[n - 2] + seq!['\n'] + lines[n
            - 1]);
    }
}

/// Name, password and commands are typed in that order, each at its own prompt
/// and within ten seconds of the step before, and each ended by a carriage
/// return.
pub proof fn each_prompt_gets_its_own_answer(
    auto: LogonState,
    grid: GridState,
    waited: int,
    now: Instant,
)
    requires
        grid.revision != auto.last_revision,
        waited <= 10_000_000_000,
    ensures
        ({
            let (after, sent) = auto.observe(grid, waited, now);
            let text = tail(grid.screen, 3);
            &&& auto.state == State::WaitUsername && asks_username(text) ==> after.state
                == State::WaitPassword && sent == Some(auto.username + seq!['\r'])
            &&& auto.state == State::WaitUsername && !asks_username(text) ==> after.state
                == State::WaitUsername && sent is None
            &&& auto.state == State::WaitPassword && asks_password(text) && auto.password is Some
                ==> after.state == State::WaitPrompt && sent == Some(
                auto.password->0 + seq!['\r'],
            )
            &&& auto.state == State::WaitPassword && !asks_password(text) ==> after.state
                == State::WaitPassword && sent is None && after.password == auto.password
            &&& auto.state == State::WaitPrompt && shows_prompt(text) ==> after.state == State::Done
            &&& auto.state == State::WaitPrompt && shows_prompt(text) && auto.post_login.len() > 0
                ==> sent == Some(typed(auto.post_login))
            &&& auto.state == State::WaitPrompt && !shows_prompt(text) ==> after.state
                == State::WaitPrompt && sent is None
        }),
{
    assert(auto.username.push('\r') =~= auto.username + seq!['\r']);
    if auto.password is Some {
        assert(auto.password->0.push('\r') =~= auto.password->0 + seq!['\r']);
    }
}

/// Past ten seconds a step is given up.
pub proof fn a_step_takes_ten_seconds(
    auto: LogonState,
    grid: GridState,
    waited: int,
    now: Instant,
)
    requires
        auto.running(),
    ensures
        waited > 10_000_000_000 ==> auto.observe(grid, waited, now).0.state == State::TimedOut,
        waited <= 10_000_000_000 && grid.revision == auto.last_revision ==> auto.observe(
            grid,
            waited,
            now,
        ).0 == auto,
{
}

// ---- commands that come along -------------------------------------------

/// The lines that the guided commands send, for values without quotes.
pub proof fn a_guided_command_is_what_would_be_typed(
    package: Seq<char>,
    flag: Seq<char>,
    more: Seq<Seq<char>>,
)
    requires
        trim(package) == package,
        trim(flag) == flag,
        !package.contains('"'),
        !flag.contains('"'),
    ensures
        Native::CompileClasses.line(seq![package, flag] + more)
            == "do $SYSTEM.OBJ.CompilePackage("@ + seq!['"'] + package + seq!['"', ',', '"'] + flag
            + seq!['"', ')'],
        Native::GenerateInterface.line(seq![package] + more) == "do ^%CSW1GEN("@ + seq!['"']
            + package + seq!['"', ')'],
        field(Seq::empty(), 0) == Seq::<char>::empty(),
{
    reveal_strlit(",");
    reveal_strlit(")");
    a_literal_keeps_the_text(package, Seq::empty());
    a_literal_keeps_the_text(flag, Seq::empty());
    let two = seq![package, flag] + more;
    let one = seq![package] + more;
    assert(two[0] == package && two[1] == flag && one[0] == package);
    assert(Native::CompileClasses.line(two) =~= "do $SYSTEM.OBJ.CompilePackage("@ + seq!['"']
        + package + seq!['"', ',', '"'] + flag + seq!['"', ')']);
    assert(Native::GenerateInterface.line(one) =~= "do ^%CSW1GEN("@ + seq!['"'] + package + seq![
        '"',
        ')',
    ]);
}

/// A line of the file is a command without the blanks at its end, and a blank line
/// is none.
pub proof fn a_line_of_the_file_is_a_command(lines: Seq<Seq<char>>, line: Seq<char>)
    ensures
        trim_end(line).len() > 0 ==> commands_in(lines.push(line)) == commands_in(lines).push(
            trim_end(line),
        ),
        trim_end(line).len() == 0 ==> commands_in(lines.push(line)) == commands_in(lines),
        commands_in(Seq::<Seq<char>>::empty()).len() == 0,
{
    assert(lines.push(line).drop_last() =~= lines);
}

} // verus!
