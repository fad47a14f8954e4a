//! What the smaller decisions come to, function by function.

use vstd::prelude::*;
use vstd::utf8::encode_utf8;
use super::analyze::{candidate, next_attempt, Claim, Next, Scope};
use super::autologon::{LogonState, State};
use super::logging::{is_stale, retention, rotated_name, SessionLog, Write, WriteState};
use super::macros::{Macro, Origin};
use super::natives::Native;
use super::snake::{read_high, SnakeState};
use super::update::{
    asset_marker, build_among, is_newer, old_path, proxy_spec, read_release, staged_path, verdict,
    whole, without_v, Event, NoRelease, Platform, Published, Release,
};
use crate::config::{LogMode, Profile};
use crate::i18n::Lang;
use crate::i18n_laws::{
    a_placeholder_is_filled_where_it_stands, two_placeholders_are_filled_in_order,
};
use crate::number::{unsigned, what_is_written_is_read};
use crate::objectscript::literal;
use crate::plugins::shells::{attempt, free_path, is_notes, slug_of, Shell};
use crate::pty::launcher::{
    find_binary, unix_session_command, unix_shell_command, Launch, LaunchSpec, Probed,
};
use crate::pty::session::{
    is_wrapper, line_bytes, local_reaction, settled_size, size_change, started, Reaction, Read,
    SessionEvent,
};
use crate::term::cell::{Cell, Pen};
use crate::term::encoding::Encoding;
use crate::term::grid::Grid;
use crate::term::lineedit::LineEdit;
use crate::text::{digits, opt_text, split, texts, trim, unicode_lower};
use crate::text_laws::{solid, trimming_takes_off_what_is_around};

verus! {

// ---- logs ---------------------------------------------------------------

/// Logs are kept for so many days of 86400 seconds each, or for good.
pub proof fn how_long_logs_are_kept(days: u32, secs: Option<u64>)
    requires
        call_ensures(retention, (days,), secs),
    ensures
        days == 0 ==> secs is None,
        days > 0 ==> secs == Some((days * 86400) as u64),
{
}

/// Only a log is stale, and only one that was last written before the cutoff.
pub proof fn which_files_are_stale(
    extension: Option<&str>,
    modified: u64,
    cutoff: u64,
    yes: bool,
)
    requires
        call_ensures(is_stale, (extension, modified, cutoff), yes),
    ensures
        yes ==> modified < cutoff && extension is Some && extension->0@ == "log"@,
        modified >= cutoff ==> !yes,
        extension is None ==> !yes,
        modified < cutoff && extension is Some && extension->0@ == "log"@ ==> yes,
{
}

/// A note of the terminal's own stands on a line of its own between marks, in any
/// log that is on.
pub proof fn a_note_stands_between_marks(log: &SessionLog, stamp: &str, note: &str, write: Write)
    requires
        call_ensures(SessionLog::write_note, (log, stamp, note), write),
    ensures
        log.mode == LogMode::Off ==> write@ == WriteState::Nothing,
        log.mode != LogMode::Off ==> write@ == WriteState::Append(
            encode_utf8("\n=== "@ + stamp@ + seq![' '] + note@ + " ===\n"@),
        ),
{
}

/// A log goes on in a file that is named after the one before and the moment.
pub proof fn a_log_goes_on_under_its_name(stem: &str, stamp: &str, name: String)
    requires
        call_ensures(rotated_name, (stem, stamp), name),
    ensures
        name@ == stem@ + seq!['-'] + stamp@ + ".log"@,
{
}

// ---- updates ------------------------------------------------------------

/// A download of less than a million bytes is not whole.
pub proof fn when_a_download_is_whole(copied: u64, size: Result<u64, String>)
    requires
        call_ensures(whole, (copied,), size),
    ensures
        copied >= 1_000_000 <==> size is Ok,
        size matches Ok(n) ==> n == copied,
        size matches Err(why) ==> why@ == "the download stopped after "@ + digits(copied as nat)
            + " bytes"@,
{
}

/// A platform's build is told by its mark.
pub proof fn the_mark_of_a_platform(platform: Platform, marker: &str)
    requires
        call_ensures(asset_marker, (platform,), marker),
    ensures
        platform == Platform::Windows ==> marker@ == ".exe"@,
        platform == Platform::MacOs ==> marker@ == "macos"@,
        platform == Platform::Other ==> marker@ == "linux"@,
{
}

/// The build that is coming and the one that goes stand beside the executable.
pub proof fn builds_stand_beside_the_executable(exe: &str, staged: String, old: String)
    requires
        call_ensures(staged_path, (exe,), staged),
        call_ensures(old_path, (exe,), old),
    ensures
        staged@ == exe@ + ".new"@,
        old@ == exe@ + ".old"@,
        staged@ != old@,
{
    reveal_strlit(".new");
    reveal_strlit(".old");
    let n = exe@.len() as int;
    assert(staged@[n + 1] == 'n' && old@[n + 1] == 'o');
}

/// A release is offered if it is newer than this build, and a check that failed
/// says why.
pub proof fn what_a_check_comes_to(
    latest: Result<Release, String>,
    current: &str,
    version: &str,
    newer: bool,
    event: Event,
)
    requires
        call_ensures(verdict, (latest, current), event),
        latest matches Ok(release) ==> version@ == release.version@,
        call_ensures(is_newer, (version, current), newer),
    ensures
        latest matches Ok(release) ==> if newer {
            event == Event::Available(release)
        } else {
            event == Event::UpToDate
        },
        latest matches Err(why) ==> event == Event::Failed(why),
{
}

/// A proxy is reached as `user:password@host`, or by its host alone.
pub proof fn how_a_proxy_is_reached(
    host: &str,
    user: String,
    password: String,
    with: String,
    without: String,
)
    requires
        call_ensures(proxy_spec, (host, Some((user, password))), with),
        call_ensures(proxy_spec, (host, None), without),
    ensures
        with@ == trim(user@) + seq![':'] + password@ + seq!['@'] + trim(host@),
        without@ == trim(host@),
{
}

// ---- sessions -----------------------------------------------------------

/// A line is sent with a carriage return behind it, and no line feed.
pub proof fn a_line_ends_in_a_carriage_return(text: &str, bytes: Vec<u8>)
    requires
        call_ensures(line_bytes, (text,), bytes),
    ensures
        bytes@ == encode_utf8(text@) + seq![13u8],
{
    assert(bytes@ =~= encode_utf8(text@) + seq![13u8]);
}

/// A size that is the size already is no change, and a terminal is two at least
/// either way.
pub proof fn when_a_size_changes(
    now: (u16, u16),
    cols: u16,
    rows: u16,
    size: Option<(u16, u16)>,
    settled: (u16, u16),
)
    requires
        call_ensures(size_change, (now, cols, rows), size),
        call_ensures(settled_size, (cols, rows), settled),
        cols >= 2,
        rows >= 2,
    ensures
        settled == (cols, rows),
        now == (cols, rows) ==> size is None,
        now != (cols, rows) ==> size == Some((cols, rows)),
{
}

/// What a local session says goes on as it came; its end closes it, and a signal
/// in between is nothing.
pub proof fn what_a_local_session_says(read: Read, reaction: Reaction)
    requires
        call_ensures(local_reaction, (read,), reaction),
    ensures
        reaction.reply@.len() == 0,
        read matches Read::Bytes(bytes) ==> (bytes@.len() > 0 ==> reaction.again
            && reaction.event is Some && (reaction.event->0 matches SessionEvent::Output(chunk)
            ==> chunk@ == bytes@)),
        read matches Read::Bytes(bytes) ==> (bytes@.len() == 0 ==> !reaction.again
            && reaction.event == Some(SessionEvent::Closed)),
        read is Failed ==> !reaction.again && reaction.event == Some(SessionEvent::Closed),
        read is Interrupted ==> reaction.again && reaction.event is None,
{
}

/// A session is started by `iris session` and its instance, or by `csession` and
/// its instance; its namespace and routine follow.
pub proof fn how_a_session_is_started(
    exe: &str,
    name: &Option<String>,
    spec: &LaunchSpec,
    launch: Launch,
)
    requires
        call_ensures(unix_session_command, (exe, name, spec), launch),
        spec.namespace is None,
        spec.routine is None,
        name is Some,
    ensures
        launch@.program == exe@,
        launch@.term == Some("vt100"@),
        name->0@ == "iris"@ ==> launch@.args == seq!["session"@, spec.instance@],
        name->0@ == "csession"@ ==> launch@.args == seq![spec.instance@],
{
    reveal_strlit("iris");
    reveal_strlit("csession");
    let args = crate::pty::launcher::args_of(*spec);
    assert(args =~= Seq::<Seq<char>>::empty());
    assert(seq!["session"@, spec.instance@] + args =~= seq!["session"@, spec.instance@]);
    assert(seq![spec.instance@] + args =~= seq![spec.instance@]);
    assert("csession"@.take(8) =~= "csession"@);
    assert("iris"@.len() < "csession"@.len());
}

/// A shell is started as it is declared, where it is declared, in 256 colours.
pub proof fn how_a_shell_is_started(
    program: &str,
    args: &Vec<String>,
    cwd: &Option<String>,
    launch: Launch,
)
    requires
        call_ensures(unix_shell_command, (program, args, cwd), launch),
    ensures
        launch@.program == program@,
        launch@.args == texts(args@),
        launch@.term == Some("xterm-256color"@),
        launch@.cwd == opt_text(*cwd),
        launch@.path is None,
{
}

/// A binary that is configured is the one, or an error where it is not there; else
/// the first candidate that is there, and else its bare name.
pub proof fn which_binary_is_started(
    configured: &Option<Probed>,
    candidates: &Vec<Probed>,
    name: &str,
    path: Result<String, String>,
    i: int,
)
    requires
        call_ensures(find_binary, (configured, candidates, name), path),
        0 <= i < candidates@.len(),
        candidates@[i].is_file,
        forall|k: int| 0 <= k < i ==> !(#[trigger] candidates@[k]).is_file,
    ensures
        *configured matches Some(there) ==> (there.is_file ==> path is Ok && path->Ok_0@
            == there.path@),
        *configured matches Some(there) ==> (!there.is_file ==> path is Err),
        *configured is None ==> path is Ok && path->Ok_0@ == candidates@[i].path@,
{
    crate::pty::launch_laws::the_first_file_is_taken(candidates@, i);
}

/// A session behind `cmd` is told by the program's name, whatever its case.
pub proof fn what_stands_in_front_of_a_session(program: &str, yes: bool)
    requires
        call_ensures(is_wrapper, (program,), yes),
    ensures
        unicode_lower(program@) == "cmd.exe"@ ==> yes,
        yes ==> unicode_lower(program@).len() >= 7,
{
    reveal_strlit("cmd.exe");
    assert("cmd.exe"@.skip(0) =~= "cmd.exe"@);
}

// ---- captures and games -------------------------------------------------

/// Ninety-nine names are tried.
pub proof fn how_often_a_name_is_tried(attempt: u32, claim: Claim, next: Next)
    requires
        call_ensures(next_attempt, (attempt, claim), next),
    ensures
        claim == Claim::Made ==> next == Next::Done,
        claim == Claim::Failed ==> next == Next::Fail,
        claim == Claim::Taken && attempt < 99 ==> next == Next::Try((attempt + 1) as u32),
        claim == Claim::Taken && attempt >= 99 ==> next == Next::GiveUp,
{
}

/// The best score is the number in its file, and none where there is no number.
pub proof fn which_score_is_the_best(text: Option<&str>, high: u32, n: u32)
    requires
        call_ensures(read_high, (text,), high),
    ensures
        text is None ==> high == 0,
        text is Some && text->0@ == digits(n as nat) ==> high == n,
        text is Some && text->0@ == digits(n as nat) + seq!['\n'] ==> high == n,
        text is Some && unsigned(trim(text->0@), u32::MAX as int) is None ==> high == 0,
{
    what_is_written_is_read(n as nat, u32::MAX as int);
    number_is_solid(n as nat);
    let nothing = Seq::<char>::empty();
    trimming_takes_off_what_is_around(nothing, digits(n as nat), nothing);
    trimming_takes_off_what_is_around(nothing, digits(n as nat), seq!['\n']);
    assert(nothing + digits(n as nat) + nothing =~= digits(n as nat));
    assert(nothing + digits(n as nat) + seq!['\n'] =~= digits(n as nat) + seq!['\n']);
}

proof fn number_is_solid(n: nat)
    ensures
        solid(digits(n)),
    decreases n,
{
    if n >= 10 {
        number_is_solid(n / 10);
        assert(digits(n)[0] == digits(n / 10)[0]);
    }
}

/// A login is made for a profile that asks for it and has a name to log on with,
/// and waits for the prompt of that name first.
pub proof fn when_a_login_is_made(profile: &Profile, yes: bool)
    requires
        call_ensures(Profile::autologon_ready, (profile,), yes),
    ensures
        yes == (profile.autologon && profile.username@.len() > 0),
        forall|password: Option<Seq<char>>, now: std::time::Instant|
            (#[trigger] LogonState::fresh(*profile, password, now)).state == if profile.autologon
                && profile.username@.len() > 0 {
                State::WaitUsername
            } else {
                State::Inactive
            },
        forall|password: Option<Seq<char>>, now: std::time::Instant|
            (#[trigger] LogonState::fresh(*profile, password, now)).username == profile.username@,
{
}

// ---- profiles -----------------------------------------------------------

/// What a local session says is UTF-8; what a remote one says is whatever its
/// profile names.
pub proof fn what_is_on_the_wire(profile: &Profile, encoding: Encoding)
    requires
        call_ensures(Profile::wire_encoding, (profile,), encoding),
    ensures
        profile.remote is None ==> encoding == Encoding::Utf8,
        profile.remote is Some ==> encoding == profile.encoding,
{
}

/// A profile is a shell's if it names one.
pub proof fn which_profiles_are_shells(profile: &Profile, yes: bool)
    requires
        call_ensures(Profile::is_shell, (profile,), yes),
    ensures
        profile.shell is Some ==> yes,
        profile.shell is None ==> !yes,
{
}

/// A session is started in the instance and the namespace of its profile.
pub proof fn where_a_session_starts(profile: &Profile, spec: LaunchSpec)
    requires
        call_ensures(Profile::launch_spec, (profile,), spec),
    ensures
        spec.instance@ == profile.instance@,
        spec.namespace is Some && spec.namespace->0@ == profile.namespace@,
        spec.routine is None && spec.binary_override is None,
{
}

// ---- names --------------------------------------------------------------

/// What encodings, languages, helpers and macros go by.
pub proof fn what_things_are_called(
    encoding: Encoding,
    a: &'static str,
    lang: Lang,
    b: &'static str,
    native: Native,
    c: &'static str,
    origin: Origin,
    d: &'static str,
)
    requires
        call_ensures(Encoding::label, (encoding,), a),
        call_ensures(Lang::label, (lang,), b),
        call_ensures(Native::label, (native,), c),
        call_ensures(Origin::label, (origin,), d),
    ensures
        encoding == Encoding::Utf8 ==> a@ == "UTF-8"@,
        encoding == Encoding::Cp850 ==> a@ == "CP850 (DOS Western)"@,
        encoding == Encoding::Cp1252 ==> a@ == "Windows-1252"@,
        encoding == Encoding::Latin1 ==> a@ == "ISO 8859-1"@,
        lang == Lang::En ==> b@ == "English"@,
        lang == Lang::PtBr ==> b@ == "Português (Brasil)"@,
        native == Native::CompileClasses ==> c@ == "Compile classes"@,
        native == Native::GenerateInterface ==> c@ == "Generate interface"@,
        origin == Origin::Organization ==> d@ == "Organization"@,
        origin == Origin::Personal ==> d@ == "Personal"@,
{
}

/// Where a shell comes from.
pub proof fn where_a_shell_comes_from(shell: &Shell, label: &'static str)
    requires
        call_ensures(Shell::source_label, (shell,), label),
    ensures
        shell.generated ==> label@ == "found on this machine"@,
        !shell.generated ==> label@ == "declared"@,
{
}

/// What is started, said in words.
pub proof fn what_was_started(instance: &str, what: String)
    requires
        call_ensures(started, (instance,), what),
    ensures
        what@ == "IRIS session for instance "@ + instance@,
{
}

/// Only a personal macro can be edited, only one with parameters asks, and only
/// one scope is the selection.
pub proof fn what_can_be_edited_and_asked(
    origin: Origin,
    edits: bool,
    m: &Macro,
    asks: bool,
    scope: Scope,
    selects: bool,
)
    requires
        call_ensures(Origin::is_editable, (origin,), edits),
        call_ensures(Macro::needs_input, (m,), asks),
        call_ensures(Scope::is_selection, (scope,), selects),
    ensures
        edits == (origin == Origin::Personal),
        m@.params.len() == 0 ==> !asks,
        m@.params.len() > 0 ==> asks,
        selects == (scope == Scope::Selection),
{
}

/// A helper is sent as one line, with its values quoted, and says what it did with
/// them.
pub proof fn what_a_helper_sends(a: Seq<char>, b: Seq<char>, values: Seq<Seq<char>>)
    requires
        values.len() >= 2,
        trim(values[0]) == a,
        trim(values[1]) == b,
    ensures
        Native::CompileClasses.line(values) == "do $SYSTEM.OBJ.CompilePackage("@ + literal(a)
            + ","@ + literal(b) + ")"@,
        Native::GenerateInterface.line(values) == "do ^%CSW1GEN("@ + literal(a) + ")"@,
        Native::CompileClasses.said(Lang::En, values) == "Compile classes: "@ + a + " (flag "@ + b
            + ")"@,
        Native::GenerateInterface.said(Lang::En, values) == "Generate interface: "@ + a,
        Native::CompileClasses.asked() == seq![("Package"@, ""@), ("Flag"@, "bkf1"@)],
        Native::GenerateInterface.asked() == seq![("Routine/Group"@, ""@)],
{
    reveal_strlit("Compile classes: {} (flag {})");
    reveal_strlit("Compile classes: ");
    reveal_strlit(" (flag ");
    reveal_strlit(")");
    reveal_strlit("Generate interface: {}");
    reveal_strlit("Generate interface: ");
    let hole = seq!['{', '}'];
    let nothing = Seq::<char>::empty();
    two_placeholders_are_filled_in_order("Compile classes: "@, a, " (flag "@, b, ")"@);
    assert("Compile classes: {} (flag {})"@ =~= "Compile classes: "@ + hole + " (flag "@ + hole
        + ")"@);
    a_placeholder_is_filled_where_it_stands("Generate interface: "@, a, nothing);
    assert("Generate interface: {}"@ =~= "Generate interface: "@ + hole + nothing);
    assert("Generate interface: "@ + a + nothing =~= "Generate interface: "@ + a);
}

// ---- the game, a release, a file ----------------------------------------

/// A record is beaten by a better score, and not by the same one.
pub proof fn when_a_record_is_beaten(game: SnakeState)
    ensures
        game.score > game.record ==> game.beats_the_record(),
        game.score <= game.record ==> !game.beats_the_record(),
{
}

/// A release is its tag without the letter in front, and is of no use without a
/// tag or a build.
pub proof fn what_a_release_is(
    published: &Published,
    marker: &str,
    release: Result<Release, NoRelease>,
    number: Seq<char>,
)
    requires
        call_ensures(read_release, (published, marker), release),
        number.len() > 0 ==> number[0] != 'v' && number[0] != 'V',
        published.tag is Some ==> published.tag->0@ == number || published.tag->0@ == seq!['v']
            + number || published.tag->0@ == seq!['V'] + number,
    ensures
        published.tag is None ==> release is Err && release->Err_0 is NoTag,
        published.tag is Some && build_among(published.assets@, marker@) is None ==> release is Err
            && (release->Err_0 matches NoRelease::NoBuild(version) && version@ == number),
        published.tag is Some && build_among(published.assets@, marker@) is Some ==> release is Ok
            && release->Ok_0.version@ == number && Some(
            (release->Ok_0.download@, release->Ok_0.size),
        ) == build_among(published.assets@, marker@),
        release is Ok && published.notes is None ==> release->Ok_0.notes@.len() == 0,
        release is Ok && published.notes is Some ==> release->Ok_0.notes@ == trim(
            published.notes->0@,
        ),
{
    reveal_with_fuel(without_v, 3);
    assert((seq!['v'] + number).skip(1) =~= number);
    assert((seq!['V'] + number).skip(1) =~= number);
}

/// A file is notes if each of its lines is blank or begins with a number sign.
pub proof fn which_files_are_notes(text: &str, yes: bool, i: int)
    requires
        call_ensures(is_notes, (text,), yes),
        0 <= i < split(text@, '\n').len(),
    ensures
        yes ==> trim(split(text@, '\n')[i]).len() == 0 || trim(split(text@, '\n')[i])[0] == '#',
        (forall|k: int|
            0 <= k < split(text@, '\n').len() ==> trim(#[trigger] split(text@, '\n')[k]).len() == 0
                || trim(split(text@, '\n')[k])[0] == '#') ==> yes,
{
    let lines = split(text@, '\n');
    assert(lines[i] == split(text@, '\n')[i]);
}

/// A file that is written has a name that no file has.
pub proof fn a_new_file_has_a_new_name(name: &str, taken: &Vec<String>, file: String)
    requires
        call_ensures(free_path, (name, taken), file),
    ensures
        !texts(taken@).contains(file@),
        !texts(taken@).contains(slug_of(name@) + ".toml"@) ==> file@ == slug_of(name@) + ".toml"@,
        texts(taken@).contains(slug_of(name@) + ".toml"@) && !texts(taken@).contains(
            slug_of(name@) + "-2.toml"@,
        ) ==> file@ == slug_of(name@) + "-2.toml"@,
{
    let slug = slug_of(name@);
    let n = choose|n: int|
        {
            &&& 0 <= n
            &&& file@ == #[trigger] attempt(slug, n)
            &&& !texts(taken@).contains(file@)
            &&& forall|m: int| 0 <= m < n ==> texts(taken@).contains(#[trigger] attempt(slug, m))
        };
    assert(attempt(slug, 0) == slug + ".toml"@);
    reveal_strlit(".toml");
    reveal_strlit("-2.toml");
    assert(digits(2) =~= seq!['2']);
    assert(attempt(slug, 1) =~= slug + "-2.toml"@);
}

// ---- the terminal -------------------------------------------------------

/// A terminal has the lines of its history and those of its screen.
pub proof fn how_many_lines_there_are(grid: &Grid, lines: usize)
    requires
        call_ensures(Grid::total_lines, (grid,), lines),
    ensures
        lines == grid@.scrollback.len() + grid@.rows,
{
}

/// A resize is being repainted for the half second after it.
pub proof fn how_long_a_repaint_lasts(grid: &Grid, nanos: u128, yes: bool)
    requires
        call_ensures(Grid::repainting_after, (grid, nanos), yes),
    ensures
        yes == (grid@.resized_at is Some && nanos < 500_000_000),
{
}

/// The cursor is at the end of a line that it is not inside of.
pub proof fn when_the_cursor_is_at_the_end(line: LineEdit, yes: bool)
    requires
        call_ensures(LineEdit::at_end, (line,), yes),
    ensures
        line.cursor < line.end ==> !yes,
        line.cursor >= line.end ==> yes,
{
}

/// A cell that is erased keeps the colours of the pen, and nothing else of it.
pub proof fn what_an_erased_cell_keeps(pen: &Pen, cell: Cell)
    requires
        call_ensures(Cell::blank, (pen,), cell),
    ensures
        cell.ch == ' ',
        cell.fg == pen.fg,
        cell.bg == pen.bg,
        cell.attrs.0 == 0,
{
}

} // verus!
