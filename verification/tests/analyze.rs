use new_iris_terminal::features::analyze::{
    candidate, context, context_at, is_command, next_attempt, tab_profile, transcript, Claim, Next,
    Scope, Source,
};
use new_iris_terminal::term::grid::{Grid, Row};

const STAMP: &str = "20260101-120000";


/// One row per line, written straight into the cells - the same shortcut
/// the terminal view's own tests use.
fn grid_with(lines: &[&str]) -> Grid {
    let mut grid = Grid::new(40, lines.len().max(1), 100);
    for (r, line) in lines.iter().enumerate() {
        grid.screen[r].set_text(line);
    }
    grid
}

/// One pane's worth of context, the shape nearly every test wants.
fn source<'a>(grid: &'a Grid, selection: Option<&'a str>) -> Source<'a> {
    Source {
        endpoint: "TEST",
        grid,
        selection,
    }
}

#[test]
fn a_prompt_with_a_command_on_it_is_a_command() {
    let grid = grid_with(&["USER>write 1", "1", "USER>"]);
    let rows: Vec<&Row> = grid.scrollback.iter().chain(grid.screen.iter()).collect();
    let commands: Vec<String> = rows
        .iter()
        .filter(|row| is_command(row))
        .map(|row| row.to_text())
        .collect();
    assert_eq!(commands, vec!["USER>write 1".to_string()]);
}

/// Everything means everything: no command counting, no truncation.
#[test]
fn the_whole_scope_keeps_the_first_line() {
    let grid = grid_with(&["USER>write 1", "1", "USER>write 2", "2"]);
    let text = transcript(&grid, Scope::All);
    assert!(text.starts_with("USER>write 1"), "unexpected: {text:?}");
    assert!(text.contains("USER>write 2"));
}

/// The point of the feature: the last few commands, not the afternoon.
#[test]
fn a_narrow_scope_starts_at_the_nth_command_from_the_end() {
    let mut lines: Vec<String> = Vec::new();
    for n in 0..8 {
        lines.push(format!("USER>write {n}"));
        lines.push(format!("{n}"));
    }
    let refs: Vec<&str> = lines.iter().map(String::as_str).collect();
    let grid = grid_with(&refs);

    let text = transcript(&grid, Scope::LastFive);
    assert!(
        text.starts_with("USER>write 3"),
        "should start at the fifth command from the end: {text:?}"
    );
    assert!(text.contains("USER>write 7"));
    assert!(!text.contains("USER>write 2"));
}

/// Fewer commands than asked for hands over what there is, rather than
/// nothing or a panic.
#[test]
fn a_short_session_is_handed_over_whole() {
    let grid = grid_with(&["USER>write 1", "1"]);
    let text = transcript(&grid, Scope::LastTen);
    assert!(text.starts_with("USER>write 1"), "unexpected: {text:?}");
}

/// A session that has only ever shown a prompt has nothing to analyze, and
/// must say so rather than opening a session over an empty file.
#[test]
fn an_empty_session_is_refused() {
    let grid = Grid::new(40, 6, 100);
    let result = context_at(&[source(&grid, None)], Scope::All, STAMP);
    assert!(result.is_err());
}

/// Two analyses in the same second must not land on one file: the second
/// would overwrite the first, and the session opened on the first would
/// read the other one's output.
#[test]
fn two_captures_in_the_same_second_get_two_files() {
    let first = candidate(STAMP, 1);
    let second = candidate(STAMP, 2);
    assert_ne!(first, second);
}

/// Both panes: each session under a heading of its own, so the model can
/// tell which prompt said what instead of reading one run of interleaved
/// output.
#[test]
fn both_panes_are_handed_over_as_two_headed_sections() {
    let left = grid_with(&["USER>write 1", "1"]);
    let right = grid_with(&["%SYS>write 2", "2"]);
    let body = context_at(
        &[
            Source {
                endpoint: "IRIS:USER",
                grid: &left,
                selection: None,
            },
            Source {
                endpoint: "IRIS:%SYS",
                grid: &right,
                selection: None,
            },
        ],
        Scope::All,
        STAMP,
    )
    .unwrap_or_else(|nothing| panic!("{}", nothing.message()));
    assert!(body.contains("## Pane 1 - IRIS:USER"), "{body}");
    assert!(body.contains("## Pane 2 - IRIS:%SYS"), "{body}");
    assert!(body.contains("USER>write 1") && body.contains("%SYS>write 2"));
    assert!(
        body.contains("side by side"),
        "the file should say the two were on screen together: {body}"
    );
}

/// A split where only one pane has been used still analyses: the empty
/// half is dropped, and what is left reads as the single capture it is.
#[test]
fn an_empty_pane_is_left_out_rather_than_refusing_the_pair() {
    let used = grid_with(&["USER>write 1", "1"]);
    let fresh = Grid::new(40, 6, 100);
    let body = context_at(
        &[source(&used, None), source(&fresh, None)],
        Scope::All,
        STAMP,
    )
    .unwrap_or_else(|nothing| panic!("{}", nothing.message()));
    assert!(body.contains("USER>write 1"));
    assert!(
        !body.contains("## Pane"),
        "one capture, no headings: {body}"
    );
}

/// The selection is handed over as it is, and nothing of the surrounding
/// session goes with it: picking three lines out of a long session is the
/// whole point of the scope.
#[test]
fn the_selection_scope_uses_only_what_was_selected() {
    let grid = grid_with(&["USER>write 1", "1", "USER>write 2", "2"]);
    let body = context_at(
        &[source(&grid, Some("<UNDEFINED> zRun+7"))],
        Scope::Selection,
        STAMP,
    )
    .unwrap_or_else(|nothing| panic!("{}", nothing.message()));
    assert!(body.contains("<UNDEFINED> zRun+7"));
    assert!(
        !body.contains("USER>write 1"),
        "the rest of the session came along: {body}"
    );
}

/// Asking for the selection without one must say so rather than handing
/// over an empty file, or the whole session as a "helpful" substitute.
#[test]
fn the_selection_scope_needs_a_selection() {
    let grid = grid_with(&["USER>write 1", "1"]);
    for selection in [None, Some(""), Some("   ")] {
        assert!(context_at(&[source(&grid, selection)], Scope::Selection, STAMP).is_err());
    }
}

/// The session must come up with the file loaded and *nothing* asked: no
/// prompt argument, or it would answer a question the user never put.
#[test]
fn the_tab_loads_the_file_and_asks_nothing() {
    let profile = tab_profile("assistant", "/tmp/an analysis", "session-20260101-120000.md");
    let shell = profile.shell.expect("it has to be a shell profile");
    assert_eq!(shell.program, "assistant");
    assert_eq!(
        shell.args,
        ["--append-system-prompt-file", "session-20260101-120000.md"]
    );
    // The file is the last word: anything after it would be read as the
    // prompt, and the session would start by answering it.
    assert_eq!(
        shell.args.last().map(String::as_str),
        Some("session-20260101-120000.md")
    );
}

/// A space in the path is what a `cmd` command line cannot survive, so the
/// file is named bare and the session is started in its folder. This is
/// the pair that has to hold together, whatever the path looks like.
#[test]
fn the_file_is_named_bare_and_the_session_starts_beside_it() {
    let profile = tab_profile("assistant", "/tmp/an analysis", "session-20260101-120000.md");
    let shell = profile.shell.unwrap();
    assert_eq!(shell.cwd.as_deref(), Some("/tmp/an analysis"));
    assert!(
        !shell.args.iter().any(|arg| arg.contains(' ')),
        "nothing on the command line may carry a space"
    );
}

/// A shell tab, so nothing IRIS-shaped runs against it: no autologon
/// typing a username at the assistant, and no ObjectScript colouring.
#[test]
fn the_analysis_tab_is_a_shell_tab() {
    assert!(tab_profile("assistant", "", "x.md").is_shell());
}

/// The file is context, not a request: it must not read as a task, or the
/// session will act on it before the user has said anything.
#[test]
fn the_context_file_asks_for_nothing() {
    let grid = grid_with(&["USER>write 1", "1"]);
    let body = context_at(&[source(&grid, None)], Scope::All, STAMP).unwrap_or_else(|nothing| panic!("{}", nothing.message()));
    assert!(body.contains("USER>write 1"));
    assert!(body.contains("wait for theirs"));
}

/// However much is asked for, it is the end of the whole, and it ends in
/// something.
#[test]
fn a_narrow_transcript_is_the_end_of_the_whole_one() {
    let mut lines: Vec<String> = Vec::new();
    for n in 0..7 {
        lines.push(format!("USER>write {n}"));
        lines.push(format!("{n}  "));
    }
    lines.push(String::new());
    let lines: Vec<&str> = lines.iter().map(String::as_str).collect();
    let grid = grid_with(&lines);
    let whole = transcript(&grid, Scope::All);
    let five = transcript(&grid, Scope::LastFive);
    assert!(five.starts_with("USER>write 2"));
    assert!(whole.ends_with(&five));
    assert!(five.len() < whole.len());
    assert_eq!(transcript(&grid, Scope::LastTen), whole);
    assert!(whole.ends_with('6'));
}

#[test]
fn names_are_tried_until_one_is_free() {
    assert_eq!(next_attempt(1, Claim::Made), Next::Done);
    assert_eq!(next_attempt(1, Claim::Taken), Next::Try(2));
    assert_eq!(next_attempt(98, Claim::Taken), Next::Try(99));
    assert_eq!(next_attempt(99, Claim::Taken), Next::GiveUp);
    assert_eq!(next_attempt(3, Claim::Failed), Next::Fail);
}

/// The file says when it was captured.
#[test]
fn the_moment_of_the_capture_is_written_down() {
    let grid = grid_with(&["USER>write 1", "1"]);
    let text = match context(&[source(&grid, None)], Scope::All) {
        Ok(text) => text,
        Err(_) => panic!("there is something to hand over"),
    };
    let stamp = text.split("- Captured: ").nth(1).expect("a moment");
    let stamp = stamp.lines().next().expect("a line");
    assert_eq!(stamp.len(), 19);
    for (i, c) in stamp.chars().enumerate() {
        match i {
            4 | 7 => assert_eq!(c, '-'),
            10 => assert_eq!(c, ' '),
            13 | 16 => assert_eq!(c, ':'),
            _ => assert!(c.is_ascii_digit(), "unexpected: {stamp:?}"),
        }
    }
}
