use new_iris_terminal::term::grid::Grid;
use new_iris_terminal::term::lineedit::{current, namespace, target, typed_text, Motion};

/// Builds a one-row grid holding `text`, with the cursor at `col`.
fn grid_with(text: &str, col: usize) -> Grid {
    let mut grid = Grid::new(40, 1, 10);
    grid.screen[0].set_text(text);
    grid.cursor.col = col;
    grid
}

/// Walks the whole line one Ctrl+Right at a time, from the prompt to the
/// end, and reports every column it stopped at.
fn stops_walking_right(text: &str) -> Vec<usize> {
    let grid = grid_with(text, text.chars().count());
    let line = current(&grid).expect("a command line");
    let mut at = line.start;
    let mut stops = Vec::new();
    while at < line.end {
        at = target(&grid, line, at, Motion::WordRight);
        stops.push(at - line.start);
    }
    stops
}

fn stops_walking_left(text: &str) -> Vec<usize> {
    let grid = grid_with(text, text.chars().count());
    let line = current(&grid).expect("a command line");
    let mut at = line.end;
    let mut stops = Vec::new();
    while at > line.start {
        at = target(&grid, line, at, Motion::WordLeft);
        stops.push(at - line.start);
    }
    stops
}

/// Ctrl+Right lands on the start of each following word, as it does in an
/// editor - and a run of punctuation is a stop of its own, which is what
/// makes it useful on a line of ObjectScript.
#[test]
fn word_right_stops_at_the_start_of_each_run() {
    // `set x = 1`: the words, and the `=` between them.
    assert_eq!(stops_walking_right("USER>set x = 1"), vec![4, 6, 8, 9]);
    // `do ^%CSW1GEN("X")`: `^%`, the routine name, `("`, `X` and `")` are
    // each a stop, which is the point of counting punctuation as a run.
    assert_eq!(
        stops_walking_right("USER>do ^%CSW1GEN(\"X\")"),
        vec![3, 5, 12, 14, 15, 17]
    );
}

/// Ctrl+Left lands on the same boundaries, coming the other way.
#[test]
fn word_left_stops_at_the_start_of_each_run() {
    assert_eq!(stops_walking_left("USER>set x = 1"), vec![8, 6, 4, 0]);
}

/// Trailing and repeated blanks are crossed rather than stopped in.
#[test]
fn blanks_are_skipped_rather_than_landed_on() {
    let grid = grid_with("USER>a   b", 10);
    let line = current(&grid).expect("a command line");
    assert_eq!(target(&grid, line, 5, Motion::WordRight), 9, "a -> b");
    assert_eq!(target(&grid, line, 10, Motion::WordLeft), 9);
    assert_eq!(target(&grid, line, 9, Motion::WordLeft), 5, "b -> a");
}

/// Nothing may walk off either end of what was typed.
#[test]
fn word_motion_stays_inside_the_typed_line() {
    let grid = grid_with("USER>write 1", 12);
    let line = current(&grid).expect("a command line");
    assert_eq!(target(&grid, line, 5, Motion::WordLeft), 5);
    assert_eq!(target(&grid, line, 12, Motion::WordRight), 12);
    // And an empty line has nowhere to go at all.
    let grid = grid_with("USER>", 5);
    let line = current(&grid).expect("a command line");
    for motion in [Motion::WordLeft, Motion::WordRight, Motion::Left] {
        assert_eq!(target(&grid, line, 5, motion), 5, "{motion:?}");
    }
}

/// The single-column and whole-line motions share the same clamping.
#[test]
fn the_simple_motions_move_one_column_and_stop_at_the_edges() {
    let grid = grid_with("USER>write 1", 8);
    let line = current(&grid).expect("a command line");
    assert_eq!(target(&grid, line, 8, Motion::Left), 7);
    assert_eq!(target(&grid, line, 8, Motion::Right), 9);
    assert_eq!(target(&grid, line, 8, Motion::LineStart), 5);
    assert_eq!(target(&grid, line, 8, Motion::LineEnd), 12);
    assert_eq!(target(&grid, line, 5, Motion::Left), 5);
    assert_eq!(target(&grid, line, 12, Motion::Right), 12);
}

#[test]
fn the_line_starts_just_past_the_prompt() {
    let grid = grid_with("USER>write 1", 12);
    let line = current(&grid).expect("a prompt row is a command line");
    assert_eq!(line.start, 5);
    assert_eq!(line.cursor, 12);
    assert_eq!(line.end, 12);
    assert!(line.at_end());
    assert_eq!(line.len(), 7);
}

#[test]
fn a_transaction_prompt_is_still_a_prompt() {
    let grid = grid_with("TL1:USER>write 1", 16);
    assert_eq!(current(&grid).map(|l| l.start), Some(9));
}

/// A full-screen routine paints rows that are not command lines, and its
/// arrow keys have to reach IRIS untouched.
#[test]
fn a_row_without_a_prompt_is_not_a_command_line() {
    assert!(current(&grid_with("Global ^CSW1 selected", 8)).is_none());
    assert!(current(&grid_with("", 0)).is_none());
}

/// Between the start of the row and the prompt IRIS is writing, not
/// reading.
#[test]
fn a_cursor_inside_the_prompt_is_not_editing() {
    assert!(current(&grid_with("USER>write 1", 2)).is_none());
}

/// The cursor mid-line is the case a rubout must not be used on.
#[test]
fn the_cursor_can_sit_before_the_end_of_the_line() {
    let line = current(&grid_with("USER>write 1", 8)).expect("still a command line");
    assert_eq!(line.cursor, 8);
    assert_eq!(line.end, 12);
    assert!(!line.at_end());
}

/// A trailing space is part of what was typed even though the row counts
/// it as blank.
#[test]
fn a_trailing_space_counts_as_typed() {
    let line = current(&grid_with("USER>write 1 ", 13)).expect("a command line");
    assert_eq!(line.end, 13);
    assert!(line.at_end());
}

/// The tab name can carry the namespace, which is read off the prompt: the
/// only place the session says which one it is in.
#[test]
fn the_namespace_is_read_off_the_prompt() {
    assert_eq!(
        namespace(&grid_with("RDB76-TR>write 1", 16)).as_deref(),
        Some("RDB76-TR")
    );
    assert_eq!(
        namespace(&grid_with("TL1:USER>", 9)).as_deref(),
        Some("USER"),
        "a transaction prefix is not part of the namespace"
    );
    // Not a prompt row, so nothing to read.
    assert_eq!(namespace(&grid_with("Global ^CSW1 selected", 8)), None);
}

#[test]
fn the_typed_text_excludes_the_prompt() {
    assert_eq!(
        typed_text(&grid_with("USER>write 1", 12)).as_deref(),
        Some("write 1")
    );
    assert_eq!(
        typed_text(&grid_with("USER>write 1 ", 13)).as_deref(),
        Some("write 1"),
        "a trailing space must not be recorded"
    );
    assert_eq!(typed_text(&grid_with("USER>", 5)).as_deref(), Some(""));
    assert_eq!(typed_text(&grid_with("no prompt", 3)), None);
}
