use std::time::Instant;

use new_iris_terminal::term::cell::{Attrs, Color};
use new_iris_terminal::term::grid::{Grid, REPAINT_WINDOW};
use new_iris_terminal::term::parser::advance;
use new_iris_terminal::term::vt::ByteParser;

/// Drives a fresh grid with the given bytes and hands it back for assertions.
fn run(cols: usize, rows: usize, input: &[u8]) -> Grid {
    let mut grid = Grid::new(cols, rows, 100);
    let mut parser = ByteParser::new();
    advance(&mut parser, &mut grid, input);
    grid
}

/// terminfo's `smkx` is `ESC [ ? 1 h ESC =`, and it is the far side saying
/// it wants `ESC O A` back rather than `ESC [ A`. IRIS 2023 sends it, which
/// is why the arrow keys stopped moving its cursor.
#[test]
fn application_cursor_keys_are_tracked() {
    assert!(run(20, 5, b"\x1b[?1h").app_cursor_keys);
    assert!(!run(20, 5, b"\x1b[?1h\x1b[?1l").app_cursor_keys);
    // Either half of the pair on its own means the same thing.
    assert!(run(20, 5, b"\x1b=").app_cursor_keys);
    assert!(!run(20, 5, b"\x1b=\x1b>").app_cursor_keys);
    // A reset is the far side forgetting its own modes.
    assert!(!run(20, 5, b"\x1b[?1h\x1bc").app_cursor_keys);
    // And the mode nothing here reads is still accepted quietly.
    assert!(!run(20, 5, b"\x1b[?2004h").app_cursor_keys);
}

#[test]
fn plain_text_lands_on_the_first_row() {
    let grid = run(20, 5, b"USER>");
    assert_eq!(grid.screen[0].to_text(), "USER>");
    assert_eq!(grid.cursor.col, 5);
}

#[test]
fn cup_is_one_based() {
    let grid = run(20, 5, b"\x1b[3;7HX");
    assert_eq!(grid.cursor.row, 2);
    assert_eq!(grid.screen[2].cells[6].ch, 'X');
}

#[test]
fn wrap_is_deferred_until_the_next_character() {
    // Exactly `cols` characters must not scroll; the 5th char sits in the
    // last column with the cursor still on row 0.
    let grid = run(5, 3, b"abcde");
    assert_eq!(grid.cursor.row, 0);
    assert_eq!(grid.screen[0].to_text(), "abcde");

    let grid = run(5, 3, b"abcdef");
    assert_eq!(grid.cursor.row, 1);
    assert_eq!(grid.screen[1].to_text(), "f");
    assert!(grid.screen[0].wrapped);
}

#[test]
fn ed_modes_clear_the_right_regions() {
    // Mode 0: cursor to end.
    let grid = run(10, 3, b"aaaa\x1b[2;1Hbbbb\x1b[1;3H\x1b[0J");
    assert_eq!(grid.screen[0].to_text(), "aa");
    assert_eq!(grid.screen[1].to_text(), "");

    // Mode 2: everything.
    let grid = run(10, 3, b"aaaa\x1b[2;1Hbbbb\x1b[2J");
    assert_eq!(grid.screen[0].to_text(), "");
    assert_eq!(grid.screen[1].to_text(), "");
}

/// The regression behind "`W #` loses everything", byte for byte as a live
/// IRIS sends it: home, then erase-to-end-of-line and a newline for every
/// row, with the new prompt printed straight over one of them. Not an ED
/// sequence in sight, so the transcript survives only if the clear is
/// recognised while it is being carried out.
#[test]
fn the_clear_iris_actually_sends_keeps_the_screen_in_the_scrollback() {
    let mut grid = Grid::new(20, 4, 100);
    let mut parser = ByteParser::new();
    advance(&mut parser, &mut grid, b"one\r\ntwo\r\nthree\r\nUSER>W #");
    assert_eq!(grid.screen[0].to_text(), "one");

    advance(
        &mut parser,
        &mut grid,
        b"\x1b[?25l\x1b[H\x1b[K\r\nUSER>\x1b[K\r\n\x1b[K\r\n\x1b[K\x1b[2;7H\x1b[?25h",
    );

    let history: Vec<String> = grid.scrollback.iter().map(|r| r.to_text()).collect();
    assert_eq!(
        history,
        vec![
            "one".to_string(),
            "two".to_string(),
            "three".to_string(),
            "USER>W #".to_string(),
        ],
        "the cleared screen never reached the scrollback"
    );
    assert_eq!(grid.screen[0].to_text(), "");
    assert_eq!(grid.screen[1].to_text(), "USER>");
}

/// A Windows pseudoconsole answers every resize by repainting the screen,
/// and its repaint is character for character the shape of the `W #` above:
/// hide the cursor, home, then erase-to-end-of-line and a newline for every
/// row, with the content written back on the way down.
///
/// So it used to be filed into the transcript as a clear - and the repaint
/// then landed underneath the copy it had just archived. Dragging the window
/// taller duplicated everything on screen, once per resize. The bytes here
/// are the ones a real pseudoconsole sent, captured on a resize from 24 rows
/// to 40.
#[test]
fn the_repaint_a_pseudoconsole_sends_on_resize_is_not_a_clear() {
    let mut grid = Grid::new(20, 4, 100);
    let mut parser = ByteParser::new();
    advance(&mut parser, &mut grid, b"one\r\ntwo\r\nUSER>");
    assert!(grid.scrollback.is_empty());

    // The resize itself, and then what comes back because of it.
    grid.resize(20, 6);
    advance(
        &mut parser,
        &mut grid,
        b"\x1b[?25l\x1b[H\x1b[Kone\x1b[K\r\ntwo\x1b[K\r\nUSER>\x1b[K\r\n\x1b[K\r\n\x1b[K\r\n\x1b[K\x1b[3;6H\x1b[?25h",
    );

    assert!(
        grid.scrollback.is_empty(),
        "the repaint was filed as a clear: {:?}",
        grid.scrollback
            .iter()
            .map(|r| r.to_text())
            .collect::<Vec<_>>()
    );
    let screen: Vec<String> = grid.screen.iter().map(|r| r.to_text()).collect();
    assert_eq!(
        screen,
        vec![
            "one".to_string(),
            "two".to_string(),
            "USER>".to_string(),
            String::new(),
            String::new(),
            String::new(),
        ],
        "the screen should hold one copy of itself"
    );
}

/// And the window it is read in has to lapse, or a resize on a connection
/// that does not repaint - Telnet, where the far side is told the new size
/// and says nothing back - would leave the next real clear-screen unable to
/// file its screen away.
#[test]
fn a_clear_long_after_a_resize_still_files_the_screen_away() {
    let mut grid = Grid::new(20, 4, 100);
    let mut parser = ByteParser::new();
    grid.resize(20, 4);
    advance(&mut parser, &mut grid, b"one\r\ntwo\r\nthree\r\nUSER>W #");

    // Past the window the repaint would have arrived in. A real one comes
    // back in the same read as the resize goes out, so this is the only
    // place the wait is ever paid.
    let start = Instant::now();
    while start.elapsed().as_nanos() < REPAINT_WINDOW + 50_000_000 {}
    advance(
        &mut parser,
        &mut grid,
        b"\x1b[?25l\x1b[H\x1b[K\r\nUSER>\x1b[K\r\n\x1b[K\r\n\x1b[K\x1b[2;7H\x1b[?25h",
    );

    let history: Vec<String> = grid.scrollback.iter().map(|r| r.to_text()).collect();
    assert_eq!(
        history,
        vec![
            "one".to_string(),
            "two".to_string(),
            "three".to_string(),
            "USER>W #".to_string(),
        ],
        "a clear that is not a resize repaint must still be archived"
    );
}

/// Ctrl+Delete asks IRIS for the clear, because only IRIS can reset its own
/// idea of where the cursor is - so the clear that comes back must drop the
/// history rather than archive it, echoed command and all.
#[test]
fn a_requested_clear_purges_the_history_instead_of_filing_it() {
    let mut grid = Grid::new(20, 4, 100);
    let mut parser = ByteParser::new();
    advance(
        &mut parser,
        &mut grid,
        b"one\r\ntwo\r\nthree\r\nfour\r\nUSER>",
    );
    assert!(!grid.scrollback.is_empty(), "nothing to purge");

    // What the gesture does: ask IRIS to clear, and arrange for the clear
    // that comes back to drop the history rather than add to it.
    grid.purge_history_on_next_clear();
    // IRIS echoes the command it was sent, then clears the screen.
    advance(
        &mut parser,
        &mut grid,
        b"W #\x1b[H\x1b[K\r\nUSER>\x1b[K\r\n\x1b[K\r\n\x1b[K\x1b[2;7H",
    );

    assert!(
        grid.scrollback.is_empty(),
        "the requested clear left something behind: {:?}",
        grid.scrollback
            .iter()
            .map(|r| r.to_text())
            .collect::<Vec<_>>()
    );
    // And the prompt is back at the top, which is the whole reason the
    // clear is asked of IRIS rather than done here.
    assert_eq!(grid.screen[1].to_text(), "USER>");
    assert_eq!(grid.cursor.row, 1);
}

/// A purge that is armed and never used must not ambush the next ordinary
/// clear-screen.
#[test]
fn a_cancelled_purge_leaves_the_next_clear_alone() {
    let mut grid = Grid::new(20, 4, 100);
    let mut parser = ByteParser::new();
    advance(&mut parser, &mut grid, b"one\r\ntwo\r\nthree\r\nUSER>W #");

    grid.purge_history_on_next_clear();
    grid.cancel_purge();
    advance(
        &mut parser,
        &mut grid,
        b"\x1b[H\x1b[K\r\nUSER>\x1b[K\r\n\x1b[K\r\n\x1b[K\x1b[2;7H",
    );

    assert_eq!(grid.scrollback.len(), 4, "the clear archived nothing");
}

/// The other half of the deal: an app repainting its screen from the top
/// must not push a copy of the old one into the history every time.
#[test]
fn a_repaint_that_jumps_around_files_nothing() {
    let mut grid = Grid::new(20, 4, 100);
    let mut parser = ByteParser::new();
    advance(&mut parser, &mut grid, b"a\r\nb\r\nc\r\nd");
    // Home, redraw the top line, then jump back up the screen - which is
    // what a form does and a clear never does.
    advance(
        &mut parser,
        &mut grid,
        b"\x1b[H\x1b[KMenu\x1b[4;1H\x1b[Kfooter\x1b[2;1H\x1b[Kbody",
    );
    assert!(
        grid.scrollback.is_empty(),
        "a repaint was mistaken for a clear: {:?}",
        grid.scrollback
            .iter()
            .map(|r| r.to_text())
            .collect::<Vec<_>>()
    );
}

#[test]
fn el_mode_1_clears_through_the_cursor_inclusive() {
    let grid = run(10, 2, b"abcdef\x1b[1;4H\x1b[1K");
    assert_eq!(grid.screen[0].to_text(), "    ef");
}

#[test]
fn sgr_sets_and_resets_attributes() {
    let grid = run(10, 2, b"\x1b[1;31mR\x1b[0mN");
    assert_eq!(grid.screen[0].cells[0].fg, Color::Indexed(1));
    assert!(grid.screen[0].cells[0].attrs.contains(Attrs::BOLD));
    assert_eq!(grid.screen[0].cells[1].fg, Color::Default);
    assert!(grid.screen[0].cells[1].attrs.is_empty());
}

#[test]
fn sgr_truecolour_consumes_its_parameters() {
    // The trailing 1 must still be read as BOLD, not swallowed by 38;2.
    let grid = run(10, 2, b"\x1b[38;2;10;20;30;1mX");
    assert_eq!(grid.screen[0].cells[0].fg, Color::Rgb(10, 20, 30));
    assert!(grid.screen[0].cells[0].attrs.contains(Attrs::BOLD));
}

#[test]
fn scroll_region_confines_line_feeds() {
    // Region rows 2..4 (1-based). Filling past its bottom scrolls only
    // inside it, leaving row 1 untouched.
    let mut grid = Grid::new(10, 5, 100);
    let mut parser = ByteParser::new();
    advance(&mut parser, &mut grid, b"top\x1b[2;4r\x1b[2;1H");
    advance(&mut parser, &mut grid, b"a\nb\nc\nd");

    assert_eq!(grid.screen[0].to_text(), "top");
    assert_eq!(grid.screen[3].to_text(), "   d");
    // An inner-region scroll must not reach scrollback.
    assert!(grid.scrollback.is_empty());
}

#[test]
fn full_screen_scroll_feeds_scrollback() {
    let mut grid = Grid::new(10, 2, 100);
    let mut parser = ByteParser::new();
    advance(&mut parser, &mut grid, b"one\r\ntwo\r\nthree");
    assert_eq!(grid.scrollback.len(), 1);
    assert_eq!(grid.scrollback[0].to_text(), "one");
    assert_eq!(grid.screen[1].to_text(), "three");
}

#[test]
fn dsr_6_reports_the_cursor_position() {
    let mut grid = Grid::new(20, 5, 100);
    let mut parser = ByteParser::new();
    let replies = advance(&mut parser, &mut grid, b"\x1b[3;7H\x1b[6n");
    assert_eq!(replies, b"\x1b[3;7R");
}

/// IRM is the standard way a host announces insert mode. It is tracked even
/// though the insert *behaviour* is not implemented, because it is the
/// authoritative answer when it does arrive.
#[test]
fn irm_sets_and_clears_insert_mode() {
    let grid = run(10, 2, b"\x1b[4h");
    assert!(grid.insert_mode);
    let grid = run(10, 2, b"\x1b[4h\x1b[4l");
    assert!(!grid.insert_mode);
}

/// `ESC [ ? 4 h` is DECSCLM, a different mode entirely, and must not be
/// mistaken for IRM.
#[test]
fn the_private_form_of_mode_four_is_not_irm() {
    let grid = run(10, 2, b"\x1b[?4h");
    assert!(!grid.insert_mode);
}

#[test]
fn dectcem_toggles_cursor_visibility() {
    let grid = run(10, 2, b"\x1b[?25l");
    assert!(!grid.cursor.visible);
    let grid = run(10, 2, b"\x1b[?25l\x1b[?25h");
    assert!(grid.cursor.visible);
}

#[test]
fn osc_2_sets_the_title() {
    let grid = run(10, 2, b"\x1b]2;IRIS USER\x07");
    assert_eq!(grid.title.as_deref(), Some("IRIS USER"));
}

#[test]
fn unknown_sequences_are_ignored_not_fatal() {
    let grid = run(10, 2, b"\x1b[>4;2m\x1b[?2004hok");
    assert_eq!(grid.screen[0].to_text(), "ok");
}


/// A cursor saved on a larger screen comes back onto the one there is.
#[test]
fn a_saved_cursor_comes_back_onto_the_screen() {
    let mut grid = Grid::new(10, 4, 100);
    let mut parser = ByteParser::new();
    advance(&mut parser, &mut grid, b"\x1b[4;10H\x1b7\x1b[1;1H");
    grid.resize(5, 2);
    advance(&mut parser, &mut grid, b"\x1b8X");
    assert_eq!((grid.cursor.row, grid.cursor.col), (1, 4));
    assert_eq!(grid.screen[1].cells[4].ch, 'X');

    let mut grid = Grid::new(10, 4, 100);
    advance(&mut parser, &mut grid, b"\x1b[4;10H\x1b7\x1b[1;1H\x1b8");
    assert_eq!((grid.cursor.row, grid.cursor.col), (3, 9));
}

/// Bytes may arrive in any number of reads, cut anywhere.
#[test]
fn a_sequence_split_across_reads_is_still_one_sequence() {
    let bytes = b"one\r\ntwo\x1b[1;31mred\x1b[2;2HX\x1b]2;title\x07";
    let whole = run(20, 4, bytes);
    let mut grid = Grid::new(20, 4, 100);
    let mut parser = ByteParser::new();
    for byte in bytes {
        advance(&mut parser, &mut grid, &[*byte]);
    }
    assert_eq!(grid.screen_text(), whole.screen_text());
    assert_eq!(grid.title, whole.title);
    assert_eq!(grid.pen, whole.pen);
}

/// `CSI > 4 ; 2 m` asks for a keyboard protocol, not for underlined text, and
/// `CSI > c` for another identity than the one given here.
#[test]
fn sequences_with_an_unknown_private_mark_are_ignored() {
    let mut grid = Grid::new(10, 2, 100);
    let mut parser = ByteParser::new();
    let replies = advance(&mut parser, &mut grid, b"\x1b[>4;2m\x1b[>c\x1b[=c\x1b[<3A\x1b[>5n");
    assert!(replies.is_empty());
    assert_eq!(grid.pen.fg, Color::Default);
    assert_eq!(grid.pen.bg, Color::Default);
    assert_eq!(grid.pen.attrs, Attrs::default());
    assert_eq!(advance(&mut parser, &mut grid, b"\x1b[c"), b"\x1b[?6c".to_vec());
}
