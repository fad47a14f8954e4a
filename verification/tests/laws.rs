use new_iris_terminal::features::doc_lookup::{format_value, Formatted, PieceInfo};
use new_iris_terminal::features::export::{to_html, to_text, Range};
use new_iris_terminal::features::global_browser::{parse, strip_ansi};
use new_iris_terminal::features::history::History;
use new_iris_terminal::number::{group_thousands, read_signed, read_unsigned};
use new_iris_terminal::objectscript::{quoted, type_lines};
use new_iris_terminal::pty::telnet::{Codec, DO, IAC, OPT_BINARY};
use new_iris_terminal::term::cell::{Attrs, Color};
use new_iris_terminal::term::encoding::Encoding;
use new_iris_terminal::term::grid::Grid;
use new_iris_terminal::term::lineedit::word_bounds;
use new_iris_terminal::term::palette::{Rgb, Theme};
use new_iris_terminal::term::parser::advance;
use new_iris_terminal::term::syntax::{prompt_end, scan_chars};
use new_iris_terminal::term::vt::ByteParser;
use new_iris_terminal::text::{chars_of, decimal, trimmed};

fn showing(cols: usize, rows: usize, input: &[u8]) -> Grid {
    let mut grid = Grid::new(cols, rows, 3);
    advance(&mut ByteParser::new(), &mut grid, input);
    grid
}

// ---- the grid -----------------------------------------------------------

#[test]
fn the_history_keeps_the_newest_lines_within_its_limit() {
    let grid = showing(10, 2, b"1\r\n2\r\n3\r\n4\r\n5\r\n6");
    let history: Vec<String> = grid.scrollback.iter().map(|row| row.to_text()).collect();
    assert_eq!(history, vec!["2", "3", "4"]);
    assert_eq!(grid.total_lines(), 5);
    assert_eq!(grid.line(0).map(|row| row.to_text()), Some("2".to_string()));
    assert_eq!(grid.line(4).map(|row| row.to_text()), Some("6".to_string()));
    assert!(grid.line(5).is_none());
}

#[test]
fn deleting_what_was_inserted_leaves_the_row_as_it_was() {
    let mut grid = showing(20, 2, b"abcdef\x1b[1;3H");
    let before = grid.screen[0].to_text();
    grid.insert_chars(4);
    assert_eq!(grid.screen[0].to_text(), "ab    cdef");
    grid.delete_chars(4);
    assert_eq!(grid.screen[0].to_text(), before);
}

#[test]
fn what_is_pushed_past_the_margin_is_dropped() {
    let mut grid = showing(6, 2, b"abcdef\x1b[1;3H");
    grid.insert_chars(2);
    assert_eq!(grid.screen[0].to_text(), "ab  cd");
}

#[test]
fn lines_are_inserted_and_deleted_within_the_region() {
    let grid = showing(10, 5, b"1\r\n2\r\n3\r\n4\r\n5\x1b[2;4r\x1b[2;1H\x1b[L");
    assert_eq!(grid.screen_text(), vec!["1", "", "2", "3", "5"]);
    let grid = showing(10, 5, b"1\r\n2\r\n3\r\n4\r\n5\x1b[2;4r\x1b[2;1H\x1b[M");
    assert_eq!(grid.screen_text(), vec!["1", "3", "4", "", "5"]);
    assert!(grid.scrollback.is_empty());
}

#[test]
fn restoring_brings_back_the_cursor_and_the_pen() {
    let grid = showing(20, 5, b"\x1b[31m\x1b[2;3H\x1b7\x1b[0m\x1b[4;4Hx\x1b8");
    assert_eq!((grid.cursor.row, grid.cursor.col), (1, 2));
    assert_eq!(grid.pen.fg, Color::Indexed(1));
}

#[test]
fn shrinking_files_the_top_and_growing_leaves_the_history() {
    let mut grid = showing(10, 4, b"1\r\n2\r\n3\r\n4");
    grid.resize(10, 2);
    assert_eq!(grid.screen_text(), vec!["3", "4"]);
    assert_eq!(grid.scrollback.len(), 2);
    grid.resize(10, 4);
    assert_eq!(grid.screen_text(), vec!["3", "4", "", ""]);
    assert_eq!(grid.scrollback.len(), 2);
    assert_eq!(grid.all_text(), vec!["1", "2", "3", "4", "", ""]);
}

#[test]
fn a_purge_takes_one_clear_and_no_more() {
    let mut grid = showing(10, 2, b"1\r\n2\r\n3");
    assert_eq!(grid.scrollback.len(), 1);
    grid.purge_history_on_next_clear();
    grid.erase_in_display(2);
    assert!(grid.scrollback.is_empty());
    grid.set_cursor(1, 0);
    grid.print('x');
    grid.erase_in_display(2);
    assert_eq!(grid.scrollback.len(), 2);
}

#[test]
fn attributes_are_a_set() {
    let mut attrs = Attrs::default();
    assert!(attrs.is_empty());
    attrs.insert(Attrs::BOLD);
    attrs.insert(Attrs::STRIKE);
    assert!(attrs.contains(Attrs::BOLD) && attrs.contains(Attrs::STRIKE));
    attrs.remove(Attrs::BOLD);
    assert!(!attrs.contains(Attrs::BOLD) && attrs.contains(Attrs::STRIKE));
}

#[test]
fn a_device_report_is_answered() {
    let mut grid = Grid::new(20, 5, 3);
    let mut parser = ByteParser::new();
    assert_eq!(advance(&mut parser, &mut grid, b"\x1b[5n"), b"\x1b[0n");
    assert_eq!(advance(&mut parser, &mut grid, b"\x1b[c"), b"\x1b[?6c");
    assert!(advance(&mut parser, &mut grid, b"plain\r\n").is_empty());
}

// ---- the wire -----------------------------------------------------------

#[test]
fn every_byte_comes_back_through_the_wire() {
    let data: Vec<u8> = (0..=255u8).chain([13, 10, 13, 0, 255, 13]).collect();
    let sender = Codec::default();
    let mut receiver = Codec::default();
    let fed = receiver.feed(&sender.encode(&data));
    assert_eq!(fed.data, data);
    assert!(fed.replies.is_empty());
}

#[test]
fn binary_data_comes_back_unless_a_nul_follows_a_carriage_return() {
    let mut sender = Codec::default();
    sender.feed(&[IAC, DO, OPT_BINARY]);
    let mut receiver = Codec::default();
    let data = [1, 13, 10, 13, 65, 255, 0, 13];
    assert_eq!(receiver.feed(&sender.encode(&data)).data, data);
    let mut receiver = Codec::default();
    assert_eq!(receiver.feed(&sender.encode(&[13, 0, 65])).data, vec![13, 65]);
}

#[test]
fn every_codepage_is_read_in_any_number_of_pieces() {
    let bytes: Vec<u8> = (0..=255).collect();
    for enc in [Encoding::Cp850, Encoding::Cp1252, Encoding::Latin1] {
        let whole = enc.decode(&bytes);
        let mut pieces = enc.decode(&bytes[..100]);
        pieces.extend(enc.decode(&bytes[100..]));
        assert_eq!(pieces, whole, "{enc:?}");
        let text = String::from_utf8(whole).unwrap();
        assert_eq!(enc.encode(&text), bytes, "{enc:?}");
    }
}

// ---- what is read off the screen ----------------------------------------

#[test]
fn a_double_click_takes_one_whole_run() {
    let chars = chars_of("set x_1 = \"a\"");
    assert_eq!(word_bounds(&chars, 4), Some((4, 7)));
    assert_eq!(word_bounds(&chars, 99), None);
    // An accented letter is a letter.
    let chars = chars_of("a\u{e7}\u{e3}o+x");
    assert_eq!(word_bounds(&chars, 1), Some((0, 4)));
}

#[test]
fn prose_is_left_alone_and_code_is_not() {
    assert!(scan_chars(&chars_of("Please set the flag (now), or do not.")).is_empty());
    assert!(!scan_chars(&chars_of("USER>set x=(y)")).is_empty());
}

#[test]
fn spans_are_in_order_and_within_the_row() {
    let chars = chars_of("USER>set ^X(1,\"a\")=$piece(y,2) do Tag^ROU");
    let spans = scan_chars(&chars);
    assert!(!spans.is_empty());
    for pair in spans.windows(2) {
        assert!(pair[0].end <= pair[1].start);
    }
    assert!(spans.iter().all(|s| s.start < s.end && s.end <= chars.len()));
    assert_eq!(prompt_end(&chars), Some(5));
}

// ---- words and numbers --------------------------------------------------

#[test]
fn a_literal_is_one_string_whatever_is_in_it() {
    assert_eq!(quoted("a\"b"), "\"a\"\"b\"");
    assert_eq!(quoted(""), "\"\"");
    assert_eq!(
        type_lines(&vec!["a".to_string(), "b".to_string()]),
        "a\rb\r"
    );
}

#[test]
fn a_number_that_is_written_is_read() {
    for n in [0, 7, 10, 99_999, u64::MAX] {
        let text = chars_of(&decimal(n));
        assert_eq!(read_unsigned(&text, 0, text.len(), u64::MAX), Some(n));
    }
    let read = |s: &str| {
        let chars = chars_of(s);
        read_signed(&chars, 0, chars.len())
    };
    assert_eq!(read("-9223372036854775808"), Some(i64::MIN));
    assert_eq!(read("9223372036854775808"), None);
    assert_eq!(read("+5"), Some(5));
    assert_eq!(read("-"), None);
    assert_eq!(group_thousands(1_234_567), "1.234.567");
}

#[test]
fn trimming_twice_is_trimming_once() {
    let once = trimmed(" \u{a0}\u{2003}a b\t\r\n");
    assert_eq!(once, "a b");
    assert_eq!(trimmed(&once), once);
}

// ---- dates --------------------------------------------------------------

fn date(days: &str) -> String {
    let piece = PieceInfo {
        piece: 1,
        sub: None,
        sub_delim: None,
        description: String::new(),
        size: "5".into(),
        kind: "%Date".into(),
        value_list: Vec::new(),
    };
    match format_value(&piece, days) {
        Formatted::Value(text) => text,
        other => format!("{other:?}"),
    }
}

#[test]
fn days_follow_each_other_in_the_calendar() {
    assert_eq!(date("0"), "31/12/1840");
    assert_eq!(date("1"), "01/01/1841");
    // 1900 was no leap year, 2000 was.
    assert_eq!(date("21608"), "28/02/1900");
    assert_eq!(date("21609"), "01/03/1900");
    assert_eq!(date("58133"), "29/02/2000");
    assert_eq!(date("58134"), "01/03/2000");
    assert_eq!(date("2980013"), "31/12/9999");
    assert_eq!(date("2980014"), "01/01/+10000");
    assert_eq!(date("95073353"), "31/12/+262142");
    assert_eq!(date("95073354"), "Invalid");
}

// ---- files --------------------------------------------------------------

#[test]
fn markup_in_the_output_stays_text() {
    let grid = showing(40, 1, b"<script>&\"'");
    let colour = Rgb { r: 1, g: 2, b: 3 };
    let theme = Theme {
        foreground: colour,
        background: colour,
        cursor: colour,
        ansi: [colour; 16],
    };
    let html = to_html(&grid, Range::Screen, &theme);
    assert!(html.contains("&lt;script&gt;&amp;"));
    assert!(to_text(&grid, Range::Screen).ends_with("<script>&\"'\n"));
}

#[test]
fn no_escape_is_left_in_stripped_text() {
    let text = strip_ansi("a\u{1b}[1;2Hb\u{1b}]0;t\u{7}c\u{1b}");
    assert!(!text.contains('\u{1b}'));
    assert!(text.starts_with("abc"));
    let page = parse("@N@^X(1)\n@P@2@b\n@E@1\n", 5);
    assert_eq!(page.nodes[0].pieces, vec!["", "b"]);
}

#[test]
fn a_history_comes_back_from_its_file() {
    let mut h = History::load("f", true, None);
    for command in ["a", "  b", "c"] {
        h.record(command);
    }
    let text = h.to_save().unwrap();
    let back = History::load("f", true, Some(&text));
    assert_eq!(back.entries(), h.entries());
    assert_eq!(back.earlier(), h.entries());
}
