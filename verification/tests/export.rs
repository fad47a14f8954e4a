use new_iris_terminal::features::export::{
    suggested_name, suggested_name_at, to_html, to_text, Format, Range,
};
use new_iris_terminal::term::grid::Grid;
use new_iris_terminal::term::palette::{Rgb, Theme};
use new_iris_terminal::term::parser::advance;
use new_iris_terminal::term::vt::ByteParser;

fn theme() -> Theme {
    let grey = Rgb { r: 200, g: 200, b: 200 };
    let black = Rgb { r: 0, g: 0, b: 0 };
    let mut ansi = [grey; 16];
    ansi[1] = Rgb { r: 205, g: 49, b: 49 };
    Theme {
        foreground: grey,
        background: black,
        cursor: grey,
        ansi,
    }
}


fn session(input: &[u8], cols: usize, rows: usize) -> Grid {
    let mut grid = Grid::new(cols, rows, 100);
    let mut parser = ByteParser::new();
    advance(&mut parser, &mut grid, input);
    grid
}

#[test]
fn screen_export_covers_only_the_visible_screen() {
    let grid = session(b"one\r\ntwo\r\nthree", 20, 2);
    assert_eq!(to_text(&grid, Range::Screen), "two\nthree\n");
}

#[test]
fn all_export_includes_scrollback() {
    let grid = session(b"one\r\ntwo\r\nthree", 20, 2);
    assert_eq!(to_text(&grid, Range::All), "one\ntwo\nthree\n");
}

/// Exporting must match what the clean logger would have recorded.
#[test]
fn text_export_agrees_with_the_grids_own_line_rendering() {
    let grid = session(b"alpha\r\nbeta", 20, 3);
    let expected = grid.all_text().join("\n");
    assert!(to_text(&grid, Range::All).starts_with(expected.trim_end()));
}

#[test]
fn trailing_blank_lines_are_trimmed_to_a_single_newline() {
    let grid = session(b"only", 20, 10);
    assert_eq!(to_text(&grid, Range::Screen), "only\n");
}

#[test]
fn html_escapes_markup_characters() {
    let grid = session(b"a<b>&c", 20, 1);
    let html = to_html(&grid, Range::Screen, &theme());
    assert!(html.contains("a&lt;b&gt;&amp;c"), "got: {html}");
    assert!(!html.contains("<b>"));
}

#[test]
fn html_emits_a_span_for_coloured_text_only() {
    let grid = session(b"plain\r\n\x1b[31mred\x1b[0m", 20, 2);
    let html = to_html(&grid, Range::Screen, &theme());
    assert!(html.contains("<span style=\"color:"), "no span in {html}");
    // The unstyled line should not be wrapped.
    assert!(html.contains("plain\n") || html.contains("plain<"));
}

#[test]
fn html_is_a_complete_standalone_document() {
    let grid = session(b"x", 10, 1);
    let html = to_html(&grid, Range::Screen, &theme());
    assert!(html.starts_with("<!doctype html>"));
    assert!(html.trim_end().ends_with("</html>"));
}

#[test]
fn suggested_names_carry_the_right_extension_and_are_path_safe() {
    assert!(suggested_name("RDB/1", Format::Text).ends_with(".txt"));
    assert!(suggested_name("RDB/1", Format::Html).ends_with(".html"));
    assert!(!suggested_name("RDB/1", Format::Text).contains('/'));
}

#[test]
fn a_suggested_name_is_the_profile_and_the_moment() {
    assert_eq!(
        suggested_name_at("RDB/1 x", "20260101-120000", Format::Text),
        "RDB-1-x-20260101-120000.txt"
    );
}

/// What a browser shows of some HTML.
fn shown(html: &str) -> String {
    let mut out = String::new();
    let mut in_tag = false;
    for ch in html.chars() {
        match ch {
            '<' => in_tag = true,
            '>' if in_tag => in_tag = false,
            _ if in_tag => {}
            _ => out.push(ch),
        }
    }
    out.replace("&lt;", "<").replace("&gt;", ">").replace("&amp;", "&")
}

#[test]
fn a_page_shows_the_text_it_was_made_from() {
    let grid = session(b"a<b> &amp;\r\n\x1b[31mred & \x1b[0mplain\r\n</pre>", 20, 3);
    let page = to_html(&grid, Range::All, &theme());
    let body = page.split("<pre>").nth(1).expect("a body");
    let body = body.strip_suffix("</pre></body></html>\n").expect("an end");
    assert_eq!(shown(body), "a<b> &amp;\nred & plain\n</pre>\n");
    assert_eq!(body.matches("<span").count(), 1);
    assert!(body.contains("</span>plain\n"));
}

/// The name says when, to the second, and holds nothing that a path could trip
/// over.
#[test]
fn a_suggested_name_holds_the_moment() {
    let name = suggested_name("a/b:c", Format::Text);
    let stamp = name.strip_prefix("a-b-c-").and_then(|rest| rest.strip_suffix(".txt"));
    let stamp = stamp.expect("a moment between the profile and the extension");
    assert_eq!(stamp.len(), 15);
    assert_eq!(stamp.chars().nth(8), Some('-'));
    assert_eq!(stamp.chars().filter(char::is_ascii_digit).count(), 14);
    assert_ne!(
        suggested_name_at("P", "20260101-120000", Format::Html),
        suggested_name_at("P", "20260101-120001", Format::Html)
    );
}
