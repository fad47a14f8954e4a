//! The colours of a page, read back from it.

use vstd::prelude::*;

use super::export::{
    covered, css_color, hex_digit, html_cells, html_char, html_chars, html_page, html_rows,
    html_run, path_safe, plain_text, style_end, suggested_name_at, Format, Range,
};
use crate::term::cell::Cell;
use crate::term::palette::{resolved, Rgb, Theme};
use crate::term::state::{used, used_is_the_last_non_blank, GridState, RowState};
use crate::text::joined;

verus! {

// ---- a colour -----------------------------------------------------------

/// The value of a hexadecimal digit.
pub open spec fn hex_value(c: char) -> int {
    if '0' <= c && c <= '9' {
        c as int - '0' as int
    } else if 'a' <= c && c <= 'f' {
        c as int - 'a' as int + 10
    } else {
        -1
    }
}

/// The colour that `#rrggbb` names: red, green and blue, two digits each.
pub open spec fn css_read(s: Seq<char>) -> Option<Rgb> {
    if s.len() == 7 && s[0] == '#' && forall|i: int| 1 <= i < 7 ==> hex_value(#[trigger] s[i]) >= 0 {
        Some(
            Rgb {
                r: (hex_value(s[1]) * 16 + hex_value(s[2])) as u8,
                g: (hex_value(s[3]) * 16 + hex_value(s[4])) as u8,
                b: (hex_value(s[5]) * 16 + hex_value(s[6])) as u8,
            },
        )
    } else {
        None
    }
}

proof fn a_digit_is_read(n: nat)
    requires
        n < 16,
    ensures
        hex_value(hex_digit(n)) == n,
{
}

/// A colour of a page reads as the colour that was drawn.
pub proof fn a_colour_is_read_back(c: Rgb)
    ensures
        css_read(css_color(c)) == Some(c),
{
    let s = css_color(c);
    a_digit_is_read((c.r / 16) as nat);
    a_digit_is_read((c.r % 16) as nat);
    a_digit_is_read((c.g / 16) as nat);
    a_digit_is_read((c.g % 16) as nat);
    a_digit_is_read((c.b / 16) as nat);
    a_digit_is_read((c.b % 16) as nat);
    assert forall|i: int| 1 <= i < 7 implies hex_value(#[trigger] s[i]) >= 0 by {
        assert(i == 1 || i == 2 || i == 3 || i == 4 || i == 5 || i == 6);
    }
}

// ---- a page -------------------------------------------------------------

/// A character and the colours it is shown in.
pub struct Glyph {
    pub ch: char,
    pub fg: Rgb,
    pub bg: Rgb,
}

pub open spec fn starts_with(s: Seq<char>, head: Seq<char>) -> bool {
    s.len() >= head.len() && s.take(head.len() as int) == head
}

/// What of a text stands for its first character, and that character: a
/// reference, or the character itself.
pub open spec fn first_shown(s: Seq<char>) -> (char, int) {
    if starts_with(s, seq!['&', 'a', 'm', 'p', ';']) {
        ('&', 5)
    } else if starts_with(s, seq!['&', 'l', 't', ';']) {
        ('<', 4)
    } else if starts_with(s, seq!['&', 'g', 't', ';']) {
        ('>', 4)
    } else {
        (s[0], 1)
    }
}

/// The glyphs of some HTML whose only tags are spans that name a foreground and
/// a background: text is shown in the colours of the span it stands in, and
/// outside of one in those of the page.
pub open spec fn glyphs(s: Seq<char>, page: (Rgb, Rgb), now: (Rgb, Rgb)) -> Seq<Glyph>
    decreases s.len(),
{
    if s.len() == 0 {
        Seq::empty()
    } else if starts_with(s, "</span>"@) && "</span>"@.len() > 0 {
        glyphs(s.skip("</span>"@.len() as int), page, page)
    } else if starts_with(s, "<span style=\"color:"@) {
        let a = "<span style=\"color:"@.len() as int;
        let b = a + 7 + ";background:"@.len();
        let end = b + 7 + 2;
        if end <= s.len() {
            match (css_read(s.subrange(a, a + 7)), css_read(s.subrange(b, b + 7))) {
                (Some(fg), Some(bg)) => glyphs(s.skip(end), page, (fg, bg)),
                _ => Seq::empty(),
            }
        } else {
            Seq::empty()
        }
    } else {
        let (ch, n) = first_shown(s);
        if 0 < n <= s.len() {
            seq![Glyph { ch, fg: now.0, bg: now.1 }] + glyphs(s.skip(n), page, now)
        } else {
            Seq::empty()
        }
    }
}

/// The glyphs of columns, each in the colours that its cell is drawn in.
pub open spec fn drawn_glyphs(cells: Seq<Cell>, theme: &Theme, from: int, to: int) -> Seq<Glyph> {
    Seq::new(
        (to - from) as nat,
        |i: int|
            Glyph {
                ch: cells[from + i].ch,
                fg: resolved(cells[from + i], theme).0,
                bg: resolved(cells[from + i], theme).1,
            },
    )
}

proof fn the_texts()
    ensures
        "&amp;"@ == seq!['&', 'a', 'm', 'p', ';'],
        "&lt;"@ == seq!['&', 'l', 't', ';'],
        "&gt;"@ == seq!['&', 'g', 't', ';'],
        "</span>"@.len() == 7,
        "</span>"@[0] == '<',
        "</span>"@[1] == '/',
        "<span style=\"color:"@.len() == 19,
        "<span style=\"color:"@[0] == '<',
        "<span style=\"color:"@[1] == 's',
        ";background:"@.len() == 12,
        "\">"@.len() == 2,
{
    reveal_strlit("&amp;");
    reveal_strlit("&lt;");
    reveal_strlit("&gt;");
    reveal_strlit("</span>");
    reveal_strlit("<span style=\"color:");
    reveal_strlit(";background:");
    reveal_strlit("\">");
    assert("&amp;"@ =~= seq!['&', 'a', 'm', 'p', ';']);
    assert("&lt;"@ =~= seq!['&', 'l', 't', ';']);
    assert("&gt;"@ =~= seq!['&', 'g', 't', ';']);
}

proof fn a_glyph_is_read(c: char, rest: Seq<char>, page: (Rgb, Rgb), now: (Rgb, Rgb))
    ensures
        glyphs(html_char(c) + rest, page, now) == seq![Glyph { ch: c, fg: now.0, bg: now.1 }]
            + glyphs(rest, page, now),
{
    the_texts();
    let s = html_char(c) + rest;
    let n = html_char(c).len() as int;
    assert(s.take(n) =~= html_char(c));
    assert(s.skip(n) =~= rest);
    assert(s[0] == html_char(c)[0]);
    assert(s[0] != '<');
    if s.len() >= 7 {
        assert(s.take(7)[0] == s[0]);
    }
    if s.len() >= 19 {
        assert(s.take(19)[0] == s[0]);
    }
    if n > 1 {
        assert(s[1] == html_char(c)[1]);
    }
    if s.len() >= 5 {
        assert(s.take(5)[0] == s[0] && s.take(5)[1] == s[1]);
    }
    if s.len() >= 4 {
        assert(s.take(4)[0] == s[0] && s.take(4)[1] == s[1]);
    }
}

proof fn a_text_is_read(
    cells: Seq<Cell>,
    from: int,
    to: int,
    rest: Seq<char>,
    page: (Rgb, Rgb),
    now: (Rgb, Rgb),
)
    requires
        0 <= from <= to <= cells.len(),
    ensures
        glyphs(html_chars(cells, from, to) + rest, page, now) == Seq::new(
            (to - from) as nat,
            |i: int| Glyph { ch: cells[from + i].ch, fg: now.0, bg: now.1 },
        ) + glyphs(rest, page, now),
    decreases to - from,
{
    let all = Seq::new(
        (to - from) as nat,
        |i: int| Glyph { ch: cells[from + i].ch, fg: now.0, bg: now.1 },
    );
    if from < to {
        let last = cells[to - 1].ch;
        a_text_is_read(cells, from, to - 1, html_char(last) + rest, page, now);
        a_glyph_is_read(last, rest, page, now);
        assert(html_chars(cells, from, to) + rest =~= html_chars(cells, from, to - 1) + (html_char(
            last,
        ) + rest));
        let before = Seq::new(
            (to - 1 - from) as nat,
            |i: int| Glyph { ch: cells[from + i].ch, fg: now.0, bg: now.1 },
        );
        let one = seq![Glyph { ch: last, fg: now.0, bg: now.1 }];
        assert(all =~= before + one);
        assert(all + glyphs(rest, page, now) =~= before + (one + glyphs(rest, page, now)));
    } else {
        assert(html_chars(cells, from, to) + rest =~= rest);
        assert(all + glyphs(rest, page, now) =~= glyphs(rest, page, now));
    }
}

/// A run of cells drawn in the same colours.
proof fn one_style(cells: Seq<Cell>, theme: &Theme, from: int, at: int, end: int, i: int)
    requires
        at <= end,
        at <= i < style_end(cells, theme, from, at, end),
    ensures
        resolved(cells[i], theme) == resolved(cells[from], theme),
    decreases end - at,
{
    if at < end && resolved(cells[at], theme) == resolved(cells[from], theme) && i > at {
        one_style(cells, theme, from, at + 1, end, i);
    }
}

proof fn a_run_goes_on(cells: Seq<Cell>, theme: &Theme, from: int, at: int, end: int)
    requires
        at <= end,
    ensures
        at <= style_end(cells, theme, from, at, end) <= end,
    decreases end - at,
{
    if at < end {
        a_run_goes_on(cells, theme, from, at + 1, end);
    }
}

proof fn a_run_is_read(cells: Seq<Cell>, theme: &Theme, from: int, to: int, rest: Seq<char>)
    requires
        0 <= from < to <= cells.len(),
        forall|i: int| from <= i < to ==> resolved(#[trigger] cells[i], theme) == resolved(
            cells[from],
            theme,
        ),
    ensures
        ({
            let page = (theme.foreground, theme.background);
            glyphs(html_run(cells, theme, from, to) + rest, page, page) == drawn_glyphs(
                cells,
                theme,
                from,
                to,
            ) + glyphs(rest, page, page)
        }),
{
    let page = (theme.foreground, theme.background);
    let (fg, bg) = resolved(cells[from], theme);
    let text = html_chars(cells, from, to);
    let mine = Seq::new(
        (to - from) as nat,
        |i: int| Glyph { ch: cells[from + i].ch, fg, bg },
    );
    assert(mine =~= drawn_glyphs(cells, theme, from, to)) by {
        assert forall|i: int| 0 <= i < to - from implies mine[i] == #[trigger] drawn_glyphs(
            cells,
            theme,
            from,
            to,
        )[i] by {
            assert(resolved(cells[from + i], theme) == resolved(cells[from], theme));
        }
    }
    if fg == theme.foreground && bg == theme.background {
        a_text_is_read(cells, from, to, rest, page, page);
    } else {
        the_texts();
        let open = "<span style=\"color:"@;
        let mid = ";background:"@;
        let close = "\">"@;
        let off = "</span>"@;
        let body = text + (off + rest);
        let s = open + css_color(fg) + mid + css_color(bg) + close + body;
        assert(html_run(cells, theme, from, to) + rest =~= s);
        assert(css_color(fg).len() == 7 && css_color(bg).len() == 7);
        assert(s.take(19) =~= open);
        assert(s[1] == open[1]);
        assert(s.take(7)[1] == s[1]);
        assert(s.subrange(19, 26) =~= css_color(fg));
        assert(s.subrange(38, 45) =~= css_color(bg));
        assert(s.skip(47) =~= body);
        a_colour_is_read_back(fg);
        a_colour_is_read_back(bg);
        assert(glyphs(s, page, page) == glyphs(body, page, (fg, bg)));
        a_text_is_read(cells, from, to, off + rest, page, (fg, bg));
        let t = off + rest;
        assert(t.take(7) =~= off);
        assert(t.skip(7) =~= rest);
        assert(glyphs(t, page, (fg, bg)) == glyphs(rest, page, page));
    }
}

/// A row of a page shows every character of the row in the very colours that its
/// cell is drawn in, foreground and background.
pub proof fn a_row_keeps_its_colours(
    cells: Seq<Cell>,
    theme: &Theme,
    from: int,
    end: int,
    rest: Seq<char>,
)
    requires
        0 <= from <= end <= cells.len(),
    ensures
        ({
            let page = (theme.foreground, theme.background);
            glyphs(html_cells(cells, theme, from, end) + rest, page, page) == drawn_glyphs(
                cells,
                theme,
                from,
                end,
            ) + glyphs(rest, page, page)
        }),
    decreases end - from,
{
    let page = (theme.foreground, theme.background);
    let all = drawn_glyphs(cells, theme, from, end);
    if from < end {
        let to = style_end(cells, theme, from, from + 1, end);
        a_run_goes_on(cells, theme, from, from + 1, end);
        assert forall|i: int| from <= i < to implies resolved(#[trigger] cells[i], theme)
            == resolved(cells[from], theme) by {
            if i > from {
                one_style(cells, theme, from, from + 1, end, i);
            }
        }
        let more = html_cells(cells, theme, to, end);
        a_run_is_read(cells, theme, from, to, more + rest);
        a_row_keeps_its_colours(cells, theme, to, end, rest);
        assert(html_cells(cells, theme, from, end) + rest =~= html_run(cells, theme, from, to) + (
        more + rest));
        let (a, b) = (drawn_glyphs(cells, theme, from, to), drawn_glyphs(cells, theme, to, end));
        assert(all =~= a + b);
        assert(all + glyphs(rest, page, page) =~= a + (b + glyphs(rest, page, page)));
    } else {
        assert(html_cells(cells, theme, from, end) + rest =~= rest);
        assert(all + glyphs(rest, page, page) =~= glyphs(rest, page, page));
    }
}

/// The glyphs of rows, a line feed in the page's colours behind each.
pub open spec fn drawn_rows(rows: Seq<RowState>, theme: &Theme) -> Seq<Glyph>
    decreases rows.len(),
{
    if rows.len() == 0 {
        Seq::empty()
    } else {
        let cells = rows.last().cells;
        drawn_rows(rows.drop_last(), theme) + drawn_glyphs(cells, theme, 0, used(cells) as int)
            + seq![Glyph { ch: '\n', fg: theme.foreground, bg: theme.background }]
    }
}

/// And so does a page, row after row.
pub proof fn a_page_keeps_its_colours(rows: Seq<RowState>, theme: &Theme, rest: Seq<char>)
    ensures
        ({
            let page = (theme.foreground, theme.background);
            glyphs(html_rows(rows, theme) + rest, page, page) == drawn_rows(rows, theme) + glyphs(
                rest,
                page,
                page,
            )
        }),
    decreases rows.len(),
{
    let page = (theme.foreground, theme.background);
    if rows.len() == 0 {
        assert(html_rows(rows, theme) + rest =~= rest);
        assert(drawn_rows(rows, theme) + glyphs(rest, page, page) =~= glyphs(rest, page, page));
    } else {
        let cells = rows.last().cells;
        let end = used(cells) as int;
        used_is_the_last_non_blank(cells);
        let before = html_rows(rows.drop_last(), theme);
        let here = html_cells(cells, theme, 0, end);
        let feed = seq!['\n'] + rest;
        a_page_keeps_its_colours(rows.drop_last(), theme, here + feed);
        a_row_keeps_its_colours(cells, theme, 0, end, feed);
        a_glyph_is_read('\n', rest, page, page);
        assert(html_char('\n') + rest =~= feed);
        assert(html_rows(rows, theme) + rest =~= before + (here + feed));
        let line = seq![Glyph { ch: '\n', fg: theme.foreground, bg: theme.background }];
        assert(drawn_rows(rows, theme) + glyphs(rest, page, page) =~= drawn_rows(
            rows.drop_last(),
            theme,
        ) + (drawn_glyphs(cells, theme, 0, end) + (line + glyphs(rest, page, page))));
    }
}

// ---- what is exported ---------------------------------------------------

/// The screen is exported alone or with what has scrolled off above it.
pub proof fn what_an_export_covers(grid: GridState, i: int)
    ensures
        covered(grid, Range::Screen) == grid.screen,
        covered(grid, Range::All).len() == grid.scrollback.len() + grid.screen.len(),
        0 <= i < grid.scrollback.len() ==> covered(grid, Range::All)[i] == grid.scrollback[i],
        0 <= i < grid.screen.len() ==> covered(grid, Range::All)[grid.scrollback.len() + i]
            == grid.screen[i],
{
}

/// Rows are exported a line each, and those at the end that show nothing are not.
pub proof fn a_line_for_each_row(rows: Seq<RowState>, row: RowState)
    ensures
        plain_text(Seq::<RowState>::empty()) == seq!['\n'],
        rows.len() > 0 && row.text().len() == 0 ==> plain_text(rows.push(row)) == plain_text(rows),
        row.text().len() > 0 && row.text().last() != '\n' ==> plain_text(seq![row]) == row.text()
            + seq!['\n'],
        row.text().len() > 0 && row.text().last() != '\n' && rows.len() > 0
            && rows.last().text().len() > 0 && rows.last().text().last() != '\n' ==> plain_text(
            rows.push(row),
        ) == plain_text(rows) + row.text() + seq!['\n'],
{
    let texts_of = |r: RowState| r.text();
    let before = rows.map_values(texts_of);
    let all = rows.push(row).map_values(texts_of);
    assert(Seq::<RowState>::empty().map_values(texts_of) =~= Seq::<Seq<char>>::empty());
    assert(plain_text(Seq::<RowState>::empty()) =~= seq!['\n']);
    assert(seq![row].map_values(texts_of) =~= seq![row.text()]);
    assert(all =~= before.push(row.text()));
    assert(all.drop_last() =~= before);
    if rows.len() > 0 {
        let feed = joined(before) + seq!['\n'];
        if row.text().len() == 0 {
            assert(joined(all) =~= feed);
            assert(feed.drop_last() =~= joined(before));
        } else if row.text().last() != '\n' {
            assert(joined(all) == feed + row.text());
            assert(joined(all).last() == row.text().last());
            if rows.last().text().len() > 0 && rows.last().text().last() != '\n' {
                assert(before.last() == rows.last().text());
                assert(joined(before).last() == before.last().last());
                assert(plain_text(rows.push(row)) =~= plain_text(rows) + row.text() + seq!['\n']);
            }
        }
    }
    if row.text().len() > 0 && row.text().last() != '\n' {
        assert(joined(seq![row.text()]) == row.text());
        assert(plain_text(seq![row]) =~= row.text() + seq!['\n']);
    }
}

/// A page is drawn in the theme's own colours: the background behind it, and the
/// foreground where nothing else is said.
pub proof fn a_page_is_drawn_in_the_colours_of_the_theme(rows: Seq<RowState>, theme: &Theme)
    ensures
        exists|back: Seq<char>, front: Seq<char>|
            {
                &&& css_read(back) == Some(theme.background)
                &&& css_read(front) == Some(theme.foreground)
                &&& html_page(rows, theme) == #[trigger] page_between(back, front) + html_rows(
                    rows,
                    theme,
                ) + "</pre></body></html>\n"@
            },
{
    a_colour_is_read_back(theme.background);
    a_colour_is_read_back(theme.foreground);
    let back = css_color(theme.background);
    let front = css_color(theme.foreground);
    assert(html_page(rows, theme) == page_between(back, front) + html_rows(rows, theme)
        + "</pre></body></html>\n"@);
}

/// The head of a page with a background and a foreground.
pub open spec fn page_between(back: Seq<char>, front: Seq<char>) -> Seq<char> {
    "<!doctype html>\n<html><head><meta charset=\"utf-8\">\n<title>IRIS session</title>\n<style>\n"@
        + "body { background: "@ + back + "; color: "@ + front + "; }\n"@
        + "pre { font-family: Consolas, \"DejaVu Sans Mono\", Menlo, monospace; font-size: 13px; line-height: 1.25; margin: 1rem; }\n"@
        + "</style></head><body><pre>"@
}

/// A file is named after its profile, its moment and its format, and what is no
/// letter or digit of the profile is a hyphen in it.
pub proof fn a_file_is_named_after_its_profile(
    profile: &str,
    stamp: &str,
    format: Format,
    name: String,
    i: int,
)
    requires
        call_ensures(suggested_name_at, (profile, stamp, format), name),
    ensures
        format == Format::Text ==> name@ == path_safe(profile@) + seq!['-'] + stamp@ + ".txt"@,
        format == Format::Html ==> name@ == path_safe(profile@) + seq!['-'] + stamp@ + ".html"@,
        path_safe(profile@).len() == profile@.len(),
        0 <= i < profile@.len() ==> name@[i] == if ('a' <= profile@[i] && profile@[i] <= 'z') || (
        'A' <= profile@[i] && profile@[i] <= 'Z') || ('0' <= profile@[i] && profile@[i] <= '9') {
            profile@[i]
        } else {
            '-'
        },
{
    reveal_strlit("txt");
    reveal_strlit(".txt");
    reveal_strlit("html");
    reveal_strlit(".html");
    let front = path_safe(profile@) + seq!['-'] + stamp@;
    assert(front + seq!['.'] + "txt"@ =~= front + ".txt"@);
    assert(front + seq!['.'] + "html"@ =~= front + ".html"@);
    if 0 <= i < profile@.len() {
        assert(name@[i] == path_safe(profile@)[i]);
    }
}

} // verus!
