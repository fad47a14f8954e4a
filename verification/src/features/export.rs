//! Exporting terminal output to a file or the clipboard.
//!
//! Shares the grid's rows with the clean logger, so what you export is exactly
//! what a transcript would have recorded.

use vstd::prelude::*;

use crate::clock::{names_a_moment, now_stamp};
use crate::term::cell::Cell;
use crate::term::grid::Grid;
use crate::term::palette::{resolve, resolved, Rgb, Theme};
use crate::term::row::Row;
use crate::term::state::{used, used_is_the_last_non_blank, GridState, RowState};
use crate::text::{ascii_alnum, behind, chars_of, is_alnum, join_from, joined, text_of, views};

verus! {

#[derive(Clone, Copy, Debug, PartialEq, Eq, Structural)]
pub enum Range {
    /// Just what is on screen now.
    Screen,
    /// Scrollback plus screen.
    All,
}

#[derive(Clone, Copy, Debug, PartialEq, Eq, Structural)]
pub enum Format {
    /// Plain text, trailing blanks trimmed.
    Text,
    /// HTML preserving foreground/background colours.
    Html,
}

impl Format {
    pub open spec fn ending(self) -> Seq<char> {
        match self {
            Format::Text => "txt"@,
            Format::Html => "html"@,
        }
    }

    pub fn extension(self) -> (ext: &'static str)
        ensures
            ext@ == self.ending(),
    {
        match self {
            Format::Text => "txt",
            Format::Html => "html",
        }
    }
}

/// Rows covered by a range, oldest first.
pub open spec fn covered(grid: GridState, range: Range) -> Seq<RowState> {
    match range {
        Range::Screen => grid.screen,
        Range::All => grid.scrollback + grid.screen,
    }
}

/// The states behind references to rows.
pub open spec fn row_states(rows: Seq<&Row>) -> Seq<RowState> {
    rows.map_values(|r: &Row| r@)
}

pub fn rows<'a>(grid: &'a Grid, range: Range) -> (rows: Vec<&'a Row>)
    ensures
        row_states(rows@) == covered(grid@, range),
{
    let mut rows: Vec<&'a Row> = Vec::new();
    let from = match range {
        Range::Screen => grid.scrollback.len(),
        Range::All => 0,
    };
    let ghost want = covered(grid@, range);
    let mut i: usize = from;
    while i < grid.scrollback.len()
        invariant
            from <= i <= grid.scrollback@.len(),
            rows@.len() == i - from,
            forall|k: int|
                0 <= k < rows@.len() ==> (#[trigger] rows@[k])@ == grid@.scrollback[from + k],
        decreases grid.scrollback.len() - i,
    {
        rows.push(&grid.scrollback[i]);
        i += 1;
    }
    let ghost history = rows@.len();
    let mut k: usize = 0;
    while k < grid.screen.len()
        invariant
            k <= grid.screen@.len(),
            rows@.len() == history + k,
            forall|j: int|
                0 <= j < history ==> (#[trigger] rows@[j])@ == grid@.scrollback[from + j],
            forall|j: int|
                history <= j < rows@.len() ==> (#[trigger] rows@[j])@ == grid@.screen[j - history],
        decreases grid.screen.len() - k,
    {
        rows.push(&grid.screen[k]);
        k += 1;
    }
    assert(row_states(rows@) =~= want);
    rows
}

// ---- text ---------------------------------------------------------------

/// A text without the line feeds at its end.
pub open spec fn without_line_feeds(s: Seq<char>) -> Seq<char>
    decreases s.len(),
{
    if s.len() > 0 && s.last() == '\n' {
        without_line_feeds(s.drop_last())
    } else {
        s
    }
}

/// Rows as text: one a line, blank ones at the end left off.
pub open spec fn plain_text(rows: Seq<RowState>) -> Seq<char> {
    without_line_feeds(joined(rows.map_values(|r: RowState| r.text()))).push('\n')
}

pub fn to_text(grid: &Grid, range: Range) -> (out: String)
    ensures
        out@ == plain_text(covered(grid@, range)),
{
    let rows = rows(grid, range);
    let ghost want = covered(grid@, range).map_values(|r: RowState| r.text());
    let mut lines: Vec<Vec<char>> = Vec::new();
    let mut i: usize = 0;
    while i < rows.len()
        invariant
            i <= rows@.len(),
            lines@.len() == i,
            forall|k: int| 0 <= k < i ==> (#[trigger] lines@[k])@ == rows@[k]@.text(),
        decreases rows.len() - i,
    {
        lines.push(chars_of(rows[i].to_text().as_str()));
        i += 1;
    }
    assert forall|k: int| 0 <= k < rows@.len() implies views(lines@)[k] == #[trigger] want[k] by {
        assert(row_states(rows@)[k] == rows@[k]@);
    }
    assert(views(lines@) =~= want);
    let mut chars = join_from(&lines, 0);
    assert(views(lines@).skip(0) =~= views(lines@));
    let ghost all = chars@;
    // A terminal screen is mostly blank at the bottom; exporting a page of
    // empty lines is noise.
    while chars.len() > 0 && chars[chars.len() - 1] == '\n'
        invariant
            without_line_feeds(chars@) == without_line_feeds(all),
        decreases chars.len(),
    {
        let ghost before = chars@;
        let _ = chars.pop();
        assert(chars@ =~= before.drop_last());
    }
    chars.push('\n');
    text_of(chars.as_slice())
}

// ---- HTML ---------------------------------------------------------------

pub open spec fn hex_digit(n: nat) -> char {
    if n < 10 {
        (48 + n) as char
    } else {
        (87 + n) as char
    }
}

/// A colour in CSS: a hash and two hexadecimal digits for each part.
pub open spec fn css_color(c: Rgb) -> Seq<char> {
    seq![
        '#',
        hex_digit((c.r / 16) as nat),
        hex_digit((c.r % 16) as nat),
        hex_digit((c.g / 16) as nat),
        hex_digit((c.g % 16) as nat),
        hex_digit((c.b / 16) as nat),
        hex_digit((c.b % 16) as nat),
    ]
}

fn push_hex(out: &mut String, n: u8)
    ensures
        final(out)@ == old(out)@ + seq![hex_digit((n / 16) as nat), hex_digit((n % 16) as nat)],
{
    let (high, low) = (n / 16, n % 16);
    out.push(
        if high < 10 {
            (48 + high) as char
        } else {
            (87 + high) as char
        },
    );
    out.push(
        if low < 10 {
            (48 + low) as char
        } else {
            (87 + low) as char
        },
    );
    assert(out@ =~= old(out)@ + seq![hex_digit((n / 16) as nat), hex_digit((n % 16) as nat)]);
}

fn push_css(out: &mut String, color: Rgb)
    ensures
        final(out)@ == old(out)@ + css_color(color),
{
    out.push('#');
    push_hex(out, color.r);
    push_hex(out, color.g);
    push_hex(out, color.b);
    assert(out@ =~= old(out)@ + css_color(color));
}

/// What a character becomes in HTML.
pub open spec fn html_char(c: char) -> Seq<char> {
    if c == '&' {
        "&amp;"@
    } else if c == '<' {
        "&lt;"@
    } else if c == '>' {
        "&gt;"@
    } else {
        seq![c]
    }
}

/// Columns `from..to` of a row in HTML.
pub open spec fn html_chars(cells: Seq<Cell>, from: int, to: int) -> Seq<char>
    decreases to - from,
{
    if from >= to {
        Seq::empty()
    } else {
        html_chars(cells, from, to - 1) + html_char(cells[to - 1].ch)
    }
}

/// Where the run of columns drawn in the same colours as `from` ends.
pub open spec fn style_end(cells: Seq<Cell>, theme: &Theme, from: int, at: int, end: int) -> int
    decreases end - at,
{
    if at < end && resolved(cells[at], theme) == resolved(cells[from], theme) {
        style_end(cells, theme, from, at + 1, end)
    } else {
        at
    }
}

/// A run of columns: as it stands in the theme's own colours, in a span of its
/// own otherwise.
pub open spec fn html_run(cells: Seq<Cell>, theme: &Theme, from: int, to: int) -> Seq<char> {
    let (fg, bg) = resolved(cells[from], theme);
    if fg == theme.foreground && bg == theme.background {
        html_chars(cells, from, to)
    } else {
        "<span style=\"color:"@ + css_color(fg) + ";background:"@ + css_color(bg) + "\">"@
            + html_chars(cells, from, to) + "</span>"@
    }
}

/// A row from column `from` on, runs of identical styling batched.
pub open spec fn html_cells(cells: Seq<Cell>, theme: &Theme, from: int, end: int) -> Seq<char>
    decreases end - from,
{
    if from >= end || from < 0 {
        Seq::empty()
    } else {
        let to = style_end(cells, theme, from, from + 1, end);
        if from < to <= end {
            html_run(cells, theme, from, to) + html_cells(cells, theme, to, end)
        } else {
            Seq::empty()
        }
    }
}

pub open spec fn html_rows(rows: Seq<RowState>, theme: &Theme) -> Seq<char>
    decreases rows.len(),
{
    if rows.len() == 0 {
        Seq::empty()
    } else {
        let cells = rows.last().cells;
        html_rows(rows.drop_last(), theme) + html_cells(cells, theme, 0, used(cells) as int)
            + seq!['\n']
    }
}

pub open spec fn html_head(theme: &Theme) -> Seq<char> {
    "<!doctype html>\n<html><head><meta charset=\"utf-8\">\n<title>IRIS session</title>\n<style>\n"@
        + "body { background: "@ + css_color(theme.background) + "; color: "@ + css_color(
        theme.foreground,
    ) + "; }\n"@
        + "pre { font-family: Consolas, \"DejaVu Sans Mono\", Menlo, monospace; font-size: 13px; line-height: 1.25; margin: 1rem; }\n"@
        + "</style></head><body><pre>"@
}

/// A whole page.
pub open spec fn html_page(rows: Seq<RowState>, theme: &Theme) -> Seq<char> {
    html_head(theme) + html_rows(rows, theme) + "</pre></body></html>\n"@
}

fn push_html_chars(out: &mut String, cells: &Vec<Cell>, from: usize, to: usize)
    requires
        from <= to <= cells@.len(),
    ensures
        final(out)@ == old(out)@ + html_chars(cells@, from as int, to as int),
{
    let mut i: usize = from;
    while i < to
        invariant
            from <= i <= to <= cells@.len(),
            out@ =~= old(out)@ + html_chars(cells@, from as int, i as int),
        decreases to - i,
    {
        match cells[i].ch {
            '&' => out.append("&amp;"),
            '<' => out.append("&lt;"),
            '>' => out.append("&gt;"),
            c => out.push(c),
        }
        i += 1;
    }
}

fn push_run(out: &mut String, cells: &Vec<Cell>, theme: &Theme, from: usize, to: usize)
    requires
        from < to <= cells@.len(),
    ensures
        final(out)@ == old(out)@ + html_run(cells@, theme, from as int, to as int),
{
    let (fg, bg) = resolve(&cells[from], theme);
    if fg == theme.foreground && bg == theme.background {
        push_html_chars(out, cells, from, to);
    } else {
        out.append("<span style=\"color:");
        push_css(out, fg);
        out.append(";background:");
        push_css(out, bg);
        out.append("\">");
        push_html_chars(out, cells, from, to);
        out.append("</span>");
    }
    assert(out@ =~= old(out)@ + html_run(cells@, theme, from as int, to as int));
}

fn find_style_end(cells: &Vec<Cell>, theme: &Theme, from: usize, end: usize) -> (to: usize)
    requires
        from < end <= cells@.len(),
    ensures
        to == style_end(cells@, theme, from as int, from + 1, end as int),
        from < to <= end,
{
    let (fg, bg) = resolve(&cells[from], theme);
    let mut to: usize = from + 1;
    while to < end
        invariant
            from < to <= end <= cells@.len(),
            (fg, bg) == resolved(cells@[from as int], theme),
            style_end(cells@, theme, from as int, from + 1, end as int) == style_end(
                cells@,
                theme,
                from as int,
                to as int,
                end as int,
            ),
        decreases end - to,
    {
        let (next_fg, next_bg) = resolve(&cells[to], theme);
        if next_fg != fg || next_bg != bg {
            return to;
        }
        to += 1;
    }
    to
}

fn push_cells(out: &mut String, row: &Row, theme: &Theme)
    ensures
        final(out)@ == old(out)@ + html_cells(
            row@.cells,
            theme,
            0,
            used(row@.cells) as int,
        ),
{
    let end = row.used_width();
    let ghost cells = row.cells@;
    let mut col: usize = 0;
    while col < end
        invariant
            col <= end <= row.cells@.len(),
            cells == row.cells@,
            end == used(cells),
            out@ + html_cells(cells, theme, col as int, end as int) =~= old(out)@ + html_cells(
                cells,
                theme,
                0,
                end as int,
            ),
        decreases end - col,
    {
        // Batch runs of identical styling into one span, exactly as whatever
        // draws the screen batches draw calls.
        let to = find_style_end(&row.cells, theme, col, end);
        push_run(out, &row.cells, theme, col, to);
        col = to;
    }
}

fn push_head(out: &mut String, theme: &Theme)
    ensures
        final(out)@ == old(out)@ + html_head(theme),
{
    out.append(
        "<!doctype html>\n<html><head><meta charset=\"utf-8\">\n<title>IRIS session</title>\n<style>\n",
    );
    out.append("body { background: ");
    push_css(out, theme.background);
    out.append("; color: ");
    push_css(out, theme.foreground);
    out.append("; }\n");
    out.append(
        "pre { font-family: Consolas, \"DejaVu Sans Mono\", Menlo, monospace; font-size: 13px; line-height: 1.25; margin: 1rem; }\n",
    );
    out.append("</style></head><body><pre>");
    assert(out@ =~= old(out)@ + html_head(theme));
}

/// Renders to standalone HTML with the theme's colours baked in, so the file
/// looks like the terminal did when it was exported.
pub fn to_html(grid: &Grid, range: Range, theme: &Theme) -> (out: String)
    ensures
        out@ == html_page(covered(grid@, range), theme),
{
    let mut out = String::new();
    push_head(&mut out, theme);
    assert(out@ =~= html_head(theme));
    let rows = rows(grid, range);
    let ghost want = covered(grid@, range);
    let mut i: usize = 0;
    assert(want.take(0) =~= Seq::empty());
    while i < rows.len()
        invariant
            i <= rows@.len(),
            want == row_states(rows@),
            out@ =~= html_head(theme) + html_rows(want.take(i as int), theme),
        decreases rows.len() - i,
    {
        assert(want.take(i + 1).drop_last() =~= want.take(i as int));
        assert(want[i as int] == rows@[i as int]@);
        push_cells(&mut out, rows[i], theme);
        out.push('\n');
        i += 1;
    }
    assert(want.take(i as int) =~= want);
    out.append("</pre></body></html>\n");
    assert(out@ =~= html_page(want, theme));
    out
}

// ---- names --------------------------------------------------------------

/// A name that is safe in a path: whatever is not a letter or digit becomes a
/// hyphen.
pub open spec fn path_safe(s: Seq<char>) -> Seq<char> {
    s.map_values(
        |c: char|
            if ascii_alnum(c) {
                c
            } else {
                '-'
            },
    )
}

/// A character that no platform reads as anything but part of a file's name.
pub open spec fn in_a_file_name(c: char) -> bool {
    ascii_alnum(c) || c == '-' || c == '+' || c == '.'
}

/// A filename for an export made at a given moment.
pub fn suggested_name_at(profile: &str, stamp: &str, format: Format) -> (name: String)
    ensures
        name@ == path_safe(profile@) + seq!['-'] + stamp@ + seq!['.'] + format.ending(),
{
    let chars = chars_of(profile);
    let mut name = String::new();
    let mut i: usize = 0;
    while i < chars.len()
        invariant
            i <= chars@.len(),
            chars@ == profile@,
            name@ =~= path_safe(profile@).take(i as int),
        decreases chars.len() - i,
    {
        if is_alnum(chars[i]) {
            name.push(chars[i]);
        } else {
            name.push('-');
        }
        i += 1;
    }
    name.push('-');
    name.append(stamp);
    name.push('.');
    name.append(format.extension());
    assert(name@ =~= path_safe(profile@) + seq!['-'] + stamp@ + seq!['.'] + format.ending());
    name
}

/// A default filename for an export, stamped so repeated exports do not
/// silently overwrite one another.
pub fn suggested_name(profile: &str, format: Format) -> (name: String)
    ensures
        exists|stamp: Seq<char>|
            names_a_moment(stamp) && name@ == #[trigger] (path_safe(profile@) + seq!['-'] + stamp)
                + seq!['.'] + format.ending(),
        forall|i: int| 0 <= i < name@.len() ==> in_a_file_name(#[trigger] name@[i]),
{
    let stamp = now_stamp("%Y%m%d-%H%M%S");
    proof {
        a_suggested_name_is_safe(profile@, stamp@, format);
    }
    suggested_name_at(profile, stamp.as_str(), format)
}

// ---- laws ---------------------------------------------------------------

/// However a name was chosen, no separator of it survives in the file name.
pub proof fn no_separator_survives(profile: Seq<char>)
    ensures
        forall|i: int|
            0 <= i < profile.len() ==> ascii_alnum(#[trigger] path_safe(profile)[i])
                || path_safe(profile)[i] == '-',
{
}

/// Nor does the moment or the format put one there.
pub proof fn a_suggested_name_is_safe(profile: Seq<char>, stamp: Seq<char>, format: Format)
    requires
        names_a_moment(stamp),
    ensures
        ({
            let name = path_safe(profile) + seq!['-'] + stamp + seq!['.'] + format.ending();
            forall|i: int| 0 <= i < name.len() ==> in_a_file_name(#[trigger] name[i])
        }),
{
    reveal_strlit("txt");
    reveal_strlit("html");
    let name = path_safe(profile) + seq!['-'] + stamp + seq!['.'] + format.ending();
    let (n, m) = (profile.len() as int, stamp.len() as int);
    assert forall|i: int| 0 <= i < name.len() implies in_a_file_name(#[trigger] name[i]) by {
        if i < n {
            assert(name[i] == path_safe(profile)[i]);
        } else if n < i <= n + m {
            assert(name[i] == stamp[i - n - 1]);
        } else if i > n + m + 1 {
            assert(name[i] == format.ending()[i - n - m - 2]);
        }
    }
}

/// Exports of one profile at two moments never get the same name.
pub proof fn another_moment_gets_another_name(
    profile: Seq<char>,
    one: Seq<char>,
    other: Seq<char>,
    format: Format,
)
    requires
        one != other,
    ensures
        path_safe(profile) + seq!['-'] + one + seq!['.'] + format.ending() != path_safe(profile)
            + seq!['-'] + other + seq!['.'] + format.ending(),
{
    let a = path_safe(profile) + seq!['-'] + one + seq!['.'] + format.ending();
    let b = path_safe(profile) + seq!['-'] + other + seq!['.'] + format.ending();
    let from = profile.len() + 1;
    if a == b {
        assert(a.len() == from + one.len() + 1 + format.ending().len());
        assert(b.len() == from + other.len() + 1 + format.ending().len());
        assert(a.subrange(from as int, (from + one.len()) as int) =~= one);
        assert(b.subrange(from as int, (from + one.len()) as int) =~= other);
    }
}

/// An export ends with exactly one line feed, however blank the screen is.
pub proof fn an_export_ends_with_one_line_feed(rows: Seq<RowState>)
    ensures
        plain_text(rows).last() == '\n',
        plain_text(rows).len() > 1 ==> plain_text(rows)[plain_text(rows).len() - 2] != '\n',
{
    line_feeds_are_gone(joined(rows.map_values(|r: RowState| r.text())));
}

proof fn line_feeds_are_gone(s: Seq<char>)
    ensures
        without_line_feeds(s).len() > 0 ==> without_line_feeds(s).last() != '\n',
    decreases s.len(),
{
    if s.len() > 0 && s.last() == '\n' {
        line_feeds_are_gone(s.drop_last());
    }
}

/// Markup in the session stays text: no `<`, `>` or bare `&` of a cell reaches
/// the page as one.
pub proof fn markup_stays_text(c: char)
    ensures
        forall|i: int|
            0 <= i < html_char(c).len() ==> #[trigger] html_char(c)[i] != '<' && html_char(c)[i]
                != '>',
        html_char(c)[0] == '&' ==> html_char(c).last() == ';',
{
    reveal_strlit("&amp;");
    reveal_strlit("&lt;");
    reveal_strlit("&gt;");
}

// ---- what a page shows --------------------------------------------------

/// Where the tag that a text goes on with ends, searching from `i`.
pub open spec fn tag_end(s: Seq<char>, i: int) -> int
    decreases s.len() - i,
{
    if i < 0 || i >= s.len() {
        s.len() as int
    } else if s[i] == '>' {
        i + 1
    } else {
        tag_end(s, i + 1)
    }
}

/// What is shown of some HTML: its tags left out, and its references read as
/// the characters they stand for.
pub open spec fn shown(s: Seq<char>) -> Seq<char>
    decreases s.len(),
{
    if s.len() == 0 {
        Seq::empty()
    } else if s[0] == '<' {
        if 0 < tag_end(s, 0) <= s.len() {
            shown(s.skip(tag_end(s, 0)))
        } else {
            Seq::empty()
        }
    } else if behind(s, "&amp;"@) is Some && "&amp;"@.len() > 0 {
        seq!['&'] + shown(behind(s, "&amp;"@)->0)
    } else if behind(s, "&lt;"@) is Some && "&lt;"@.len() > 0 {
        seq!['<'] + shown(behind(s, "&lt;"@)->0)
    } else if behind(s, "&gt;"@) is Some && "&gt;"@.len() > 0 {
        seq!['>'] + shown(behind(s, "&gt;"@)->0)
    } else {
        seq![s[0]] + shown(s.skip(1))
    }
}

/// The characters of columns `from..to`.
pub open spec fn chars_between(cells: Seq<Cell>, from: int, to: int) -> Seq<char> {
    cells.subrange(from, to).map_values(|c: Cell| c.ch)
}

/// The texts of rows, each ended by a line feed.
pub open spec fn ended_lines(rows: Seq<RowState>) -> Seq<char>
    decreases rows.len(),
{
    if rows.len() == 0 {
        Seq::empty()
    } else {
        ended_lines(rows.drop_last()) + rows.last().text() + seq!['\n']
    }
}

proof fn references()
    ensures
        "&amp;"@ == seq!['&', 'a', 'm', 'p', ';'],
        "&lt;"@ == seq!['&', 'l', 't', ';'],
        "&gt;"@ == seq!['&', 'g', 't', ';'],
{
    reveal_strlit("&amp;");
    reveal_strlit("&lt;");
    reveal_strlit("&gt;");
    assert("&amp;"@ =~= seq!['&', 'a', 'm', 'p', ';']);
    assert("&lt;"@ =~= seq!['&', 'l', 't', ';']);
    assert("&gt;"@ =~= seq!['&', 'g', 't', ';']);
}

proof fn a_character_is_shown(c: char, rest: Seq<char>)
    ensures
        shown(html_char(c) + rest) == seq![c] + shown(rest),
{
    references();
    let s = html_char(c) + rest;
    let n = html_char(c).len() as int;
    assert(s.take(n) =~= html_char(c));
    assert(s.skip(n) =~= rest);
    assert(s[0] == html_char(c)[0]);
    if n > 1 {
        assert(s[1] == html_char(c)[1]);
    }
    if s.len() >= 5 {
        assert(s.take(5)[0] == s[0] && s.take(5)[1] == s[1]);
    }
    if s.len() >= 4 {
        assert(s.take(4)[0] == s[0] && s.take(4)[1] == s[1]);
    }
}

proof fn the_end_of_a_tag(tag: Seq<char>, rest: Seq<char>, i: int)
    requires
        0 <= i < tag.len(),
        tag.last() == '>',
        forall|k: int| 0 <= k < tag.len() - 1 ==> #[trigger] tag[k] != '>',
    ensures
        tag_end(tag + rest, i) == tag.len(),
    decreases tag.len() - i,
{
    assert((tag + rest)[i] == tag[i]);
    if i < tag.len() - 1 {
        the_end_of_a_tag(tag, rest, i + 1);
    }
}

proof fn a_tag_is_not_shown(tag: Seq<char>, rest: Seq<char>)
    requires
        tag.len() > 0,
        tag[0] == '<',
        tag.last() == '>',
        forall|k: int| 0 <= k < tag.len() - 1 ==> #[trigger] tag[k] != '>',
    ensures
        shown(tag + rest) == shown(rest),
{
    the_end_of_a_tag(tag, rest, 0);
    assert((tag + rest)[0] == tag[0]);
    assert((tag + rest).skip(tag.len() as int) =~= rest);
}

proof fn characters_are_shown(cells: Seq<Cell>, from: int, to: int, rest: Seq<char>)
    requires
        0 <= from <= to <= cells.len(),
    ensures
        shown(html_chars(cells, from, to) + rest) == chars_between(cells, from, to) + shown(rest),
    decreases to - from,
{
    let c = chars_between(cells, from, to);
    if from < to {
        let last = cells[to - 1].ch;
        characters_are_shown(cells, from, to - 1, html_char(last) + rest);
        a_character_is_shown(last, rest);
        assert(html_chars(cells, from, to) + rest =~= html_chars(cells, from, to - 1) + (html_char(
            last,
        ) + rest));
        assert(c =~= chars_between(cells, from, to - 1) + seq![last]);
        assert(c + shown(rest) =~= chars_between(cells, from, to - 1) + (seq![last] + shown(rest)));
    } else {
        assert(html_chars(cells, from, to) + rest =~= rest);
        assert(c + shown(rest) =~= shown(rest));
    }
}

/// The opening tag of a run.
spec fn span_tag(fg: Rgb, bg: Rgb) -> Seq<char> {
    "<span style=\"color:"@ + css_color(fg) + ";background:"@ + css_color(bg) + "\">"@
}

proof fn hexadecimal_is_no_tag_end(n: nat)
    requires
        n < 16,
    ensures
        hex_digit(n) != '>',
{
}

proof fn a_span_is_a_tag(fg: Rgb, bg: Rgb)
    ensures
        ({
            let tag = span_tag(fg, bg);
            &&& tag.len() > 0
            &&& tag[0] == '<'
            &&& tag.last() == '>'
            &&& forall|k: int| 0 <= k < tag.len() - 1 ==> #[trigger] tag[k] != '>'
        }),
        ({
            let tag = "</span>"@;
            &&& tag.len() > 0
            &&& tag[0] == '<'
            &&& tag.last() == '>'
            &&& forall|k: int| 0 <= k < tag.len() - 1 ==> #[trigger] tag[k] != '>'
        }),
{
    reveal_strlit("<span style=\"color:");
    reveal_strlit(";background:");
    reveal_strlit("\">");
    reveal_strlit("</span>");
    assert forall|n: nat| n < 16 implies #[trigger] hex_digit(n) != '>' by {
        hexadecimal_is_no_tag_end(n);
    }
    let tag = span_tag(fg, bg);
    let (a, b, c) = ("<span style=\"color:"@, ";background:"@, "\">"@);
    assert forall|k: int| 0 <= k < tag.len() - 1 implies #[trigger] tag[k] != '>' by {
        let n = a.len() as int;
        let m = n + 7 + b.len();
        if k < n {
            assert(tag[k] == a[k]);
        } else if k < n + 7 {
            assert(tag[k] == css_color(fg)[k - n]);
        } else if k < m {
            assert(tag[k] == b[k - n - 7]);
        } else if k < m + 7 {
            assert(tag[k] == css_color(bg)[k - m]);
        } else {
            assert(tag[k] == c[k - m - 7]);
        }
    }
}

proof fn a_run_is_shown(cells: Seq<Cell>, theme: &Theme, from: int, to: int, rest: Seq<char>)
    requires
        0 <= from < to <= cells.len(),
    ensures
        shown(html_run(cells, theme, from, to) + rest) == chars_between(cells, from, to) + shown(
            rest,
        ),
{
    let (fg, bg) = resolved(cells[from], theme);
    if fg == theme.foreground && bg == theme.background {
        characters_are_shown(cells, from, to, rest);
    } else {
        let text = html_chars(cells, from, to);
        let close = "</span>"@;
        a_span_is_a_tag(fg, bg);
        a_tag_is_not_shown(span_tag(fg, bg), text + (close + rest));
        characters_are_shown(cells, from, to, close + rest);
        a_tag_is_not_shown(close, rest);
        assert(html_run(cells, theme, from, to) + rest =~= span_tag(fg, bg) + (text + (close
            + rest)));
    }
}

proof fn a_row_is_shown(cells: Seq<Cell>, theme: &Theme, from: int, end: int, rest: Seq<char>)
    requires
        0 <= from <= end <= cells.len(),
    ensures
        shown(html_cells(cells, theme, from, end) + rest) == chars_between(cells, from, end)
            + shown(rest),
    decreases end - from,
{
    let c = chars_between(cells, from, end);
    if from < end {
        let to = style_end(cells, theme, from, from + 1, end);
        a_run_goes_on(cells, theme, from, from + 1, end);
        let more = html_cells(cells, theme, to, end);
        a_run_is_shown(cells, theme, from, to, more + rest);
        a_row_is_shown(cells, theme, to, end, rest);
        assert(html_cells(cells, theme, from, end) + rest =~= html_run(cells, theme, from, to) + (
        more + rest));
        assert(c =~= chars_between(cells, from, to) + chars_between(cells, to, end));
        assert(c + shown(rest) =~= chars_between(cells, from, to) + (chars_between(cells, to, end)
            + shown(rest)));
    } else {
        assert(html_cells(cells, theme, from, end) + rest =~= rest);
        assert(c + shown(rest) =~= shown(rest));
    }
}

proof fn a_run_goes_on(cells: Seq<Cell>, theme: &Theme, from: int, at: int, end: int)
    requires
        at <= end,
    ensures
        at <= style_end(cells, theme, from, at, end) <= end,
    decreases end - at,
{
    if at < end {
        a_run_goes_on(cells, theme, from, at + 1, end);
    }
}

proof fn rows_are_shown(rows: Seq<RowState>, theme: &Theme, rest: Seq<char>)
    ensures
        shown(html_rows(rows, theme) + rest) == ended_lines(rows) + shown(rest),
    decreases rows.len(),
{
    if rows.len() == 0 {
        assert(html_rows(rows, theme) + rest =~= rest);
        assert(ended_lines(rows) + shown(rest) =~= shown(rest));
    } else {
        let row = rows.last();
        let end = used(row.cells) as int;
        let before = html_rows(rows.drop_last(), theme);
        let here = html_cells(row.cells, theme, 0, end);
        let feed = seq!['\n'] + rest;
        used_is_the_last_non_blank(row.cells);
        rows_are_shown(rows.drop_last(), theme, here + feed);
        a_row_is_shown(row.cells, theme, 0, end, feed);
        a_character_is_shown('\n', rest);
        assert(html_rows(rows, theme) + rest =~= before + (here + feed));
        assert(row.text() =~= chars_between(row.cells, 0, end));
        assert(ended_lines(rows) + shown(rest) =~= ended_lines(rows.drop_last()) + (row.text() + (
        seq!['\n'] + shown(rest))));
    }
}

/// What is shown between the two ends of a page is the text of the rows, each on
/// a line of its own: no colour and no markup in the text changes a character
/// of it.
pub proof fn a_page_shows_the_text(rows: Seq<RowState>, theme: &Theme)
    ensures
        shown(html_rows(rows, theme)) == ended_lines(rows),
{
    rows_are_shown(rows, theme, Seq::empty());
    assert(html_rows(rows, theme) + Seq::<char>::empty() =~= html_rows(rows, theme));
    assert(ended_lines(rows) + shown(Seq::<char>::empty()) =~= ended_lines(rows));
}

/// A run in the theme's own colours stands in no span, nor in any other tag.
pub proof fn the_themes_own_colours_need_no_span(
    cells: Seq<Cell>,
    theme: &Theme,
    from: int,
    to: int,
)
    requires
        resolved(cells[from], theme) == (theme.foreground, theme.background),
    ensures
        !html_run(cells, theme, from, to).contains('<'),
{
    no_tag_among_characters(cells, from, to);
}

proof fn no_tag_among_characters(cells: Seq<Cell>, from: int, to: int)
    ensures
        !html_chars(cells, from, to).contains('<'),
    decreases to - from,
{
    if from < to {
        references();
        no_tag_among_characters(cells, from, to - 1);
        let before = html_chars(cells, from, to - 1);
        let all = html_chars(cells, from, to);
        if all.contains('<') {
            let k = choose|k: int| 0 <= k < all.len() && all[k] == '<';
            if k < before.len() {
                assert(before[k] == '<');
            } else {
                assert(html_char(cells[to - 1].ch)[k - before.len()] == '<');
            }
        }
    }
}

} // verus!
