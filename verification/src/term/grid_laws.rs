//! What holds of the grid across its operations.

use std::time::Instant;
use vstd::prelude::*;

use super::cell::Cell;
use super::grid::REPAINT_WINDOW;
use super::state::{
    blank_rows, blanked, content, content_is_a_prefix, filed, greater, lose_row_frame, lost_rows,
    trim_is_idempotent, used, used_is_the_last_non_blank, GridState, RowState, SweepState,
};
use crate::clock::nanos_apart;

verus! {

/// The rows [`content`] leaves off, and those it keeps.
proof fn content_length(rows: Seq<RowState>) -> (n: int)
    ensures
        0 <= n <= rows.len(),
        content(rows) == rows.take(n),
        n > 0 ==> used(rows[n - 1].cells) > 0,
        forall|i: int| n <= i < rows.len() ==> used((#[trigger] rows[i]).cells) == 0,
    decreases rows.len(),
{
    if rows.len() == 0 || used(rows.last().cells) > 0 {
        assert(rows.take(rows.len() as int) =~= rows);
        rows.len() as int
    } else {
        let n = content_length(rows.drop_last());
        assert(rows.drop_last().take(n) =~= rows.take(n));
        assert forall|i: int| n <= i < rows.len() implies used((#[trigger] rows[i]).cells) == 0 by {
            if i < rows.len() - 1 {
                assert(used(rows.drop_last()[i].cells) == 0);
            }
        }
        n
    }
}

/// Rows that were trimmed beforehand are filed as the rows themselves are.
pub proof fn trimmed_rows_file_the_same(history: Seq<RowState>, limit: int, rows: Seq<RowState>)
    ensures
        filed(history, limit, content(rows.map_values(|r: RowState| r.trim()))) == filed(
            history,
            limit,
            content(rows),
        ),
{
    let trim = |r: RowState| r.trim();
    let trimmed = rows.map_values(trim);
    let n = content_length(rows);
    assert forall|i: int| 0 <= i < rows.len() implies used(trimmed[i].cells) == used(
        rows[i].cells,
    ) && trimmed[i].trim() == rows[i].trim() by {
        trim_is_idempotent(rows[i]);
    }
    content_is_a_prefix(trimmed, n);
    assert(trimmed.take(n).map_values(trim) =~= rows.take(n).map_values(trim));
}

/// Nothing the far side sends, and no resize, makes the history longer than its
/// limit.
pub proof fn history_stays_within_its_limit(s: GridState, row: int, n: nat, ch: char, now: Instant)
    requires
        s.wf(),
        s.scrollback.len() <= s.limit,
    ensures
        s.print(ch).scrollback.len() <= s.limit,
        s.line_feed().scrollback.len() <= s.limit,
        s.scroll_up(n as int).scrollback.len() <= s.limit,
        s.erase_in_display(row).scrollback.len() <= s.limit,
        s.erase_in_line(row).scrollback.len() <= s.limit,
        s.erase_chars(n as int).scrollback.len() <= s.limit,
        s.reset().scrollback.len() <= s.limit,
        s.hard_reset().scrollback.len() <= s.limit,
        s.resize(row, n as int, now).scrollback.len() <= s.limit,
{
    destroying_keeps_the_limit(s, s.cursor.row as int, s.rows);
    let rows = greater(n as int, 1);
    let narrow = GridState { clear: None, resized_at: Some(now), ..s }.with_cols(greater(row, 1));
    if rows < s.rows {
        losing_rows_keeps_the_limit(narrow, (s.rows - rows) as nat);
    }
}

proof fn losing_rows_keeps_the_limit(s: GridState, n: nat)
    requires
        n < s.screen.len(),
        s.scrollback.len() <= s.limit,
    ensures
        s.lose_rows(n).scrollback.len() <= s.limit,
        lost_rows(s, n),
    decreases n,
{
    if n > 0 {
        losing_rows_keeps_the_limit(s, (n - 1) as nat);
        lose_row_frame(s, (n - 1) as nat);
    }
}

proof fn destroying_keeps_the_limit(s: GridState, from: int, to: int)
    requires
        s.laid_out(),
        s.scrollback.len() <= s.limit,
        0 <= from,
        to <= s.rows,
    ensures
        ({
            let t = s.destroy_rows(from, to);
            &&& t.laid_out()
            &&& t.scrollback.len() <= t.limit
            &&& t.limit == s.limit
            &&& t.screen == s.screen
            &&& t.cursor == s.cursor
            &&& t.rows == s.rows
            &&& t.cols == s.cols
        }),
    decreases to - from,
{
    if from < to {
        destroying_keeps_the_limit(s, from, to - 1);
    }
}

/// A routine that scrolls an inner region, or opens and drops lines in it,
/// leaves the transcript alone.
pub proof fn inner_regions_leave_the_history(s: GridState, n: int)
    requires
        s.wf(),
        s.top != 0 || s.bottom != s.rows - 1,
    ensures
        s.scroll_up(n).scrollback == s.scrollback,
        s.scroll_down(n).scrollback == s.scrollback,
        s.insert_lines(n).scrollback == s.scrollback,
        s.delete_lines(n).scrollback == s.scrollback,
{
}

/// Clearing the display in one sequence files what was on it, down to the last
/// line with something on it, and leaves an empty screen.
pub proof fn clearing_files_the_screen(s: GridState)
    requires
        s.wf(),
        !s.purge_on_clear,
    ensures
        s.erase_in_display(2).scrollback == filed(s.scrollback, s.limit, content(s.screen)),
        s.erase_in_display(2).screen == blank_rows(s.rows),
{
    assert(blanked(s.screen, 0, s.rows) =~= blank_rows(s.rows));
}

/// A screen with nothing on it costs no history, however often it is cleared.
pub proof fn clearing_an_empty_screen_files_nothing(s: GridState)
    requires
        s.wf(),
        !s.purge_on_clear,
        forall|i: int| 0 <= i < s.screen.len() ==> used((#[trigger] s.screen[i]).cells) == 0,
    ensures
        s.erase_in_display(2).scrollback == s.scrollback,
        s.erase_in_display(2).erase_in_display(2).scrollback == s.scrollback,
{
    content_is_a_prefix(s.screen, 0);
    let t = s.erase_in_display(2);
    content_is_a_prefix(t.screen, 0);
}

/// Straight after a clear-screen ED 3 is part of it and the history stays; on
/// its own account it drops the history.
pub proof fn ed_3_belongs_to_the_clear_before_it(s: GridState)
    requires
        s.wf(),
    ensures
        s.erase_in_display(2).erase_in_display(3).scrollback == s.erase_in_display(2).scrollback,
        !s.screen_cleared ==> s.erase_in_display(3).scrollback.len() == 0,
{
}

/// A purge that was asked for takes the history at the next clear-screen, and
/// is spent by it.
pub proof fn a_purge_drops_the_history_once(s: GridState)
    requires
        s.wf(),
        s.purge_on_clear,
    ensures
        s.erase_in_display(2).scrollback.len() == 0,
        !s.erase_in_display(2).purge_on_clear,
        s.reset().scrollback.len() == 0,
{
}

/// The gesture that clears for real takes history, screen and mark with it, but
/// not what the far side believes of its own keys.
pub proof fn a_hard_reset_forgets(s: GridState)
    requires
        s.wf(),
    ensures
        s.hard_reset().scrollback.len() == 0,
        s.hard_reset().screen == blank_rows(s.rows),
        s.hard_reset().widest == 0,
        s.hard_reset().app_cursor_keys == s.app_cursor_keys,
{
}

/// A reset sent by the far side does not take the transcript with it.
pub proof fn a_reset_keeps_the_transcript(s: GridState)
    requires
        s.wf(),
        !s.purge_on_clear,
    ensures
        s.reset().scrollback == filed(s.scrollback, s.limit, content(s.screen)),
        s.reset().screen == blank_rows(s.rows),
        !s.reset().app_cursor_keys,
{
}

/// A window that gets narrower or taller leaves every line already received as
/// it was, and the rows that were on screen stay on screen.
pub proof fn growing_or_narrowing_leaves_the_history(s: GridState, cols: int, rows: int, now: Instant)
    requires
        s.wf(),
        rows >= s.rows,
    ensures
        s.resize(cols, rows, now).scrollback == s.scrollback,
        forall|i: int|
            0 <= i < s.rows ==> #[trigger] s.resize(cols, rows, now).screen[i] == s.with_cols(
                greater(cols, 1),
            ).screen[i],
{
}

/// The texts of rows.
pub open spec fn line_texts(rows: Seq<RowState>) -> Seq<Seq<char>> {
    rows.map_values(|r: RowState| r.text())
}

/// Lines without the empty ones at their end.
pub open spec fn without_empty_end(lines: Seq<Seq<char>>) -> Seq<Seq<char>>
    decreases lines.len(),
{
    if lines.len() > 0 && lines.last().len() == 0 {
        without_empty_end(lines.drop_last())
    } else {
        lines
    }
}

/// Everything that can be read in a window, history and screen as one stream,
/// down to the last line with something on it.
pub open spec fn readable(s: GridState) -> Seq<Seq<char>> {
    without_empty_end(line_texts(s.scrollback + s.screen))
}

proof fn blank_lines_do_not_show(lines: Seq<Seq<char>>, more: Seq<Seq<char>>)
    requires
        forall|i: int| 0 <= i < more.len() ==> (#[trigger] more[i]).len() == 0,
    ensures
        without_empty_end(lines + more) == without_empty_end(lines),
    decreases more.len(),
{
    if more.len() == 0 {
        assert(lines + more =~= lines);
    } else {
        let all = lines + more;
        assert(all.last() == more[more.len() - 1]);
        assert(all.drop_last() =~= lines + more.drop_last());
        assert forall|i: int| 0 <= i < more.drop_last().len() implies (
        #[trigger] more.drop_last()[i]).len() == 0 by {
            assert(more[i].len() == 0);
        }
        blank_lines_do_not_show(lines, more.drop_last());
    }
}

proof fn losing_a_row_keeps_the_text(s: GridState)
    requires
        s.screen.len() > 1,
        s.scrollback.len() < s.limit,
    ensures
        readable(s.lose_row()) == readable(s),
        s.lose_row().scrollback.len() <= s.scrollback.len() + 1,
{
    let t = s.lose_row();
    let all = s.scrollback + s.screen;
    if s.screen.len() - 1 > s.cursor.row && used(s.screen.last().cells) == 0 {
        let lines = line_texts(all);
        assert(all.last() == s.screen.last());
        assert(lines.last().len() == 0);
        assert(line_texts(t.scrollback + t.screen) =~= lines.drop_last());
    } else {
        let first = s.screen[0];
        trim_is_idempotent(first);
        assert(t.scrollback =~= s.scrollback.push(first.trim()));
        let after = t.scrollback + t.screen;
        assert(line_texts(after) =~= line_texts(all)) by {
            assert(after.len() == all.len());
            assert forall|i: int| 0 <= i < all.len() implies #[trigger] line_texts(after)[i]
                == line_texts(all)[i] by {
                if i == s.scrollback.len() {
                    assert(after[i] == first.trim() && all[i] == first);
                } else {
                    assert(after[i] == all[i]);
                }
            }
        }
    }
}

proof fn losing_rows_keeps_the_text(s: GridState, n: nat)
    requires
        n < s.screen.len(),
        s.scrollback.len() + n <= s.limit,
    ensures
        lost_rows(s, n),
        readable(s.lose_rows(n)) == readable(s),
        s.lose_rows(n).scrollback.len() <= s.scrollback.len() + n,
    decreases n,
{
    if n > 0 {
        losing_rows_keeps_the_text(s, (n - 1) as nat);
        lose_row_frame(s, (n - 1) as nat);
        losing_a_row_keeps_the_text(s.lose_rows((n - 1) as nat));
    }
}

/// A resize loses no text: what could be read in history and screen together can
/// still be read, line for line, wherever the new width cuts no row and the
/// history has room for the rows that come off the screen.
pub proof fn resizing_loses_no_text(s: GridState, cols: int, rows: int, now: Instant)
    requires
        s.wf(),
        forall|i: int|
            0 <= i < s.screen.len() ==> used((#[trigger] s.screen[i]).cells) <= greater(cols, 1),
        s.scrollback.len() + s.rows - greater(rows, 1) <= s.limit || s.rows <= greater(rows, 1),
    ensures
        readable(s.resize(cols, rows, now)) == readable(s),
{
    let c = greater(cols, 1);
    let r = greater(rows, 1);
    if c != s.cols || r != s.rows {
        let wide = GridState { clear: None, resized_at: Some(now), ..s }.with_cols(c);
        let before = line_texts(s.scrollback + s.screen);
        assert(line_texts(wide.scrollback + wide.screen) =~= before) by {
            assert forall|i: int| 0 <= i < before.len() implies #[trigger] line_texts(
                wide.scrollback + wide.screen,
            )[i] == before[i] by {
                let k = i - s.scrollback.len();
                if k >= 0 && c != s.cols {
                    assert(used(s.screen[k].cells) <= c);
                    cutting_blanks_keeps_the_text(s.screen[k], c);
                }
            }
        }
        let t = s.resize(cols, rows, now);
        if r < s.rows {
            losing_rows_keeps_the_text(wide, (s.rows - r) as nat);
            assert(t.scrollback + t.screen =~= wide.lose_rows((s.rows - r) as nat).scrollback
                + wide.lose_rows((s.rows - r) as nat).screen);
        } else {
            let more = line_texts(blank_rows(r - s.rows));
            assert(line_texts(t.scrollback + t.screen) =~= before + more);
            blank_lines_do_not_show(before, more);
        }
    }
}

proof fn cutting_blanks_keeps_the_text(row: RowState, cols: int)
    requires
        used(row.cells) <= cols,
    ensures
        row.cut(cols).text() == row.text(),
{
    used_is_the_last_non_blank(row.cells);
    let cut = row.cut(cols);
    used_is_the_last_non_blank(cut.cells);
    let (n, m) = (used(row.cells) as int, used(cut.cells) as int);
    if m < n {
        assert(cut.cells[n - 1] == row.cells[n - 1]);
    }
    if n < m {
        assert(cut.cells[m - 1] == row.cells[m - 1]);
    }
    assert(cut.text() =~= row.text());
}

/// The widest line is a high-water mark: printing raises it to the column
/// printed in.
pub proof fn printing_raises_the_widest_line(s: GridState, ch: char)
    requires
        s.wf(),
    ensures
        s.print(ch).widest == greater(s.widest, s.wrap().cursor.col + 1),
        s.print(ch).widest >= s.widest,
{
}

/// Scrolling the widest line into history, or erasing it, does not lower the
/// mark.
pub proof fn the_widest_line_is_remembered(s: GridState, n: int)
    requires
        s.wf(),
    ensures
        s.line_feed().widest == s.widest,
        s.scroll_up(n).widest == s.widest,
        s.erase_in_display(n).widest == s.widest,
        s.reset().widest == s.widest,
{
    destroying_touches_little(s, s.cursor.row as int, s.rows);
}

/// Nor does a resize.
pub proof fn resizing_keeps_the_widest_line(s: GridState, cols: int, rows: int, now: Instant)
    requires
        s.wf(),
    ensures
        s.resize(cols, rows, now).widest == s.widest,
{
    let r = greater(rows, 1);
    if r < s.rows {
        let narrow = GridState { clear: None, resized_at: Some(now), ..s }.with_cols(
            greater(cols, 1),
        );
        losing_rows_touches_little(narrow, (s.rows - r) as nat);
    }
}

proof fn destroying_touches_little(s: GridState, from: int, to: int)
    requires
        s.laid_out(),
        0 <= from,
        to <= s.rows,
    ensures
        s.destroy_rows(from, to).widest == s.widest,
        s.destroy_rows(from, to).screen == s.screen,
        s.destroy_rows(from, to).rows == s.rows,
        s.destroy_rows(from, to).laid_out(),
    decreases to - from,
{
    if from < to {
        destroying_touches_little(s, from, to - 1);
    }
}

proof fn losing_rows_touches_little(s: GridState, n: nat)
    requires
        n < s.screen.len(),
    ensures
        lost_rows(s, n),
    decreases n,
{
    if n > 0 {
        losing_rows_touches_little(s, (n - 1) as nat);
        lose_row_frame(s, (n - 1) as nat);
    }
}

/// A character printed in the last column leaves the cursor on its row: a line
/// of exactly the screen's width does not scroll it.
pub proof fn a_full_line_does_not_scroll(s: GridState, ch: char)
    requires
        s.wf(),
        !s.pending_wrap,
    ensures
        s.print(ch).cursor.row == s.cursor.row,
        s.clear is None ==> s.print(ch).scrollback == s.scrollback,
        forall|i: int|
            0 <= i < s.rows && i != s.cursor.row ==> #[trigger] s.print(ch).screen[i]
                == s.screen[i],
        s.cursor.col == s.cols - 1 ==> s.print(ch).pending_wrap && s.print(ch).cursor.col
            == s.cursor.col,
{
}

/// What was printed stands where the cursor was, and the columns beside it are
/// as they were.
pub proof fn printing_changes_one_cell(s: GridState, ch: char, col: int)
    requires
        s.wf(),
        !s.pending_wrap,
        0 <= col < s.screen[s.cursor.row as int].cells.len(),
        col != s.cursor.col,
    ensures
        s.print(ch).screen[s.cursor.row as int].cells[s.cursor.col as int] == Cell::drawn(
            ch,
            s.pen,
        ),
        s.print(ch).screen[s.cursor.row as int].cells[col]
            == s.screen[s.cursor.row as int].cells[col],
{
}

/// Restoring brings back the cursor and the pen that were saved, whatever
/// happened to them since.
pub proof fn restoring_undoes_moving(s: GridState, row: int, col: int, repainting: bool)
    requires
        s.wf(),
    ensures
        ({
            let saved = GridState { saved: Some((s.cursor, s.pen)), ..s };
            let back = saved.set_cursor(row, col, repainting).restore_cursor();
            back.cursor == s.cursor && back.pen == s.pen
        }),
{
}

/// A saved cursor that is still on the screen comes back exactly where it was.
pub proof fn a_cursor_on_the_screen_comes_back_exactly(s: GridState)
    requires
        s.wf(),
        s.saved_fits(),
    ensures
        s.bring_back() == s.restore_cursor(),
{
}

/// Blanks that were put in and taken out again leave the row as it was, unless
/// something was pushed past the margin.
pub proof fn deleting_undoes_inserting(s: GridState, n: int)
    requires
        s.wf(),
        0 <= n,
        s.screen[s.cursor.row as int].cells.len() + n <= s.cols,
    ensures
        s.insert_chars(n).delete_chars(n).screen == s.screen,
{
    let row = s.cursor.row as int;
    let line = s.screen[row];
    assert(s.insert_chars(n).delete_chars(n).screen[row].cells =~= line.cells);
    assert(s.insert_chars(n).delete_chars(n).screen =~= s.screen);
}

/// Rows `0..n` of the screen erased one after the other, the way IRIS clears.
pub open spec fn erase_down(s: GridState, n: int) -> GridState
    decreases n,
{
    if n <= 0 {
        s
    } else {
        erase_down(s, n - 1).erase_row_range(n - 1, 0, s.cols)
    }
}

/// The sweep that has kept rows `0..n` of a screen.
spec fn swept(screen: Seq<RowState>, n: int) -> SweepState {
    SweepState {
        rows: Seq::new(
            screen.len(),
            |i: int|
                if i < n {
                    Some(screen[i].trim())
                } else {
                    None
                },
        ),
        at: if n > 0 {
            n - 1
        } else {
            0
        },
    }
}

proof fn erasing_down_keeps_the_rows(s: GridState, n: int)
    requires
        s.wf(),
        s.clear == Some(swept(s.screen, 0)),
        0 <= n < s.rows,
    ensures
        erase_down(s, n) == (GridState {
            screen: blanked(s.screen, 0, n),
            clear: Some(swept(s.screen, n)),
            ..s
        }),
    decreases n,
{
    if n == 0 {
        assert(blanked(s.screen, 0, 0) =~= s.screen);
    } else {
        erasing_down_keeps_the_rows(s, n - 1);
        let before = erase_down(s, n - 1);
        let after = erase_down(s, n);
        assert(after.clear->0.rows =~= swept(s.screen, n).rows);
        assert(after.screen[n - 1].cells =~= Seq::empty());
        assert(after.screen =~= blanked(s.screen, 0, n));
    }
}

/// Homing the cursor and erasing the screen a row at a time, top to bottom, is
/// a clear-screen: it files the same history as clearing it in one sequence,
/// and leaves the same empty screen.
pub proof fn clearing_row_by_row_files_the_screen(s: GridState)
    requires
        s.wf(),
        s.clear is None,
        !s.purge_on_clear,
    ensures
        ({
            let swept = erase_down(s.set_cursor(0, 0, false), s.rows);
            &&& swept.scrollback == s.erase_in_display(2).scrollback
            &&& swept.scrollback == filed(s.scrollback, s.limit, content(s.screen))
            &&& swept.screen == blank_rows(s.rows)
            &&& swept.clear is None
        }),
{
    let home = s.set_cursor(0, 0, false);
    assert(home.clear->0.rows =~= swept(s.screen, 0).rows);
    erasing_down_keeps_the_rows(home, s.rows - 1);
    let before = erase_down(home, s.rows - 1);
    let last = swept(s.screen, s.rows - 1).keep(s.rows - 1, s.screen[s.rows - 1].trim());
    assert(before.screen[s.rows - 1] == s.screen[s.rows - 1]);
    assert(last.complete());
    assert(last.kept() =~= s.screen.map_values(|r: RowState| r.trim()));
    trimmed_rows_file_the_same(s.scrollback, s.limit, s.screen);
    let after = erase_down(home, s.rows);
    assert(after.screen[s.rows - 1].cells =~= Seq::empty());
    assert(after.screen =~= blank_rows(s.rows));
}

/// A resize does not keep a later clear-screen from filing the screen: once the
/// time for the repaint that answers it is over, a sweep is a clear-screen again.
pub proof fn a_clear_long_after_a_resize_files_the_screen(s: GridState, now: Instant)
    requires
        s.wf(),
        s.clear is None,
        !s.purge_on_clear,
        s.resized_at matches Some(then) ==> nanos_apart(now, then) >= REPAINT_WINDOW,
    ensures
        ({
            let swept = erase_down(s.set_cursor(0, 0, s.repainting_at(now)), s.rows);
            &&& swept.scrollback == filed(s.scrollback, s.limit, content(s.screen))
            &&& swept.screen == blank_rows(s.rows)
        }),
{
    clearing_row_by_row_files_the_screen(s);
}

/// The repaint that answers a resize files nothing, though it homes the cursor
/// and erases the screen row by row as a clear-screen does.
pub proof fn a_repaint_files_nothing(s: GridState, n: int)
    requires
        s.wf(),
        s.clear is None,
        !s.purge_on_clear,
        0 <= n <= s.rows,
    ensures
        erase_down(s.set_cursor(0, 0, true), n).scrollback == s.scrollback,
        erase_down(s.set_cursor(0, 0, true), n).clear is None,
    decreases n,
{
    if n > 0 {
        a_repaint_files_nothing(s, n - 1);
    }
}

} // verus!
