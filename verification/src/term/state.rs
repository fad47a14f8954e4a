//! The grid as a mathematical value, and what each operation makes of it.

use std::time::Instant;
use vstd::prelude::*;

use super::cell::{default_cell, default_pen, Cell, Pen};
use super::grid::{Cursor, REPAINT_WINDOW};
use crate::clock::nanos_apart;

verus! {

// ---- rows ---------------------------------------------------------------

/// A row as a mathematical value.
#[verifier::ext_equal]
pub struct RowState {
    pub cells: Seq<Cell>,
    pub wrapped: bool,
}

/// Columns up to and including the last cell that shows something.
pub open spec fn used(cells: Seq<Cell>) -> nat
    decreases cells.len(),
{
    if cells.len() == 0 {
        0
    } else if !cells.last().shows_nothing() {
        cells.len()
    } else {
        used(cells.drop_last())
    }
}

/// One default-coloured cell per character.
pub open spec fn plain_cells(text: Seq<char>) -> Seq<Cell> {
    text.map_values(|ch: char| Cell::drawn(ch, default_pen()))
}

impl RowState {
    /// A row nothing has been written to.
    pub open spec fn empty() -> RowState {
        RowState { cells: Seq::empty(), wrapped: false }
    }

    /// The row without its trailing blanks.
    pub open spec fn trim(self) -> RowState {
        RowState { cells: self.cells.take(used(self.cells) as int), wrapped: self.wrapped }
    }

    /// The characters of the row, trailing blanks trimmed.
    pub open spec fn text(self) -> Seq<char> {
        self.trim().cells.map_values(|c: Cell| c.ch)
    }

    /// The row with `cell` at `col`, the gap before it padded with blanks.
    pub open spec fn put(self, col: int, cell: Cell) -> RowState {
        RowState {
            cells: if col < self.cells.len() {
                self.cells.update(col, cell)
            } else {
                (self.cells + Seq::new((col - self.cells.len()) as nat, |i: int| default_cell())).push(
                    cell,
                )
            },
            wrapped: self.wrapped,
        }
    }

    /// The row cut down to at most `cols` columns.
    pub open spec fn cut(self, cols: int) -> RowState {
        RowState {
            cells: if cols < self.cells.len() {
                self.cells.take(cols)
            } else {
                self.cells
            },
            wrapped: self.wrapped,
        }
    }

    /// The row with whatever it holds of `from..to` replaced by `cell`.
    pub open spec fn fill(self, from: int, to: int, cell: Cell) -> RowState {
        RowState {
            cells: Seq::new(
                self.cells.len(),
                |i: int|
                    if from <= i < to {
                        cell
                    } else {
                        self.cells[i]
                    },
            ),
            wrapped: self.wrapped,
        }
    }

    /// The row with `n` copies of `cell` put in at `col`, what follows shifted
    /// right, and everything past column `cols` dropped.
    pub open spec fn open_gap(self, col: int, n: int, cols: int, cell: Cell) -> RowState {
        RowState {
            cells: (self.cells.take(col) + Seq::new(n as nat, |i: int| cell) + self.cells.skip(
                col,
            )).take(
                if self.cells.len() + n <= cols {
                    self.cells.len() + n
                } else {
                    cols
                },
            ),
            wrapped: self.wrapped,
        }
    }

    /// The row without the `n` columns that start at `col`.
    pub open spec fn close_gap(self, col: int, n: int) -> RowState {
        RowState { cells: self.cells.take(col) + self.cells.skip(col + n), wrapped: self.wrapped }
    }
}

/// [`used`] is the one column count that ends on a cell that shows something
/// and leaves only blanks behind.
pub proof fn used_is_the_last_non_blank(cells: Seq<Cell>)
    ensures
        used(cells) <= cells.len(),
        used(cells) > 0 ==> !cells[used(cells) - 1].shows_nothing(),
        forall|i: int| used(cells) <= i < cells.len() ==> #[trigger] cells[i].shows_nothing(),
    decreases cells.len(),
{
    if cells.len() > 0 && cells.last().shows_nothing() {
        used_is_the_last_non_blank(cells.drop_last());
        assert forall|i: int| used(cells) <= i < cells.len() implies #[trigger] cells[i].shows_nothing() by {
            if i < cells.len() - 1 {
                assert(cells.drop_last()[i].shows_nothing());
            }
        }
    }
}

/// Trimming a trimmed row changes nothing.
pub proof fn trim_is_idempotent(row: RowState)
    ensures
        used(row.trim().cells) == used(row.cells),
        row.trim().trim() == row.trim(),
{
    used_is_the_last_non_blank(row.cells);
    assert(row.trim().trim() =~= row.trim());
}


// ---- the grid -----------------------------------------------------------

/// What a clear-screen under way has destroyed so far, indexed by row, and the
/// furthest row it has reached.
#[verifier::ext_equal]
pub struct SweepState {
    pub rows: Seq<Option<RowState>>,
    pub at: int,
}

impl SweepState {
    /// The sweep at `row`, with what was on it kept unless it was before.
    pub open spec fn keep(self, row: int, line: RowState) -> SweepState {
        SweepState {
            rows: if self.rows[row] is None {
                self.rows.update(row, Some(line))
            } else {
                self.rows
            },
            at: row,
        }
    }

    /// Whether no row was skipped on the way down.
    pub open spec fn complete(self) -> bool {
        forall|i: int| 0 <= i < self.rows.len() ==> #[trigger] self.rows[i] is Some
    }

    /// The rows that were kept.
    pub open spec fn kept(self) -> Seq<RowState> {
        self.rows.map_values(|r: Option<RowState>| r->0)
    }
}

/// A grid as a mathematical value.
#[verifier::ext_equal]
pub struct GridState {
    pub cols: int,
    pub rows: int,
    pub screen: Seq<RowState>,
    /// Oldest line first.
    pub scrollback: Seq<RowState>,
    pub limit: int,
    pub cursor: Cursor,
    pub pen: Pen,
    /// Inclusive top and bottom of the scrolling region.
    pub top: int,
    pub bottom: int,
    pub title: Option<Seq<char>>,
    pub saved: Option<(Cursor, Pen)>,
    pub insert_mode: bool,
    pub app_cursor_keys: bool,
    pub widest: int,
    pub pending_wrap: bool,
    pub clear: Option<SweepState>,
    pub resized_at: Option<Instant>,
    pub purge_on_clear: bool,
    pub screen_cleared: bool,
    pub revision: u64,
}

pub open spec fn lesser(a: int, b: int) -> int {
    if a <= b {
        a
    } else {
        b
    }
}

pub open spec fn greater(a: int, b: int) -> int {
    if a >= b {
        a
    } else {
        b
    }
}

/// The last `n` entries, or all of them if there are no more than that.
pub open spec fn last_of<T>(s: Seq<T>, n: int) -> Seq<T> {
    if s.len() > n {
        s.skip(s.len() - n)
    } else {
        s
    }
}

/// History once `rows` have been filed into it: each without its trailing
/// blanks, the oldest lines making way once `limit` is reached.
pub open spec fn filed(history: Seq<RowState>, limit: int, rows: Seq<RowState>) -> Seq<RowState> {
    if limit == 0 || rows.len() == 0 {
        history
    } else {
        last_of(history + rows.map_values(|r: RowState| r.trim()), limit)
    }
}

/// The rows down to the last one with something on it.
pub open spec fn content(rows: Seq<RowState>) -> Seq<RowState>
    decreases rows.len(),
{
    if rows.len() == 0 || used(rows.last().cells) > 0 {
        rows
    } else {
        content(rows.drop_last())
    }
}

/// `n` rows nothing has been written to.
pub open spec fn blank_rows(n: int) -> Seq<RowState> {
    Seq::new(n as nat, |i: int| RowState::empty())
}

/// `rows` with `top..=bottom` moved up by `n` and blanks opened below it.
pub open spec fn moved_up(rows: Seq<RowState>, top: int, bottom: int, n: int) -> Seq<RowState> {
    rows.take(top) + rows.subrange(top + n, bottom + 1) + blank_rows(n) + rows.skip(bottom + 1)
}

/// `rows` with `top..=bottom` moved down by `n` and blanks opened above it.
pub open spec fn moved_down(rows: Seq<RowState>, top: int, bottom: int, n: int) -> Seq<RowState> {
    rows.take(top) + blank_rows(n) + rows.subrange(top, bottom + 1 - n) + rows.skip(bottom + 1)
}

/// `rows` with `from..to` replaced by rows nothing has been written to.
pub open spec fn blanked(rows: Seq<RowState>, from: int, to: int) -> Seq<RowState> {
    Seq::new(
        rows.len(),
        |i: int|
            if from <= i < to {
                RowState::empty()
            } else {
                rows[i]
            },
    )
}

/// Filing rows one batch after the other is filing them all.
pub proof fn filed_in_turn(
    history: Seq<RowState>,
    limit: int,
    first: Seq<RowState>,
    then: Seq<RowState>,
)
    requires
        0 <= limit,
    ensures
        filed(filed(history, limit, first), limit, then) == filed(history, limit, first + then),
{
    let trim = |r: RowState| r.trim();
    assert((first + then).map_values(trim) =~= first.map_values(trim) + then.map_values(trim));
    assert(first + then.take(0) =~= first);
    if then.len() == 0 {
        assert(first + then =~= first);
    } else if first.len() == 0 {
        assert(first + then =~= then);
    } else if limit > 0 {
        let all = history + first.map_values(trim) + then.map_values(trim);
        assert(history + (first + then).map_values(trim) =~= all);
        assert(last_of(
            last_of(history + first.map_values(trim), limit) + then.map_values(trim),
            limit,
        ) =~= last_of(all, limit));
    }
}

/// A row is trimmed on its way into the history, so it makes no difference
/// whether it was trimmed before.
pub proof fn filed_trims(
    history: Seq<RowState>,
    limit: int,
    first: Seq<RowState>,
    row: RowState,
)
    ensures
        filed(history, limit, first + seq![row.trim()]) == filed(history, limit, first.push(row)),
{
    trim_is_idempotent(row);
    assert((first + seq![row.trim()]).map_values(|r: RowState| r.trim()) =~= first.push(
        row,
    ).map_values(|r: RowState| r.trim()));
}

/// [`content`] keeps everything down to a row that has something on it and
/// leaves off only rows that have nothing.
pub proof fn content_is_a_prefix(rows: Seq<RowState>, n: int)
    requires
        0 <= n <= rows.len(),
        n > 0 ==> used(rows[n - 1].cells) > 0,
        forall|i: int| n <= i < rows.len() ==> used((#[trigger] rows[i]).cells) == 0,
    ensures
        content(rows) == rows.take(n),
    decreases rows.len(),
{
    if rows.len() == n {
        assert(rows.take(n) =~= rows);
    } else {
        assert(used(rows[rows.len() - 1].cells) == 0);
        content_is_a_prefix(rows.drop_last(), n);
        assert(rows.drop_last().take(n) =~= rows.take(n));
    }
}

impl GridState {
    /// What every operation relies on and keeps: a screen of at least one cell
    /// with the cursor on it, a scrolling region inside it, and a sweep that is
    /// as tall as it is.
    pub open spec fn wf(self) -> bool {
        &&& self.laid_out()
        &&& self.cursor.row < self.rows
        &&& self.cursor.col < self.cols
    }

    /// [`GridState::wf`] apart from the cursor.
    pub open spec fn laid_out(self) -> bool {
        &&& 1 <= self.cols <= usize::MAX
        &&& 1 <= self.rows <= usize::MAX
        &&& 0 <= self.limit
        &&& 0 <= self.widest
        &&& self.screen.len() == self.rows
        &&& 0 <= self.top <= self.bottom < self.rows
        &&& self.clear matches Some(sweep) ==> {
            &&& sweep.rows.len() == self.rows
            &&& 0 <= sweep.at < self.rows
        }
    }

    /// Whether bringing the saved cursor back keeps it on the screen.
    pub open spec fn saved_fits(self) -> bool {
        self.saved matches Some((cursor, _)) ==> cursor.row < self.rows && cursor.col < self.cols
    }

    /// A grid nothing has been printed on.
    pub open spec fn fresh(cols: int, rows: int, limit: int) -> GridState {
        GridState {
            cols,
            rows,
            screen: blank_rows(rows),
            scrollback: Seq::empty(),
            limit,
            cursor: Cursor { row: 0, col: 0, visible: true },
            pen: default_pen(),
            top: 0,
            bottom: rows - 1,
            title: None,
            saved: None,
            insert_mode: false,
            app_cursor_keys: false,
            widest: 0,
            pending_wrap: false,
            clear: None,
            resized_at: None,
            purge_on_clear: false,
            screen_cleared: false,
            revision: 0,
        }
    }

    pub open spec fn touch(self) -> GridState {
        GridState {
            revision: if self.revision == u64::MAX {
                0
            } else {
                (self.revision + 1) as u64
            },
            ..self
        }
    }

    /// The cursor put somewhere, which ends a deferred wrap.
    pub open spec fn cursor_to(self, row: int, col: int) -> GridState {
        GridState {
            cursor: Cursor { row: row as usize, col: col as usize, visible: self.cursor.visible },
            pending_wrap: false,
            ..self
        }.touch()
    }

    pub open spec fn restore_cursor(self) -> GridState {
        match self.saved {
            Some((cursor, pen)) => GridState { cursor, pen, pending_wrap: false, ..self }.touch(),
            None => self,
        }
    }

    /// The saved cursor brought back, onto the screen.
    pub open spec fn bring_back(self) -> GridState {
        let back = self.restore_cursor();
        GridState {
            cursor: Cursor {
                row: lesser(back.cursor.row as int, self.rows - 1) as usize,
                col: lesser(back.cursor.col as int, self.cols - 1) as usize,
                ..back.cursor
            },
            ..back
        }
    }

    pub open spec fn cancel_clear(self) -> GridState {
        GridState { clear: None, ..self }
    }

    /// The cursor was homed. That opens a sweep, unless one is under way or
    /// this is the far side repainting after a resize.
    pub open spec fn begin_clear(self, repainting: bool) -> GridState {
        if (repainting && !self.purge_on_clear) || self.clear is Some {
            self
        } else {
            GridState {
                clear: Some(
                    SweepState { rows: Seq::new(self.rows as nat, |i: int| None), at: 0 },
                ),
                ..self
            }
        }
    }

    pub open spec fn set_cursor(self, row: int, col: int, repainting: bool) -> GridState {
        let r = lesser(row, self.rows - 1);
        let c = lesser(col, self.cols - 1);
        if r == 0 && c == 0 {
            self.begin_clear(repainting).cursor_to(0, 0)
        } else {
            self.cursor_to(r, c)
        }
    }

    /// Rows leave the screen for good: into the history, or nowhere if the
    /// history was to be dropped at this point.
    pub open spec fn file(self, rows: Seq<RowState>) -> GridState {
        if self.purge_on_clear {
            GridState {
                screen_cleared: true,
                purge_on_clear: false,
                scrollback: Seq::empty(),
                ..self
            }
        } else {
            GridState {
                screen_cleared: true,
                scrollback: filed(self.scrollback, self.limit, content(rows)),
                ..self
            }
        }
    }

    /// A row is about to be overwritten or erased. A sweep that has worked its
    /// way down keeps what was on it, and files the lot at the bottom; anything
    /// else that touches the screen ends it.
    pub open spec fn destroy_row(self, row: int) -> GridState {
        match self.clear {
            None => self,
            Some(sweep) => {
                let starting = sweep.at == 0 && sweep.rows[0] is None;
                if row >= sweep.rows.len() || row < sweep.at || (starting && row != 0) {
                    self.cancel_clear()
                } else {
                    let next = sweep.keep(row, self.screen[row].trim());
                    if row + 1 < self.rows {
                        GridState { clear: Some(next), ..self }
                    } else if next.complete() {
                        self.cancel_clear().file(next.kept())
                    } else {
                        self.cancel_clear()
                    }
                }
            },
        }
    }

    /// [`GridState::destroy_row`] for each of `from..to` in turn.
    pub open spec fn destroy_rows(self, from: int, to: int) -> GridState
        decreases to - from,
    {
        if from >= to {
            self
        } else {
            self.destroy_rows(from, to - 1).destroy_row(to - 1)
        }
    }

    pub open spec fn scroll_up(self, n: int) -> GridState {
        let k = lesser(n, self.bottom - self.top + 1);
        GridState {
            clear: None,
            screen: moved_up(self.screen, self.top, self.bottom, k),
            scrollback: if self.top == 0 && self.bottom == self.rows - 1 {
                filed(self.scrollback, self.limit, self.screen.take(k))
            } else {
                self.scrollback
            },
            ..self
        }.touch()
    }

    pub open spec fn scroll_down(self, n: int) -> GridState {
        let k = lesser(n, self.bottom - self.top + 1);
        GridState {
            clear: None,
            screen: moved_down(self.screen, self.top, self.bottom, k),
            ..self
        }.touch()
    }

    pub open spec fn line_feed(self) -> GridState {
        let s = if self.cursor.row == self.bottom {
            self.scroll_up(1)
        } else if self.cursor.row + 1 < self.rows {
            GridState {
                cursor: Cursor { row: (self.cursor.row + 1) as usize, ..self.cursor },
                ..self
            }
        } else {
            self
        };
        GridState { pending_wrap: false, ..s }.touch()
    }

    pub open spec fn reverse_line_feed(self) -> GridState {
        let s = if self.cursor.row == self.top {
            self.scroll_down(1)
        } else {
            GridState {
                cursor: Cursor { row: greater(self.cursor.row - 1, 0) as usize, ..self.cursor },
                ..self
            }
        };
        GridState { pending_wrap: false, ..s }.touch()
    }

    /// The deferred wrap carried out: the row is marked as continued and the
    /// cursor goes to the start of the next one.
    pub open spec fn wrap(self) -> GridState {
        if self.pending_wrap {
            let row = self.cursor.row as int;
            GridState {
                screen: self.screen.update(row, RowState { wrapped: true, ..self.screen[row] }),
                cursor: Cursor { col: 0, ..self.cursor },
                ..self
            }.line_feed()
        } else {
            self
        }
    }

    /// A character put at the cursor, which then moves on or, in the last
    /// column, defers the wrap.
    pub open spec fn draw(self, ch: char) -> GridState {
        let row = self.cursor.row as int;
        let col = self.cursor.col as int;
        GridState {
            screen: self.screen.update(row, self.screen[row].put(col, Cell::drawn(ch, self.pen))),
            widest: greater(self.widest, col + 1),
            pending_wrap: col + 1 >= self.cols,
            cursor: Cursor {
                col: if col + 1 >= self.cols {
                    col as usize
                } else {
                    (col + 1) as usize
                },
                ..self.cursor
            },
            ..self
        }.touch()
    }

    pub open spec fn print(self, ch: char) -> GridState {
        let start = self.wrap();
        GridState { screen_cleared: false, ..start }.destroy_row(start.cursor.row as int).draw(ch)
    }

    pub open spec fn set_scroll_region(self, top: int, bottom: int, repainting: bool) -> GridState {
        let t = lesser(top, self.rows - 1);
        let b = lesser(bottom, self.rows - 1);
        if t < b {
            GridState { top: t, bottom: b, ..self }.set_cursor(0, 0, repainting)
        } else {
            self
        }
    }

    pub open spec fn reset_scroll_region(self) -> GridState {
        GridState { top: 0, bottom: self.rows - 1, ..self }
    }

    /// Columns `from..to` of a row erased. Up to the margin the tail is dropped;
    /// short of it the cells that are there are blanked in the pen's colours.
    pub open spec fn erase_row_range(self, row: int, from: int, to: int) -> GridState {
        let s = self.destroy_row(row);
        let line = s.screen[row];
        GridState {
            screen: s.screen.update(
                row,
                if to >= s.cols {
                    RowState {
                        wrapped: line.wrapped && from != 0,
                        ..line.cut(from)
                    }
                } else {
                    line.fill(from, to, Cell::erased(s.pen))
                },
            ),
            ..s
        }
    }

    /// What an erase from the cursor to the end of the screen files first: the
    /// rest of a sweep under way, or the whole screen if it starts at the top.
    pub open spec fn file_below(self) -> GridState {
        if self.clear is Some {
            self.destroy_rows(self.cursor.row as int, self.rows)
        } else if self.cursor.row == 0 && self.cursor.col == 0 {
            self.file(self.screen)
        } else {
            self
        }
    }

    pub open spec fn erase_below(self) -> GridState {
        let row = self.cursor.row as int;
        let cut = self.file_below().erase_row_range(row, self.cursor.col as int, self.cols);
        GridState { screen: blanked(cut.screen, row + 1, self.rows), ..cut }
    }

    pub open spec fn erase_above(self) -> GridState {
        let row = self.cursor.row as int;
        GridState { screen: blanked(self.screen, 0, row), ..self }.erase_row_range(
            row,
            0,
            self.cursor.col + 1,
        )
    }

    /// The whole screen erased. What was on it goes into the history, or the
    /// history goes instead: unless the screen has only just been cleared.
    pub open spec fn erase_all(self, drop_history: bool) -> GridState {
        let kept = if drop_history {
            GridState {
                clear: None,
                scrollback: if self.screen_cleared {
                    self.scrollback
                } else {
                    Seq::empty()
                },
                ..self
            }
        } else {
            self.cancel_clear().file(self.screen)
        };
        GridState { screen: blanked(kept.screen, 0, self.rows), screen_cleared: true, ..kept }
    }

    pub open spec fn erase_in_display(self, mode: int) -> GridState {
        if mode == 0 {
            self.erase_below().touch()
        } else if mode == 1 {
            self.erase_above().touch()
        } else {
            self.erase_all(mode == 3).touch()
        }
    }

    pub open spec fn erase_in_line(self, mode: int) -> GridState {
        let row = self.cursor.row as int;
        let col = self.cursor.col as int;
        if mode == 0 {
            self.erase_row_range(row, col, self.cols).touch()
        } else if mode == 1 {
            self.erase_row_range(row, 0, col + 1).touch()
        } else {
            self.erase_row_range(row, 0, self.cols).touch()
        }
    }

    pub open spec fn erase_chars(self, n: int) -> GridState {
        let col = self.cursor.col as int;
        self.erase_row_range(self.cursor.row as int, col, col + n).touch()
    }

    pub open spec fn insert_chars(self, n: int) -> GridState {
        let row = self.cursor.row as int;
        let col = self.cursor.col as int;
        let k = lesser(n, self.cols - col);
        let line = self.screen[row];
        if col >= line.cells.len() || k == 0 {
            self.touch()
        } else {
            GridState {
                screen: self.screen.update(
                    row,
                    line.open_gap(col, k, self.cols, Cell::erased(self.pen)),
                ),
                ..self
            }.touch()
        }
    }

    pub open spec fn delete_chars(self, n: int) -> GridState {
        let row = self.cursor.row as int;
        let col = self.cursor.col as int;
        let line = self.screen[row];
        let k = lesser(lesser(n, self.cols - col), line.cells.len() - col);
        if col >= line.cells.len() || k == 0 {
            self.touch()
        } else {
            GridState { screen: self.screen.update(row, line.close_gap(col, k)), ..self }.touch()
        }
    }

    pub open spec fn insert_lines(self, n: int) -> GridState {
        let row = self.cursor.row as int;
        if row < self.top || row > self.bottom {
            self
        } else {
            let k = lesser(n, self.bottom - row + 1);
            GridState {
                clear: None,
                screen: moved_down(self.screen, row, self.bottom, k),
                ..self
            }.touch()
        }
    }

    pub open spec fn delete_lines(self, n: int) -> GridState {
        let row = self.cursor.row as int;
        if row < self.top || row > self.bottom {
            self
        } else {
            let k = lesser(n, self.bottom - row + 1);
            GridState {
                clear: None,
                screen: moved_up(self.screen, row, self.bottom, k),
                ..self
            }.touch()
        }
    }

    /// An empty screen, the default pen, a homed cursor and no leftover modes.
    pub open spec fn blank_everything(self) -> GridState {
        GridState {
            screen: blank_rows(self.rows),
            pen: default_pen(),
            insert_mode: false,
            cursor: Cursor { row: 0, col: 0, visible: true },
            top: 0,
            bottom: self.rows - 1,
            pending_wrap: false,
            saved: None,
            ..self
        }.touch()
    }

    pub open spec fn reset(self) -> GridState {
        GridState {
            app_cursor_keys: false,
            ..self.cancel_clear().file(self.screen).blank_everything()
        }
    }

    pub open spec fn hard_reset(self) -> GridState {
        GridState { clear: None, scrollback: Seq::empty(), widest: 0, ..self }.blank_everything()
    }

    /// One row fewer: a blank one from below the cursor if there is one, else
    /// the top one, which goes into the history.
    pub open spec fn lose_row(self) -> GridState {
        if self.screen.len() - 1 > self.cursor.row && used(self.screen.last().cells) == 0 {
            GridState { screen: self.screen.drop_last(), ..self }
        } else {
            GridState {
                screen: self.screen.drop_first(),
                scrollback: filed(self.scrollback, self.limit, seq![self.screen[0]]),
                cursor: Cursor { row: greater(self.cursor.row - 1, 0) as usize, ..self.cursor },
                ..self
            }
        }
    }

    pub open spec fn lose_rows(self, n: nat) -> GridState
        decreases n,
    {
        if n == 0 {
            self
        } else {
            self.lose_rows((n - 1) as nat).lose_row()
        }
    }

    /// The screen made `cols` wide: longer rows are cut, history is not.
    pub open spec fn with_cols(self, cols: int) -> GridState {
        GridState {
            cols,
            screen: if cols == self.cols {
                self.screen
            } else {
                self.screen.map_values(|row: RowState| row.cut(cols))
            },
            ..self
        }
    }

    /// The screen made `rows` tall: rows come off as [`GridState::lose_row`]
    /// says, or blank ones are added at the bottom.
    pub open spec fn with_rows(self, rows: int) -> GridState {
        let s = if rows < self.rows {
            self.lose_rows((self.rows - rows) as nat)
        } else {
            GridState { screen: self.screen + blank_rows(rows - self.rows), ..self }
        };
        GridState { rows, ..s }
    }

    /// The cursor brought back onto the screen and the scrolling region made
    /// the whole of it.
    pub open spec fn settle(self) -> GridState {
        GridState {
            top: 0,
            bottom: self.rows - 1,
            cursor: Cursor {
                row: lesser(self.cursor.row as int, self.rows - 1) as usize,
                col: lesser(self.cursor.col as int, self.cols - 1) as usize,
                visible: self.cursor.visible,
            },
            pending_wrap: false,
            ..self
        }
    }

    /// Whether a sweep that starts at a moment is the repaint that answers the
    /// last resize, rather than a clear-screen.
    pub open spec fn repainting_at(self, now: Instant) -> bool {
        match self.resized_at {
            Some(then) => nanos_apart(now, then) < REPAINT_WINDOW,
            None => false,
        }
    }

    pub open spec fn resize(self, cols: int, rows: int, now: Instant) -> GridState {
        let c = greater(cols, 1);
        let r = greater(rows, 1);
        if c == self.cols && r == self.rows {
            self
        } else {
            GridState { clear: None, resized_at: Some(now), ..self }.with_cols(c).with_rows(
                r,
            ).settle().touch()
        }
    }
}

/// Erasing past the margin is erasing up to it.
pub proof fn erase_stops_at_the_margin(s: GridState, row: int, from: int, to: int)
    requires
        s.laid_out(),
        0 <= row < s.rows,
    ensures
        s.erase_row_range(row, from, to) == s.erase_row_range(row, from, lesser(to, s.cols)),
{
}

/// What taking rows off the screen leaves as it was.
pub open spec fn lost_rows(s: GridState, n: nat) -> bool {
    let t = s.lose_rows(n);
    &&& t.screen.len() == s.screen.len() - n
    &&& t == (GridState {
        screen: t.screen,
        scrollback: t.scrollback,
        cursor: Cursor { row: t.cursor.row, ..s.cursor },
        ..s
    })
}

/// One more row comes off the same way.
pub proof fn lose_row_frame(s: GridState, n: nat)
    requires
        lost_rows(s, n),
        s.screen.len() > n + 1,
    ensures
        lost_rows(s, n + 1),
        s.lose_rows(n + 1) == s.lose_rows(n).lose_row(),
{
}

} // verus!
