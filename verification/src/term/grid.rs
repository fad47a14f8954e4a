//! The screen model: a rectangle of cells, a cursor, and scrollback.
//!
//! The parser ([`crate::term::parser`]) changes a `Grid`; whatever draws it
//! reads it. Every operation is stated over [`GridState`], the grid as a
//! mathematical value.

use std::collections::VecDeque;
use std::time::Instant;
use vstd::prelude::*;

use crate::clock::nanos_between;

use super::cell::{Cell, Pen};
pub use super::row::Row;
use super::row::{group_states, states};
use super::state::{
    blank_rows, blanked, content_is_a_prefix, erase_stops_at_the_margin, filed,
    filed_in_turn, filed_trims, greater, lesser, lose_row_frame, lost_rows, moved_down, moved_up,
    trim_is_idempotent, used, GridState, RowState, SweepState,
};

verus! {

broadcast use group_states;

// ---- the grid -----------------------------------------------------------

/// Where the next character goes, and whether the cursor is drawn.
#[derive(Clone, Copy, Debug, PartialEq, Eq, Structural)]
pub struct Cursor {
    pub row: usize,
    pub col: usize,
    pub visible: bool,
}

impl Default for Cursor {
    fn default() -> (cursor: Self)
        ensures
            cursor == (Cursor { row: 0, col: 0, visible: false }),
    {
        Cursor { row: 0, col: 0, visible: false }
    }
}

/// How long after a resize a homing-and-erasing sweep is read as the
/// pseudoconsole repainting rather than as a clear-screen, in nanoseconds.
///
/// The repaint arrives in the same read as the resize goes out, so this only
/// has to cover the round trip. It lapses so that a resize on a connection that
/// does not repaint cannot leave the next real clear-screen unable to file its
/// screen into the transcript.
pub const REPAINT_WINDOW: u128 = 500_000_000;

/// A screen-clear caught in the act.
///
/// IRIS does not clear the screen with one escape sequence. `W #` homes the
/// cursor and then erases its way down the screen a row at a time, printing
/// the new prompt on the way past, so there is never a moment at which the old
/// screen still exists to be filed away in one piece. Each row has to be kept
/// as it is destroyed, and the collection handed to the scrollback only once
/// the sweep has reached the bottom and proved itself a clear rather than a
/// repaint.
pub struct ClearSweep {
    /// Old contents of each row the sweep has destroyed, indexed by row.
    pub rows: Vec<Option<Row>>,
    /// Furthest row it has reached. A clear works down the screen; a mutation
    /// above this is an app repainting, which must not eat the transcript.
    pub at: usize,
}

/// The state of a row that a sweep may have kept.
pub open spec fn kept_state(row: Option<Row>) -> Option<RowState> {
    match row {
        Some(row) => Some(row@),
        None => None,
    }
}

impl View for ClearSweep {
    type V = SweepState;

    open spec fn view(&self) -> SweepState {
        SweepState {
            rows: self.rows@.map_values(|r: Option<Row>| kept_state(r)),
            at: self.at as int,
        }
    }
}

pub struct Grid {
    pub cols: usize,
    pub rows: usize,
    /// Visible screen, always exactly `rows` long.
    pub screen: Vec<Row>,
    /// Lines that have scrolled off the top, newest at the back.
    pub scrollback: VecDeque<Row>,
    pub scrollback_limit: usize,
    pub cursor: Cursor,
    pub pen: Pen,
    /// Inclusive top/bottom of the scrolling region, in screen coordinates.
    pub scroll_top: usize,
    pub scroll_bottom: usize,
    /// The title the far side asked for, if it did.
    pub title: Option<String>,
    /// Saved cursor for DECSC/DECRC.
    pub saved_cursor: Option<(Cursor, Pen)>,
    /// Insert rather than replace, as far as can be told. Purely a display
    /// hint.
    pub insert_mode: bool,
    /// The far side has asked for application cursor keys, so an arrow key is
    /// to be spelled `ESC O A` rather than `ESC [ A`.
    pub app_cursor_keys: bool,
    /// Widest line ever printed, in columns. A high-water mark rather than a
    /// measurement.
    pub widest: usize,
    /// Deferred wrap: the cursor sits on the last column and the *next* printed
    /// character must move to the following line first. Without this, writing
    /// exactly `cols` characters would scroll one line too early.
    pub pending_wrap: bool,
    /// Set while a clear-screen is being carried out a row at a time. See
    /// [`ClearSweep`].
    pub clear: Option<ClearSweep>,
    /// When the screen last changed size. For a while after that a
    /// homing-and-erasing sweep is the pseudoconsole repainting rather than a
    /// clear-screen.
    pub resized_at: Option<Instant>,
    /// Set by [`Grid::purge_history_on_next_clear`].
    pub purge_on_clear: bool,
    /// The screen has just been cleared and nothing has been printed since.
    pub screen_cleared: bool,
    /// Bumped on every mutation so that an idle tab need not be repainted.
    pub revision: u64,
}

impl View for Grid {
    type V = GridState;

    open spec fn view(&self) -> GridState {
        GridState {
            cols: self.cols as int,
            rows: self.rows as int,
            screen: states(self.screen@),
            scrollback: states(self.scrollback@),
            limit: self.scrollback_limit as int,
            cursor: self.cursor,
            pen: self.pen,
            top: self.scroll_top as int,
            bottom: self.scroll_bottom as int,
            title: match self.title {
                Some(title) => Some(title@),
                None => None,
            },
            saved: self.saved_cursor,
            insert_mode: self.insert_mode,
            app_cursor_keys: self.app_cursor_keys,
            widest: self.widest as int,
            pending_wrap: self.pending_wrap,
            clear: match self.clear {
                Some(sweep) => Some(sweep@),
                None => None,
            },
            resized_at: self.resized_at,
            purge_on_clear: self.purge_on_clear,
            screen_cleared: self.screen_cleared,
            revision: self.revision,
        }
    }
}

impl Grid {
    pub fn new(cols: usize, rows: usize, scrollback_limit: usize) -> (grid: Self)
        ensures
            grid@ == GridState::fresh(
                greater(cols as int, 1),
                greater(rows as int, 1),
                scrollback_limit as int,
            ),
            grid@.wf(),
    {
        let cols = if cols < 1 {
            1
        } else {
            cols
        };
        let rows = if rows < 1 {
            1
        } else {
            rows
        };
        let mut screen: Vec<Row> = Vec::new();
        for i in 0..rows
            invariant
                states(screen@) =~= blank_rows(i as int),
        {
            screen.push(Row::new());
        }
        let grid = Grid {
            cols,
            rows,
            screen,
            scrollback: VecDeque::new(),
            scrollback_limit,
            cursor: Cursor { row: 0, col: 0, visible: true },
            pen: Pen::default(),
            scroll_top: 0,
            scroll_bottom: rows - 1,
            title: None,
            saved_cursor: None,
            insert_mode: false,
            app_cursor_keys: false,
            widest: 0,
            pending_wrap: false,
            clear: None,
            resized_at: None,
            purge_on_clear: false,
            screen_cleared: false,
            revision: 0,
        };
        assert(grid@ =~= GridState::fresh(cols as int, rows as int, scrollback_limit as int));
        grid
    }

    #[inline]
    pub fn touch(&mut self)
        ensures
            final(self)@ == old(self)@.touch(),
    {
        self.revision = self.revision.wrapping_add(1);
    }

    /// Total lines available to the viewport, scrollback included.
    pub fn total_lines(&self) -> (lines: usize)
        requires
            self@.scrollback.len() + self@.rows <= usize::MAX,
        ensures
            lines == self@.scrollback.len() + self@.rows,
    {
        self.scrollback.len() + self.rows
    }

    /// Line at absolute index, counting from the oldest scrollback line.
    pub fn line(&self, index: usize) -> (row: Option<&Row>)
        ensures
            row is Some <==> index < self@.scrollback.len() + self@.screen.len(),
            row is Some ==> row->0@ == (self@.scrollback + self@.screen)[index as int],
    {
        if index < self.scrollback.len() {
            Some(&self.scrollback[index])
        } else {
            let below = index - self.scrollback.len();
            if below < self.screen.len() {
                Some(&self.screen[below])
            } else {
                None
            }
        }
    }

    // ---- cursor movement -------------------------------------------------

    pub fn move_up(&mut self, n: usize)
        requires
            old(self)@.wf(),
        ensures
            final(self)@ == old(self)@.cursor_to(
                greater(
                    old(self)@.cursor.row - n,
                    if old(self)@.cursor.row >= old(self)@.top {
                        old(self)@.top
                    } else {
                        0
                    },
                ),
                old(self)@.cursor.col as int,
            ),
            final(self)@.wf(),
    {
        // Movement clamps at the scroll region's top edge, not the screen's.
        let limit = if self.cursor.row >= self.scroll_top {
            self.scroll_top
        } else {
            0
        };
        let row = self.cursor.row.saturating_sub(n);
        self.cursor.row = if row < limit {
            limit
        } else {
            row
        };
        self.pending_wrap = false;
        self.touch();
    }

    pub fn move_down(&mut self, n: usize)
        requires
            old(self)@.wf(),
        ensures
            final(self)@ == old(self)@.cursor_to(
                lesser(
                    old(self)@.cursor.row + n,
                    if old(self)@.cursor.row <= old(self)@.bottom {
                        old(self)@.bottom
                    } else {
                        old(self)@.rows - 1
                    },
                ),
                old(self)@.cursor.col as int,
            ),
            final(self)@.wf(),
    {
        let limit = if self.cursor.row <= self.scroll_bottom {
            self.scroll_bottom
        } else {
            self.rows - 1
        };
        let row = self.cursor.row.saturating_add(n);
        self.cursor.row = if row > limit {
            limit
        } else {
            row
        };
        self.pending_wrap = false;
        self.touch();
    }

    pub fn move_left(&mut self, n: usize)
        requires
            old(self)@.wf(),
        ensures
            final(self)@ == old(self)@.cursor_to(
                old(self)@.cursor.row as int,
                greater(old(self)@.cursor.col - n, 0),
            ),
            final(self)@.wf(),
    {
        self.cursor.col = self.cursor.col.saturating_sub(n);
        self.pending_wrap = false;
        self.touch();
    }

    pub fn move_right(&mut self, n: usize)
        requires
            old(self)@.wf(),
        ensures
            final(self)@ == old(self)@.cursor_to(
                old(self)@.cursor.row as int,
                lesser(old(self)@.cursor.col + n, old(self)@.cols - 1),
            ),
            final(self)@.wf(),
    {
        let col = self.cursor.col.saturating_add(n);
        self.cursor.col = if col > self.cols - 1 {
            self.cols - 1
        } else {
            col
        };
        self.pending_wrap = false;
        self.touch();
    }

    pub fn carriage_return(&mut self)
        requires
            old(self)@.wf(),
        ensures
            final(self)@ == old(self)@.cursor_to(old(self)@.cursor.row as int, 0),
            final(self)@.wf(),
    {
        self.cursor.col = 0;
        self.pending_wrap = false;
        self.touch();
    }

    pub fn backspace(&mut self)
        requires
            old(self)@.wf(),
        ensures
            final(self)@ == old(self)@.cursor_to(
                old(self)@.cursor.row as int,
                greater(old(self)@.cursor.col - 1, 0),
            ),
            final(self)@.wf(),
    {
        self.cursor.col = self.cursor.col.saturating_sub(1);
        self.pending_wrap = false;
        self.touch();
    }

    /// Fixed 8-column tab stops; IRIS does not set custom stops.
    pub fn tab(&mut self)
        requires
            old(self)@.wf(),
        ensures
            final(self)@ == old(self)@.cursor_to(
                old(self)@.cursor.row as int,
                lesser((old(self)@.cursor.col / 8 + 1) * 8, old(self)@.cols - 1),
            ),
            final(self)@.wf(),
    {
        let next = (self.cursor.col - self.cursor.col % 8).saturating_add(8);
        self.cursor.col = if next > self.cols - 1 {
            self.cols - 1
        } else {
            next
        };
        self.pending_wrap = false;
        self.touch();
    }

    pub fn save_cursor(&mut self)
        ensures
            final(self)@ == (GridState {
                saved: Some((old(self)@.cursor, old(self)@.pen)),
                ..old(self)@
            }),
    {
        self.saved_cursor = Some((self.cursor, self.pen));
    }

    /// Brings the saved cursor and pen back, if any were saved. One that was
    /// saved on a larger screen comes back where it was.
    pub fn restore_cursor(&mut self)
        ensures
            final(self)@ == old(self)@.restore_cursor(),
            old(self)@.wf() && old(self)@.saved_fits() ==> final(self)@.wf(),
    {
        if let Some((cursor, pen)) = self.saved_cursor {
            self.cursor = cursor;
            self.pen = pen;
            self.pending_wrap = false;
            self.touch();
        }
    }

    /// Brings the saved cursor and pen back, if any were saved, as far as there
    /// is a screen for it: one that was saved on a larger screen comes back at
    /// the nearest cell.
    pub fn bring_back(&mut self)
        requires
            old(self)@.wf(),
        ensures
            final(self)@ == old(self)@.bring_back(),
            final(self)@.wf(),
    {
        self.restore_cursor();
        if self.cursor.row > self.rows - 1 {
            self.cursor.row = self.rows - 1;
        }
        if self.cursor.col > self.cols - 1 {
            self.cursor.col = self.cols - 1;
        }
    }

    // ---- history ---------------------------------------------------------

    /// Trailing blanks are padding, and a line of history is never printed into
    /// again, so they are dropped.
    fn push_scrollback(&mut self, row: &Row)
        ensures
            final(self)@ == (GridState {
                scrollback: filed(old(self)@.scrollback, old(self)@.limit, seq![row@]),
                ..old(self)@
            }),
    {
        if self.scrollback_limit == 0 {
            assert(self@ =~= GridState { scrollback: old(self)@.scrollback, ..old(self)@ });
            return;
        }
        self.scrollback.push_back(row.trimmed());
        let ghost full = self@.scrollback;
        assert(full =~= old(self)@.scrollback + seq![row@].map_values(|r: RowState| r.trim()));
        while self.scrollback.len() > self.scrollback_limit
            invariant
                self@ == (GridState { scrollback: self@.scrollback, ..old(self)@ }),
                self@.scrollback.len() <= full.len(),
                self@.scrollback =~= full.skip(full.len() - self@.scrollback.len()),
                self@.scrollback.len() < full.len() ==> self@.scrollback.len() >= self@.limit,
            decreases self.scrollback.len(),
        {
            let ghost before = self@.scrollback;
            self.scrollback.pop_front();
            assert(self@.scrollback =~= before.skip(1));
        }
        assert(self@.scrollback =~= filed(old(self)@.scrollback, old(self)@.limit, seq![row@]));
        assert(self@ =~= GridState {
            scrollback: filed(old(self)@.scrollback, old(self)@.limit, seq![row@]),
            ..old(self)@
        });
    }

    /// Consumes a pending purge. Reports whether the caller should skip filing
    /// anything away, the history having just been dropped instead.
    fn purging(&mut self) -> (purged: bool)
        ensures
            purged == old(self)@.purge_on_clear,
            final(self)@ == if purged {
                GridState { purge_on_clear: false, scrollback: Seq::empty(), ..old(self)@ }
            } else {
                old(self)@
            },
    {
        if !self.purge_on_clear {
            return false;
        }
        self.purge_on_clear = false;
        self.scrollback = VecDeque::new();
        assert(self@ =~= GridState {
            purge_on_clear: false,
            scrollback: Seq::empty(),
            ..old(self)@
        });
        true
    }

    /// Files the visible screen into scrollback, so a clear-screen hides the
    /// text rather than destroying it.
    ///
    /// Blank rows below the last line of content are dropped: a routine that
    /// clears a 50-row screen holding three lines should cost three lines of
    /// history, not fifty blank ones.
    fn archive_screen(&mut self)
        requires
            old(self)@.laid_out(),
        ensures
            final(self)@ == old(self)@.file(old(self)@.screen),
    {
        self.screen_cleared = true;
        if self.purging() {
            return;
        }
        let mut last: usize = self.screen.len();
        while last > 0 && self.screen[last - 1].used_width() == 0
            invariant
                last <= self.screen@.len(),
                forall|i: int|
                    last <= i < self@.screen.len() ==> used((#[trigger] self@.screen[i]).cells)
                        == 0,
            decreases last,
        {
            last -= 1;
        }
        let ghost rows = self@.screen;
        let ghost before = self@;
        proof {
            content_is_a_prefix(rows, last as int);
            assert(rows.take(0) =~= Seq::empty());
        }
        let mut index: usize = 0;
        while index < last
            invariant
                index <= last <= rows.len(),
                before.laid_out(),
                rows == before.screen,
                self@ == (GridState {
                    scrollback: filed(before.scrollback, before.limit, rows.take(index as int)),
                    ..before
                }),
            decreases last - index,
        {
            let row = self.screen[index].trimmed();
            self.push_scrollback(&row);
            proof {
                filed_in_turn(before.scrollback, before.limit, rows.take(index as int), seq![row@]);
                trim_is_idempotent(rows[index as int]);
                filed_trims(before.scrollback, before.limit, rows.take(index as int), rows[index as int]);
                assert(rows.take(index as int).push(rows[index as int]) =~= rows.take(index + 1));
            }
            index += 1;
        }
        assert(self@ =~= old(self)@.file(old(self)@.screen));
    }

    // ---- clear-screen detection ------------------------------------------

    fn cancel_clear(&mut self)
        ensures
            final(self)@ == old(self)@.cancel_clear(),
    {
        self.clear = None;
    }

    /// Notes that the cursor has been homed, which is how a clear-screen
    /// begins. Nothing is captured yet: most homings are an app about to
    /// repaint, and the sweep is dropped again the moment it behaves like one.
    ///
    /// A pseudoconsole repainting itself after a resize is no clear: it hands
    /// back the same screen it is erasing, so there is nothing to file away.
    /// Unless a purge is armed, in which case the user has asked for a clear
    /// and whatever comes back is it.
    fn begin_clear(&mut self, repainting: bool)
        requires
            old(self)@.laid_out(),
        ensures
            final(self)@ == old(self)@.begin_clear(repainting),
    {
        if repainting && !self.purge_on_clear {
            return;
        }
        if self.clear.is_none() {
            let mut rows: Vec<Option<Row>> = Vec::new();
            for i in 0..self.rows
                invariant
                    rows@ =~= Seq::new(i as nat, |k: int| None),
            {
                rows.push(None);
            }
            self.clear = Some(ClearSweep { rows, at: 0 });
            assert(self@.clear->0.rows =~= Seq::new(self.rows as nat, |k: int| None));
            assert(self@ =~= old(self)@.begin_clear(repainting));
        }
    }

    /// Hands a completed sweep to the scrollback.
    fn file_sweep(&mut self, sweep: ClearSweep)
        requires
            old(self)@.laid_out(),
            sweep@.complete(),
        ensures
            final(self)@ == old(self)@.file(sweep@.kept()),
    {
        self.screen_cleared = true;
        if self.purging() {
            return;
        }
        let ghost rows = sweep@.kept();
        let mut last: usize = sweep.rows.len();
        // Blank rows at the end of the screen are padding, exactly as they are
        // for the whole screen.
        while last > 0 && kept_nothing(&sweep.rows[last - 1])
            invariant
                last <= sweep.rows@.len(),
                rows == sweep@.kept(),
                sweep@.complete(),
                forall|i: int| last <= i < rows.len() ==> used((#[trigger] rows[i]).cells) == 0,
            decreases last,
        {
            assert(sweep@.rows[last - 1] is Some);
            last -= 1;
        }
        let ghost before = self@;
        proof {
            if last > 0 {
                assert(sweep@.rows[last - 1] is Some);
            }
            content_is_a_prefix(rows, last as int);
            assert(rows.take(0) =~= Seq::empty());
        }
        let mut index: usize = 0;
        while index < last
            invariant
                index <= last <= rows.len(),
                last <= sweep.rows@.len(),
                rows == sweep@.kept(),
                sweep@.complete(),
                before.laid_out(),
                self@ == (GridState {
                    scrollback: filed(before.scrollback, before.limit, rows.take(index as int)),
                    ..before
                }),
            decreases last - index,
        {
            assert(sweep@.rows[index as int] is Some);
            if let Some(row) = &sweep.rows[index] {
                self.push_scrollback(row);
                proof {
                    filed_in_turn(
                        before.scrollback,
                        before.limit,
                        rows.take(index as int),
                        seq![row@],
                    );
                    assert(rows.take(index as int) + seq![row@] =~= rows.take(index + 1));
                }
            }
            index += 1;
        }
    }

    /// Keeps the old contents of a row that is about to be overwritten or
    /// erased, while a clear sweep is running, and files the sweep away once it
    /// has worked its way to the bottom of the screen.
    ///
    /// Both kinds of destruction count: `W #` erases most rows, but it prints
    /// the new prompt straight over one of them, and a transcript missing that
    /// one line would be its own small bug.
    fn destroying_row(&mut self, row: usize)
        requires
            old(self)@.laid_out(),
            row < old(self)@.rows,
        ensures
            final(self)@ == old(self)@.destroy_row(row as int),
            final(self)@.laid_out(),
    {
        match self.clear.take() {
            None => {},
            Some(mut sweep) => {
                let ghost before = sweep@;
                assert(before.rows.len() == sweep.rows@.len());
                // A clear starts at the top and only ever moves down. Anything
                // else is an app painting its screen, and its previous screen
                // is not history.
                let starting = sweep.at == 0 && sweep.rows[0].is_none();
                assert(starting == (before.at == 0 && before.rows[0] is None));
                if row >= sweep.rows.len() || row < sweep.at || (starting && row != 0) {
                    return;
                }
                sweep.at = row;
                assert(before.rows[row as int] == kept_state(sweep.rows@[row as int]));
                if sweep.rows[row].is_none() {
                    sweep.rows[row] = Some(self.screen[row].trimmed());
                    assert(sweep@.rows =~= before.rows.update(
                        row as int,
                        Some(old(self)@.screen[row as int].trim()),
                    ));
                } else {
                    assert(sweep@.rows =~= before.rows);
                }
                // Reaching the last row ends the sweep. It only counts as a
                // clear if every row on the way down was destroyed: a repaint
                // that starts at the top and then jumps to the footer has
                // skipped the middle, and its old screen is not history.
                if row + 1 == self.rows {
                    if all_kept(&sweep) {
                        self.file_sweep(sweep);
                    }
                } else {
                    self.clear = Some(sweep);
                }
            },
        }
    }

    /// Throw the history away at the next clear-screen instead of filing the
    /// screen into it.
    ///
    /// Wiping the grid alone would not do: the far side keeps its own idea of
    /// where the cursor is and repaints by absolute position. So the far side
    /// is asked to clear the screen itself, and this makes the clear that comes
    /// back drop the transcript rather than archive it.
    pub fn purge_history_on_next_clear(&mut self)
        ensures
            final(self)@ == (GridState { purge_on_clear: true, ..old(self)@ }),
    {
        self.purge_on_clear = true;
    }

    /// Forgets a purge that was asked for and never happened, so it cannot
    /// ambush a later clear-screen.
    pub fn cancel_purge(&mut self)
        ensures
            final(self)@ == (GridState { purge_on_clear: false, ..old(self)@ }),
    {
        self.purge_on_clear = false;
    }

    /// Whether a sweep that starts `nanos` after the last resize is the
    /// repaint that answers it.
    pub fn repainting_after(&self, nanos: u128) -> (yes: bool)
        ensures
            yes == (self@.resized_at is Some && nanos < REPAINT_WINDOW),
    {
        self.resized_at.is_some() && nanos < REPAINT_WINDOW
    }

    /// Whether a sweep starting now is that repaint. Never before a resize;
    /// after one the clock decides.
    pub fn repainting(&self) -> (yes: bool)
        ensures
            exists|now: Instant| yes == #[trigger] self@.repainting_at(now),
    {
        let now = Instant::now();
        let yes = match &self.resized_at {
            Some(then) => self.repainting_after(nanos_between(&now, then)),
            None => false,
        };
        assert(yes == self@.repainting_at(now));
        yes
    }

    /// [`Grid::set_cursor`] with the clock's answer given.
    pub fn set_cursor_when(&mut self, row: usize, col: usize, repainting: bool)
        requires
            old(self)@.laid_out(),
        ensures
            final(self)@ == old(self)@.set_cursor(row as int, col as int, repainting),
            final(self)@.wf(),
    {
        let row = if row > self.rows - 1 {
            self.rows - 1
        } else {
            row
        };
        let col = if col > self.cols - 1 {
            self.cols - 1
        } else {
            col
        };
        // Homing the cursor is how a clear-screen opens.
        if row == 0 && col == 0 {
            self.begin_clear(repainting);
        }
        let ghost opened = self@;
        self.cursor.row = row;
        self.cursor.col = col;
        self.pending_wrap = false;
        self.touch();
        assert(self@ == opened.cursor_to(row as int, col as int));
    }

    /// Puts the cursor somewhere on the screen. Homing it may open a sweep:
    /// shortly after a resize it does not, and only the clock tells.
    pub fn set_cursor(&mut self, row: usize, col: usize)
        requires
            old(self)@.laid_out(),
        ensures
            final(self)@.wf(),
            exists|now: Instant|
                final(self)@ == old(self)@.set_cursor(
                    row as int,
                    col as int,
                    #[trigger] old(self)@.repainting_at(now),
                ),
    {
        let repainting = self.repainting();
        self.set_cursor_when(row, col, repainting);
    }

    // ---- scrolling -------------------------------------------------------

    /// Moves `top..=bottom` up by `n`, blanking the rows that opens at the
    /// bottom, and hands back the rows that fell off the top.
    fn drop_lines_at(&mut self, top: usize, bottom: usize, n: usize) -> (gone: Vec<Row>)
        requires
            old(self)@.laid_out(),
            top <= bottom < old(self)@.rows,
            n <= bottom - top + 1,
        ensures
            final(self)@ == (GridState {
                screen: moved_up(old(self)@.screen, top as int, bottom as int, n as int),
                ..old(self)@
            }),
            states(gone@) == old(self)@.screen.subrange(top as int, top + n),
    {
        let ghost was = self@.screen;
        let mut below = self.screen.split_off(bottom + 1);
        let mut kept = self.screen.split_off(top + n);
        let gone = self.screen.split_off(top);
        self.screen.append(&mut kept);
        assert(self@.screen =~= was.take(top as int) + was.subrange(top + n, bottom + 1));
        let ghost head = self@.screen;
        for i in 0..n
            invariant
                self@ == (GridState { screen: self@.screen, ..old(self)@ }),
                self@.screen =~= head + blank_rows(i as int),
        {
            self.screen.push(Row::new());
        }
        self.screen.append(&mut below);
        assert(self@.screen =~= moved_up(was, top as int, bottom as int, n as int));
        assert(states(gone@) =~= was.subrange(top as int, top + n));
        gone
    }

    /// Pushes `top..=bottom` down by `n`, blanking the rows that opens at the
    /// top and dropping what falls off the bottom. Shared by SD and IL.
    fn open_lines_at(&mut self, top: usize, bottom: usize, n: usize)
        requires
            old(self)@.laid_out(),
            top <= bottom < old(self)@.rows,
            n <= bottom - top + 1,
        ensures
            final(self)@ == (GridState {
                screen: moved_down(old(self)@.screen, top as int, bottom as int, n as int),
                ..old(self)@
            }),
    {
        let ghost was = self@.screen;
        let mut below = self.screen.split_off(bottom + 1);
        self.screen.truncate(bottom + 1 - n);
        let mut kept = self.screen.split_off(top);
        let ghost head = self@.screen;
        assert(head =~= was.take(top as int));
        assert(states(kept@) =~= was.subrange(top as int, bottom + 1 - n));
        for i in 0..n
            invariant
                self@ == (GridState { screen: self@.screen, ..old(self)@ }),
                self@.screen =~= head + blank_rows(i as int),
        {
            self.screen.push(Row::new());
        }
        self.screen.append(&mut kept);
        self.screen.append(&mut below);
        assert(self@.screen =~= moved_down(was, top as int, bottom as int, n as int));
    }

    /// Move the region's contents up by `n`, pushing lines into scrollback
    /// only when the region is the whole screen: a full-screen routine that
    /// scrolls an inner region must not pollute the transcript.
    pub fn scroll_up(&mut self, n: usize)
        requires
            old(self)@.laid_out(),
        ensures
            final(self)@ == old(self)@.scroll_up(n as int),
            final(self)@.laid_out(),
    {
        // The screen is moving rather than being wiped, and what scrolls off
        // reaches the scrollback by itself.
        self.cancel_clear();
        let height = self.scroll_bottom - self.scroll_top + 1;
        let n = if n > height {
            height
        } else {
            n
        };
        let full_screen = self.scroll_top == 0 && self.scroll_bottom == self.rows - 1;
        let gone = self.drop_lines_at(self.scroll_top, self.scroll_bottom, n);
        if full_screen {
            let ghost before = self@;
            let ghost rows = states(gone@);
            let mut index: usize = 0;
            assert(rows.take(0) =~= Seq::empty());
            while index < gone.len()
                invariant
                    index <= gone@.len(),
                    rows == states(gone@),
                    before.laid_out(),
                    self@ == (GridState {
                        scrollback: filed(before.scrollback, before.limit, rows.take(index as int)),
                        ..before
                    }),
                decreases gone.len() - index,
            {
                self.push_scrollback(&gone[index]);
                proof {
                    filed_in_turn(
                        before.scrollback,
                        before.limit,
                        rows.take(index as int),
                        seq![rows[index as int]],
                    );
                    assert(rows.take(index as int) + seq![rows[index as int]] =~= rows.take(
                        index + 1,
                    ));
                }
                index += 1;
            }
            assert(rows.take(index as int) =~= old(self)@.screen.take(n as int));
        }
        self.touch();
        assert(self@ =~= old(self)@.scroll_up(n as int));
    }

    pub fn scroll_down(&mut self, n: usize)
        requires
            old(self)@.laid_out(),
        ensures
            final(self)@ == old(self)@.scroll_down(n as int),
            final(self)@.laid_out(),
    {
        self.cancel_clear();
        let height = self.scroll_bottom - self.scroll_top + 1;
        let n = if n > height {
            height
        } else {
            n
        };
        self.open_lines_at(self.scroll_top, self.scroll_bottom, n);
        self.touch();
    }

    /// LF / IND. Scrolls the region when already at its bottom.
    pub fn line_feed(&mut self)
        requires
            old(self)@.wf(),
        ensures
            final(self)@ == old(self)@.line_feed(),
            final(self)@.wf(),
    {
        if self.cursor.row == self.scroll_bottom {
            self.scroll_up(1);
        } else if self.cursor.row + 1 < self.rows {
            self.cursor.row += 1;
        }
        self.pending_wrap = false;
        self.touch();
    }

    /// RI: reverse index.
    pub fn reverse_line_feed(&mut self)
        requires
            old(self)@.wf(),
        ensures
            final(self)@ == old(self)@.reverse_line_feed(),
            final(self)@.wf(),
    {
        if self.cursor.row == self.scroll_top {
            self.scroll_down(1);
        } else {
            self.cursor.row = self.cursor.row.saturating_sub(1);
        }
        self.pending_wrap = false;
        self.touch();
    }

    // ---- printing --------------------------------------------------------

    /// Carries out a deferred wrap, if there is one.
    fn wrap(&mut self)
        requires
            old(self)@.wf(),
        ensures
            final(self)@ == old(self)@.wrap(),
            final(self)@.wf(),
    {
        if self.pending_wrap {
            let row = self.cursor.row;
            self.screen[row].wrapped = true;
            self.cursor.col = 0;
            assert(self@.screen =~= old(self)@.screen.update(
                row as int,
                RowState { wrapped: true, ..old(self)@.screen[row as int] },
            ));
            self.line_feed();
        }
    }

    /// Puts a character at the cursor and moves on, or defers the wrap.
    fn draw(&mut self, ch: char)
        requires
            old(self)@.wf(),
        ensures
            final(self)@ == old(self)@.draw(ch),
            final(self)@.wf(),
    {
        let (row, col) = (self.cursor.row, self.cursor.col);
        let cell = Cell::with_pen(ch, &self.pen);
        self.screen[row].put(col, cell);
        assert(self@.screen =~= old(self)@.screen.update(
            row as int,
            old(self)@.screen[row as int].put(col as int, cell),
        ));
        if self.widest < col + 1 {
            self.widest = col + 1;
        }
        if col + 1 >= self.cols {
            self.pending_wrap = true;
        } else {
            self.cursor.col += 1;
            self.pending_wrap = false;
        }
        self.touch();
    }

    pub fn print(&mut self, ch: char)
        requires
            old(self)@.wf(),
        ensures
            final(self)@ == old(self)@.print(ch),
            final(self)@.wf(),
    {
        self.wrap();
        // Whatever came before, the screen is being written on again, so a
        // later `ESC [ 3 J` is not the tail of a clear-screen.
        self.screen_cleared = false;
        self.destroying_row(self.cursor.row);
        self.draw(ch);
    }

    /// [`Grid::set_scroll_region`] with the clock's answer given.
    pub fn set_scroll_region_when(&mut self, top: usize, bottom: usize, repainting: bool)
        requires
            old(self)@.wf(),
        ensures
            final(self)@ == old(self)@.set_scroll_region(top as int, bottom as int, repainting),
            final(self)@.wf(),
    {
        let top = if top > self.rows - 1 {
            self.rows - 1
        } else {
            top
        };
        let bottom = if bottom > self.rows - 1 {
            self.rows - 1
        } else {
            bottom
        };
        if top < bottom {
            self.scroll_top = top;
            self.scroll_bottom = bottom;
            // DECSTBM homes the cursor.
            self.set_cursor_when(0, 0, repainting);
        }
    }

    /// DECSTBM, with both edges inclusive and counted from zero. It homes the
    /// cursor, which may open a sweep as [`Grid::set_cursor`] does.
    pub fn set_scroll_region(&mut self, top: usize, bottom: usize)
        requires
            old(self)@.wf(),
        ensures
            final(self)@.wf(),
            exists|now: Instant|
                final(self)@ == old(self)@.set_scroll_region(
                    top as int,
                    bottom as int,
                    #[trigger] old(self)@.repainting_at(now),
                ),
    {
        let repainting = self.repainting();
        self.set_scroll_region_when(top, bottom, repainting);
    }

    /// Widest line printed so far, in columns.
    pub fn widest_line(&self) -> (width: usize)
        ensures
            width == self@.widest,
    {
        self.widest
    }

    pub fn reset_scroll_region(&mut self)
        requires
            old(self)@.laid_out(),
        ensures
            final(self)@ == old(self)@.reset_scroll_region(),
            final(self)@.laid_out(),
    {
        self.scroll_top = 0;
        self.scroll_bottom = self.rows - 1;
    }

    // ---- erasing ---------------------------------------------------------

    /// ED. 0 = cursor to end, 1 = start to cursor, 2 = whole screen,
    /// 3 = whole screen *and* the saved lines.
    ///
    /// Clearing the whole display files what was on it into scrollback first.
    /// IRIS's `W #` erases the screen where it stands rather than scrolling it
    /// off, so blanking those rows in place would make the transcript
    /// disappear. Only mode 3, the sequence whose whole purpose is to drop the
    /// history, throws it away, and only when it is asked for on its own
    /// account rather than as the tail of a clear: a pseudoconsole ends every
    /// clear-screen with it.
    pub fn erase_in_display(&mut self, mode: u16)
        requires
            old(self)@.wf(),
        ensures
            final(self)@ == old(self)@.erase_in_display(mode as int),
            final(self)@.wf(),
    {
        match mode {
            0 => self.erase_below(),
            1 => self.erase_above(),
            _ => self.erase_all(mode == 3),
        }
        self.touch();
    }

    /// Files what an erase from the cursor down is about to destroy.
    ///
    /// "Clear" is spelled both `\E[H\E[2J` and `\E[H\E[J`. An erase-to-end
    /// wipes every row below the cursor, so a sweep already under way finishes
    /// here rather than one row at a time.
    fn file_below(&mut self)
        requires
            old(self)@.wf(),
        ensures
            final(self)@ == old(self)@.file_below(),
            final(self)@.wf(),
            final(self)@.rows == old(self)@.rows,
            final(self)@.cols == old(self)@.cols,
            final(self)@.cursor == old(self)@.cursor,
    {
        let row = self.cursor.row;
        if self.clear.is_some() {
            let mut r: usize = row;
            while r < self.rows
                invariant
                    row <= r <= self.rows,
                    self@.laid_out(),
                    self@.rows == old(self)@.rows,
                    self@.cols == old(self)@.cols,
                    self@.cursor == old(self)@.cursor,
                    self@ == old(self)@.destroy_rows(row as int, r as int),
                decreases self.rows - r,
            {
                self.destroying_row(r);
                r += 1;
            }
        } else if row == 0 && self.cursor.col == 0 {
            self.archive_screen();
        }
    }

    fn erase_below(&mut self)
        requires
            old(self)@.wf(),
        ensures
            final(self)@ == old(self)@.erase_below(),
            final(self)@.wf(),
    {
        self.file_below();
        let (row, col) = (self.cursor.row, self.cursor.col);
        self.erase_row_range(row, col, self.cols);
        self.blank_rows_in(row + 1, self.rows);
    }

    fn erase_above(&mut self)
        requires
            old(self)@.wf(),
        ensures
            final(self)@ == old(self)@.erase_above(),
            final(self)@.wf(),
    {
        let (row, col) = (self.cursor.row, self.cursor.col);
        self.blank_rows_in(0, row);
        self.erase_row_range(row, 0, col + 1);
    }

    /// One sequence for the whole screen: nothing to piece together a row at a
    /// time.
    fn erase_all(&mut self, drop_history: bool)
        requires
            old(self)@.wf(),
        ensures
            final(self)@ == old(self)@.erase_all(drop_history),
            final(self)@.wf(),
    {
        self.cancel_clear();
        if drop_history {
            if !self.screen_cleared {
                self.scrollback = VecDeque::new();
                assert(self@.scrollback =~= Seq::empty());
            }
        } else {
            self.archive_screen();
        }
        self.blank_rows_in(0, self.rows);
        self.screen_cleared = true;
    }

    /// Empties rows `from..to`.
    fn blank_rows_in(&mut self, from: usize, to: usize)
        requires
            old(self)@.laid_out(),
            from <= to <= old(self)@.rows,
        ensures
            final(self)@ == (GridState {
                screen: blanked(old(self)@.screen, from as int, to as int),
                ..old(self)@
            }),
            final(self)@.laid_out(),
    {
        let mut r: usize = from;
        assert(self@.screen =~= blanked(old(self)@.screen, from as int, from as int));
        while r < to
            invariant
                from <= r <= to <= old(self)@.rows,
                old(self)@.laid_out(),
                self.screen@.len() == old(self)@.rows,
                self@ == (GridState {
                    screen: blanked(old(self)@.screen, from as int, r as int),
                    ..old(self)@
                }),
            decreases to - r,
        {
            self.screen[r] = Row::new();
            assert(self@.screen =~= blanked(old(self)@.screen, from as int, r + 1));
            r += 1;
        }
    }

    /// EL. 0 = cursor to end of line, 1 = start to cursor, 2 = whole line.
    pub fn erase_in_line(&mut self, mode: u16)
        requires
            old(self)@.wf(),
        ensures
            final(self)@ == old(self)@.erase_in_line(mode as int),
            final(self)@.wf(),
    {
        let (row, col) = (self.cursor.row, self.cursor.col);
        let cols = self.cols;
        match mode {
            0 => self.erase_row_range(row, col, cols),
            1 => self.erase_row_range(row, 0, col + 1),
            _ => self.erase_row_range(row, 0, cols),
        }
        self.touch();
    }

    fn erase_row_range(&mut self, row: usize, from: usize, to: usize)
        requires
            old(self)@.laid_out(),
            row < old(self)@.rows,
        ensures
            final(self)@ == old(self)@.erase_row_range(row as int, from as int, to as int),
            final(self)@.laid_out(),
            final(self)@.cursor == old(self)@.cursor,
            final(self)@.rows == old(self)@.rows,
            final(self)@.cols == old(self)@.cols,
    {
        self.destroying_row(row);
        let ghost ready = self@;
        let pen = self.pen;
        // To the end of the line, which is what IRIS does on every keystroke of
        // its own line editing: the tail is dropped rather than blanked, so the
        // row goes back to being as long as what is left on it.
        if to >= self.cols {
            self.screen[row].narrow_to(from);
            if from == 0 {
                self.screen[row].wrapped = false;
            }
            assert(self@.screen =~= ready.screen.update(
                row as int,
                RowState {
                    wrapped: ready.screen[row as int].wrapped && from != 0,
                    ..ready.screen[row as int].cut(from as int)
                },
            ));
        } else {
            self.screen[row].fill(from, to, Cell::blank(&pen));
            assert(self@.screen =~= ready.screen.update(
                row as int,
                ready.screen[row as int].fill(from as int, to as int, Cell::erased(pen)),
            ));
        }
    }

    /// ECH: erase `n` characters at the cursor without moving it.
    pub fn erase_chars(&mut self, n: usize)
        requires
            old(self)@.wf(),
        ensures
            final(self)@ == old(self)@.erase_chars(n as int),
            final(self)@.wf(),
    {
        let (row, col) = (self.cursor.row, self.cursor.col);
        let to = if n > self.cols - col {
            self.cols
        } else {
            col + n
        };
        proof {
            erase_stops_at_the_margin(old(self)@, row as int, col as int, col + n);
        }
        self.erase_row_range(row, col, to);
        self.touch();
    }

    /// ICH: insert `n` blanks at the cursor, shifting the rest right. What is
    /// pushed past the margin is dropped, and inserting blanks into blanks
    /// leaves the row as it is.
    pub fn insert_chars(&mut self, n: usize)
        requires
            old(self)@.wf(),
        ensures
            final(self)@ == old(self)@.insert_chars(n as int),
            final(self)@.wf(),
    {
        let pen = self.pen;
        let (row, col) = (self.cursor.row, self.cursor.col);
        let cols = self.cols;
        let n = if n > cols - col {
            cols - col
        } else {
            n
        };
        if col < self.screen[row].cells.len() && n > 0 {
            self.screen[row].open_gap(col, n, cols, Cell::blank(&pen));
            assert(self@.screen =~= old(self)@.screen.update(
                row as int,
                old(self)@.screen[row as int].open_gap(
                    col as int,
                    n as int,
                    cols as int,
                    Cell::erased(pen),
                ),
            ));
        }
        self.touch();
    }

    /// DCH: delete `n` characters at the cursor, shifting the rest left. The
    /// blanks a fixed-width terminal shifts in at the right margin are exactly
    /// the cells that stop existing here.
    pub fn delete_chars(&mut self, n: usize)
        requires
            old(self)@.wf(),
        ensures
            final(self)@ == old(self)@.delete_chars(n as int),
            final(self)@.wf(),
    {
        let (row, col) = (self.cursor.row, self.cursor.col);
        let n = if n > self.cols - col {
            self.cols - col
        } else {
            n
        };
        let len = self.screen[row].cells.len();
        if col < len && n > 0 {
            let n = if n > len - col {
                len - col
            } else {
                n
            };
            self.screen[row].close_gap(col, n);
            assert(self@.screen =~= old(self)@.screen.update(
                row as int,
                old(self)@.screen[row as int].close_gap(col as int, n as int),
            ));
        }
        self.touch();
    }

    /// IL: insert `n` blank lines at the cursor row, within the scroll region.
    pub fn insert_lines(&mut self, n: usize)
        requires
            old(self)@.wf(),
        ensures
            final(self)@ == old(self)@.insert_lines(n as int),
            final(self)@.wf(),
    {
        if self.cursor.row < self.scroll_top || self.cursor.row > self.scroll_bottom {
            return;
        }
        // Row indices are about to shift, and a half-captured sweep is indexed
        // by row.
        self.cancel_clear();
        let row = self.cursor.row;
        let height = self.scroll_bottom - row + 1;
        let n = if n > height {
            height
        } else {
            n
        };
        self.open_lines_at(row, self.scroll_bottom, n);
        self.touch();
    }

    /// DL: delete `n` lines at the cursor row, within the scroll region.
    pub fn delete_lines(&mut self, n: usize)
        requires
            old(self)@.wf(),
        ensures
            final(self)@ == old(self)@.delete_lines(n as int),
            final(self)@.wf(),
    {
        if self.cursor.row < self.scroll_top || self.cursor.row > self.scroll_bottom {
            return;
        }
        self.cancel_clear();
        let row = self.cursor.row;
        let height = self.scroll_bottom - row + 1;
        let n = if n > height {
            height
        } else {
            n
        };
        let _gone = self.drop_lines_at(row, self.scroll_bottom, n);
        self.touch();
    }

    // ---- resets ----------------------------------------------------------

    /// RIS: full reset. The screen is filed into scrollback on the way out,
    /// for the same reason a clear-screen is: a reset sent by IRIS must not
    /// take the transcript with it. Use [`Grid::hard_reset`] for the one the
    /// user asks for explicitly.
    ///
    /// RIS is the far side saying it has forgotten its own modes, so the keys
    /// it expects go back to the ANSI spelling.
    pub fn reset(&mut self)
        requires
            old(self)@.laid_out(),
        ensures
            final(self)@ == old(self)@.reset(),
            final(self)@.wf(),
    {
        self.cancel_clear();
        self.archive_screen();
        self.blank_everything();
        self.app_cursor_keys = false;
    }

    /// Reset *and* forget the history: the deliberate "give me a clean
    /// terminal" gesture.
    pub fn hard_reset(&mut self)
        requires
            old(self)@.laid_out(),
        ensures
            final(self)@ == old(self)@.hard_reset(),
            final(self)@.wf(),
    {
        self.cancel_clear();
        self.scrollback = VecDeque::new();
        assert(self@.scrollback =~= Seq::empty());
        self.widest = 0;
        self.blank_everything();
    }

    /// The part of a reset both spellings share: an empty screen, the default
    /// pen, a homed cursor and no leftover modes.
    fn blank_everything(&mut self)
        requires
            old(self)@.laid_out(),
            old(self)@.clear is None,
        ensures
            final(self)@ == old(self)@.blank_everything(),
            final(self)@.wf(),
    {
        self.blank_rows_in(0, self.rows);
        assert(self@.screen =~= blank_rows(self@.rows));
        self.pen.reset();
        self.insert_mode = false;
        self.cursor = Cursor { row: 0, col: 0, visible: true };
        self.reset_scroll_region();
        self.pending_wrap = false;
        self.saved_cursor = None;
        self.touch();
    }

    // ---- resize ----------------------------------------------------------

    /// Clamps every row of the screen to `cols` columns.
    ///
    /// Scrollback is deliberately left alone: history is not reflowed, and a
    /// narrower window would otherwise truncate lines already received. Readers
    /// clamp to each row's own length.
    fn narrow_screen(&mut self, cols: usize)
        ensures
            final(self)@ == (GridState {
                screen: old(self)@.screen.map_values(|row: RowState| row.cut(cols as int)),
                ..old(self)@
            }),
    {
        let ghost start = self@;
        let mut r: usize = 0;
        while r < self.screen.len()
            invariant
                r <= start.screen.len(),
                self@ == (GridState { screen: self@.screen, ..start }),
                self.screen@.len() == start.screen.len(),
                forall|i: int|
                    0 <= i < r ==> #[trigger] self@.screen[i] == start.screen[i].cut(cols as int),
                forall|i: int|
                    r <= i < start.screen.len() ==> #[trigger] self@.screen[i] == start.screen[i],
            decreases self.screen.len() - r,
        {
            let ghost before = self@;
            self.screen[r].narrow_to(cols);
            assert(self@.screen =~= before.screen.update(
                r as int,
                before.screen[r as int].cut(cols as int),
            ));
            r += 1;
        }
        assert(self@.screen =~= start.screen.map_values(|row: RowState| row.cut(cols as int)));
    }

    /// Takes `n` rows off the screen, preferring blank lines below the cursor
    /// over real content, which goes into scrollback.
    fn lose_rows(&mut self, n: usize)
        requires
            n < old(self)@.screen.len(),
        ensures
            final(self)@ == old(self)@.lose_rows(n as nat),
            lost_rows(old(self)@, n as nat),
    {
        let mut removed: usize = 0;
        while removed < n
            invariant
                removed <= n < old(self)@.screen.len(),
                self@ == old(self)@.lose_rows(removed as nat),
                lost_rows(old(self)@, removed as nat),
            decreases n - removed,
        {
            proof {
                lose_row_frame(old(self)@, removed as nat);
            }
            self.lose_row();
            removed += 1;
        }
    }

    /// [`Grid::resize`] with the time given.
    pub fn resize_at(&mut self, cols: usize, rows: usize, now: Instant)
        requires
            old(self)@.wf(),
        ensures
            final(self)@ == old(self)@.resize(cols as int, rows as int, now),
            final(self)@.wf(),
    {
        let cols = if cols < 1 {
            1
        } else {
            cols
        };
        let rows = if rows < 1 {
            1
        } else {
            rows
        };
        if cols == self.cols && rows == self.rows {
            return;
        }
        // A sweep is indexed by row, and the screen is about to be a different
        // height.
        self.cancel_clear();
        // Whatever the far side sends back about this is a repaint, not a
        // clear-screen.
        self.resized_at = Some(now);

        self.set_cols(cols);
        self.set_rows(rows);
        self.settle();
        self.touch();
    }

    fn set_cols(&mut self, cols: usize)
        ensures
            final(self)@ == old(self)@.with_cols(cols as int),
    {
        if cols != self.cols {
            self.narrow_screen(cols);
            self.cols = cols;
        }
    }

    fn set_rows(&mut self, rows: usize)
        requires
            1 <= rows,
            old(self)@.screen.len() == old(self)@.rows,
        ensures
            final(self)@ == old(self)@.with_rows(rows as int),
            final(self)@.screen.len() == rows,
            final(self)@.cols == old(self)@.cols,
            final(self)@.clear == old(self)@.clear,
            final(self)@.resized_at == old(self)@.resized_at,
    {
        let height = self.rows;
        if rows < height {
            self.lose_rows(height - rows);
        } else {
            // Blank rows at the bottom, and history left where it is.
            for i in 0..rows - height
                invariant
                    self@ == (GridState { screen: self@.screen, ..old(self)@ }),
                    self@.screen =~= old(self)@.screen + blank_rows(i as int),
            {
                self.screen.push(Row::new());
            }
        }
        self.rows = rows;
    }

    /// A stale scroll region that outlives its screen would strand the cursor,
    /// so re-home it and clamp.
    fn settle(&mut self)
        requires
            old(self)@.rows >= 1,
            old(self)@.cols >= 1,
        ensures
            final(self)@ == old(self)@.settle(),
    {
        self.scroll_top = 0;
        self.scroll_bottom = self.rows - 1;
        if self.cursor.row > self.rows - 1 {
            self.cursor.row = self.rows - 1;
        }
        if self.cursor.col > self.cols - 1 {
            self.cursor.col = self.cols - 1;
        }
        self.pending_wrap = false;
    }

    /// Takes one row off the screen.
    fn lose_row(&mut self)
        requires
            old(self)@.screen.len() > 1,
        ensures
            final(self)@ == old(self)@.lose_row(),
    {
        let last = self.screen.len() - 1;
        if last > self.cursor.row && self.screen[last].used_width() == 0 {
            let _ = self.screen.pop();
            assert(self@.screen =~= old(self)@.screen.drop_last());
        } else {
            let row = self.screen.remove(0);
            assert(self@.screen =~= old(self)@.screen.drop_first());
            self.push_scrollback(&row);
            self.cursor.row = self.cursor.row.saturating_sub(1);
        }
    }

    /// Resize the screen, preserving as much content as possible.
    ///
    /// Shrinking pushes the top lines into scrollback; growing adds the new
    /// rows at the bottom and leaves history where it is. That is what the far
    /// side does with its own buffer, and matching it is the point: the screen
    /// is the far side's to paint, and anything put on a row it believes is
    /// empty gets erased by its next repaint.
    ///
    /// Width changes truncate each row; full re-wrapping of soft-wrapped
    /// paragraphs is deliberately not attempted.
    pub fn resize(&mut self, cols: usize, rows: usize)
        requires
            old(self)@.wf(),
        ensures
            final(self)@.wf(),
            exists|now: Instant|
                final(self)@ == #[trigger] old(self)@.resize(cols as int, rows as int, now),
    {
        let now = Instant::now();
        self.resize_at(cols, rows, now);
    }

    // ---- text extraction -------------------------------------------------

    /// Visible screen as text lines. Shared by export and the clean logger.
    pub fn screen_text(&self) -> (lines: Vec<String>)
        ensures
            lines@.len() == self@.screen.len(),
            forall|i: int|
                0 <= i < lines@.len() ==> (#[trigger] lines@[i])@ == self@.screen[i].text(),
    {
        let mut lines: Vec<String> = Vec::new();
        let mut i: usize = 0;
        while i < self.screen.len()
            invariant
                i <= self.screen@.len(),
                lines@.len() == i,
                forall|k: int|
                    0 <= k < lines@.len() ==> (#[trigger] lines@[k])@ == self@.screen[k].text(),
            decreases self.screen.len() - i,
        {
            lines.push(self.screen[i].to_text());
            i += 1;
        }
        lines
    }

    /// Scrollback plus visible screen as text lines.
    pub fn all_text(&self) -> (lines: Vec<String>)
        ensures
            lines@.len() == self@.scrollback.len() + self@.screen.len(),
            forall|i: int|
                0 <= i < lines@.len() ==> (#[trigger] lines@[i])@ == (self@.scrollback
                    + self@.screen)[i].text(),
    {
        let mut lines: Vec<String> = Vec::new();
        let mut i: usize = 0;
        while i < self.scrollback.len()
            invariant
                i <= self.scrollback@.len(),
                lines@.len() == i,
                forall|k: int|
                    0 <= k < lines@.len() ==> (#[trigger] lines@[k])@ == self@.scrollback[k].text(),
            decreases self.scrollback.len() - i,
        {
            lines.push(self.scrollback[i].to_text());
            i += 1;
        }
        let ghost history = lines@;
        let mut below = self.screen_text();
        lines.append(&mut below);
        lines
    }
}

/// Whether a row that a sweep kept, if it kept one, has nothing on it.
fn kept_nothing(row: &Option<Row>) -> (yes: bool)
    ensures
        yes == (row is Some && used(row->0@.cells) == 0),
{
    match row {
        Some(row) => row.used_width() == 0,
        None => false,
    }
}

/// Whether a sweep has kept every row of the screen.
fn all_kept(sweep: &ClearSweep) -> (yes: bool)
    ensures
        yes == sweep@.complete(),
{
    let mut i: usize = 0;
    while i < sweep.rows.len()
        invariant
            i <= sweep.rows@.len(),
            forall|k: int| 0 <= k < i ==> #[trigger] sweep@.rows[k] is Some,
        decreases sweep.rows.len() - i,
    {
        assert(sweep@.rows[i as int] == kept_state(sweep.rows@[i as int]));
        if sweep.rows[i].is_none() {
            return false;
        }
        i += 1;
    }
    true
}

} // verus!
