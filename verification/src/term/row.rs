//! One line of the screen.

use vstd::prelude::*;

use super::cell::{default_pen, Cell, Pen};
use super::state::{plain_cells, used, RowState};

verus! {

/// A single line of the screen. `wrapped` records that this row continued onto
/// the next one because the text ran past the right margin.
///
/// A row holds only the columns something has been written to, however wide the
/// terminal claims to be: a column nobody has touched costs neither memory nor
/// a pass of any scan. Every reader bounds itself by `cells.len()` or
/// [`Row::used_width`].
#[derive(Clone, Debug)]
pub struct Row {
    pub cells: Vec<Cell>,
    pub wrapped: bool,
}

impl View for Row {
    type V = RowState;

    open spec fn view(&self) -> RowState {
        RowState { cells: self.cells@, wrapped: self.wrapped }
    }
}

impl Row {
    pub fn new() -> (row: Self)
        ensures
            row@ == RowState::empty(),
    {
        Row { cells: Vec::new(), wrapped: false }
    }

    /// The row as text, with trailing blanks trimmed. Used by logging, export,
    /// and clipboard copy.
    pub fn to_text(&self) -> (text: String)
        ensures
            text@ == self@.text(),
    {
        let width = self.used_width();
        let mut text = String::new();
        let mut i: usize = 0;
        while i < width
            invariant
                i <= width <= self.cells@.len(),
                width == used(self.cells@),
                text@ =~= self@.text().take(i as int),
            decreases width - i,
        {
            text.push(self.cells[i].ch);
            i += 1;
        }
        assert(self@.text().take(width as int) =~= self@.text());
        text
    }

    /// Columns up to and including the last non-blank cell.
    ///
    /// What the display layout measures a line by: trailing blanks are padding,
    /// not content, and wrapping on them would leave empty rows.
    pub fn used_width(&self) -> (width: usize)
        ensures
            width == used(self@.cells),
            width <= self@.cells.len(),
    {
        let mut width: usize = self.cells.len();
        assert(self.cells@.take(width as int) =~= self.cells@);
        while width > 0 && self.cells[width - 1].is_blank()
            invariant
                width <= self.cells@.len(),
                used(self.cells@) == used(self.cells@.take(width as int)),
            decreases width,
        {
            assert(self.cells@.take(width as int).drop_last() =~= self.cells@.take(width - 1));
            width -= 1;
        }
        width
    }

    /// Replaces the row with `text`, one column per character.
    pub fn set_text(&mut self, text: &str)
        ensures
            final(self)@ == (RowState {
                cells: plain_cells(text@),
                wrapped: old(self)@.wrapped,
            }),
    {
        let mut cells: Vec<Cell> = Vec::new();
        for ch in it: text.chars()
            invariant
                it.seq() == text@,
                cells@.len() == it.index(),
                forall|i: int|
                    0 <= i < cells@.len() ==> #[trigger] cells@[i] == Cell::drawn(
                        text@[i],
                        default_pen(),
                    ),
        {
            cells.push(Cell::with_pen(ch, &Pen::default()));
        }
        assert(cells@ =~= plain_cells(text@));
        self.cells = cells;
    }

    /// Puts `cell` at `col`, padding the gap with blanks if the row had not
    /// reached that far.
    pub fn put(&mut self, col: usize, cell: Cell)
        ensures
            final(self)@ == old(self)@.put(col as int, cell),
    {
        if col < self.cells.len() {
            self.cells[col] = cell;
        } else {
            self.cells.resize(col, Cell::default());
            self.cells.push(cell);
        }
        assert(self@ =~= old(self)@.put(col as int, cell));
    }

    /// Blanks whatever of `from..to` the row actually holds. Erasing past the
    /// end does nothing: there is nothing there to blank.
    pub fn fill(&mut self, from: usize, to: usize, cell: Cell)
        ensures
            final(self)@ == old(self)@.fill(from as int, to as int, cell),
    {
        let len = self.cells.len();
        let end = if to < len {
            to
        } else {
            len
        };
        let mut i: usize = from;
        while i < end
            invariant
                from <= i,
                end <= len == self.cells@.len() == old(self).cells@.len(),
                end == if to < len { to } else { len },
                i <= end || i == from,
                self.wrapped == old(self).wrapped,
                forall|k: int|
                    0 <= k < len ==> #[trigger] self.cells@[k] == if from <= k < i && k < end {
                        cell
                    } else {
                        old(self).cells@[k]
                    },
            decreases end - i,
        {
            self.cells[i] = cell;
            i += 1;
        }
        assert(self@ =~= old(self)@.fill(from as int, to as int, cell));
    }

    /// Clamps the row to a narrower terminal. Never pads: a row is as long as
    /// what has been written into it.
    pub fn narrow_to(&mut self, cols: usize)
        ensures
            final(self)@ == old(self)@.cut(cols as int),
    {
        self.cells.truncate(cols);
        assert(self@ =~= old(self)@.cut(cols as int));
    }

    /// Inserts `n` copies of `cell` at `col`, dropping what is pushed past
    /// column `cols`.
    pub fn open_gap(&mut self, col: usize, n: usize, cols: usize, cell: Cell)
        requires
            col <= old(self)@.cells.len(),
            col + n <= cols,
        ensures
            final(self)@ == old(self)@.open_gap(col as int, n as int, cols as int, cell),
    {
        let tail = self.cells.split_off(col);
        self.cells.resize(col + n, cell);
        let mut i: usize = 0;
        while i < tail.len() && col + n + i < cols
            invariant
                col + n + i <= cols,
                i <= tail@.len(),
                self.wrapped == old(self).wrapped,
                tail@ == old(self).cells@.skip(col as int),
                self.cells@ =~= old(self).cells@.take(col as int) + Seq::new(
                    n as nat,
                    |k: int| cell,
                ) + tail@.take(i as int),
            decreases tail.len() - i,
        {
            self.cells.push(tail[i]);
            i += 1;
        }
        assert(self@ =~= old(self)@.open_gap(col as int, n as int, cols as int, cell));
    }

    /// Takes the `n` columns at `col` out, pulling the rest left.
    pub fn close_gap(&mut self, col: usize, n: usize)
        requires
            col + n <= old(self)@.cells.len(),
        ensures
            final(self)@ == old(self)@.close_gap(col as int, n as int),
    {
        let len = self.cells.len();
        assert(col + n <= len);
        let mut tail = self.cells.split_off(col + n);
        self.cells.truncate(col);
        self.cells.append(&mut tail);
        assert(self@ =~= old(self)@.close_gap(col as int, n as int));
    }

    /// A copy carrying only the columns in use, which is the shape a row
    /// reaches the scrollback in.
    pub fn trimmed(&self) -> (row: Row)
        ensures
            row@ == self@.trim(),
    {
        let width = self.used_width();
        let mut cells: Vec<Cell> = Vec::with_capacity(width);
        let mut i: usize = 0;
        while i < width
            invariant
                i <= width <= self.cells@.len(),
                width == used(self.cells@),
                cells@ =~= self.cells@.take(i as int),
            decreases width - i,
        {
            cells.push(self.cells[i]);
            i += 1;
        }
        let row = Row { cells, wrapped: self.wrapped };
        assert(row@ =~= self@.trim());
        row
    }
}

impl Default for Row {
    fn default() -> (row: Self)
        ensures
            row@ == RowState::empty(),
    {
        Row::new()
    }
}

/// The states of a run of rows.
pub open spec fn states(rows: Seq<Row>) -> Seq<RowState> {
    rows.map_values(|r: Row| r@)
}

pub broadcast proof fn states_push(rows: Seq<Row>, row: Row)
    ensures
        #[trigger] states(rows.push(row)) == states(rows).push(row@),
{
    assert(states(rows.push(row)) =~= states(rows).push(row@));
}

pub broadcast proof fn states_update(rows: Seq<Row>, i: int, row: Row)
    requires
        0 <= i < rows.len(),
    ensures
        #[trigger] states(rows.update(i, row)) == states(rows).update(i, row@),
{
    assert(states(rows.update(i, row)) =~= states(rows).update(i, row@));
}

pub broadcast proof fn states_subrange(rows: Seq<Row>, from: int, to: int)
    requires
        0 <= from <= to <= rows.len(),
    ensures
        #[trigger] states(rows.subrange(from, to)) == states(rows).subrange(from, to),
{
    assert(states(rows.subrange(from, to)) =~= states(rows).subrange(from, to));
}

pub broadcast proof fn states_concat(a: Seq<Row>, b: Seq<Row>)
    ensures
        #[trigger] states(a + b) == states(a) + states(b),
{
    assert(states(a + b) =~= states(a) + states(b));
}

pub broadcast group group_states {
    states_push,
    states_update,
    states_subrange,
    states_concat,
}

} // verus!
