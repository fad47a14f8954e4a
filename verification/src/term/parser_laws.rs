//! What the sequences of the byte stream mean, each in numbers of rows, columns
//! and cells.

use std::time::Instant;
use vstd::prelude::*;

use super::cell::{default_cell, Attrs, Cell, Color, Pen};
use super::grid::Cursor;
use super::parser::{performed, rendered, rendition, reply_to, run};
use super::state::{filed, used, used_is_the_last_non_blank, GridState, RowState};
use super::vt::ActionState;
use crate::number::{unsigned, what_is_written_is_read};
use crate::text::{digits, low_bytes, utf8_lossy};

verus! {

/// A CSI sequence without a mark, carried out.
pub open spec fn sequence(s: GridState, params: Seq<Seq<u16>>, last: char, repainting: bool) -> GridState {
    performed(s, ActionState::Csi(params, Seq::empty(), last), repainting)
}

/// Everything of a grid but the cursor, what becomes of a line that is full, the
/// sweep that homing the cursor may open, and the count of changes.
pub open spec fn only_the_cursor_moved(s: GridState, t: GridState) -> bool {
    &&& t.cursor.visible == s.cursor.visible
    &&& !t.pending_wrap
    &&& t == (GridState {
        cursor: t.cursor,
        pending_wrap: false,
        clear: t.clear,
        revision: t.revision,
        ..s
    })
}

// ---- the cursor ---------------------------------------------------------

/// Up and down: on a screen that scrolls as a whole the cursor stays in its
/// column and goes that many rows towards the top, or the bottom, and no
/// further than the edge. Nothing counts as one.
pub proof fn up_is_up_and_down_is_down(s: GridState, n: u16, repainting: bool)
    requires
        s.wf(),
        s.top == 0,
        s.bottom == s.rows - 1,
    ensures
        ({
            let k = if n == 0 { 1int } else { n as int };
            let row = s.cursor.row as int;
            let up = sequence(s, seq![seq![n]], 'A', repainting);
            let up_first = sequence(s, seq![seq![n]], 'F', repainting);
            &&& up.cursor.row == if row >= k { row - k } else { 0 }
            &&& up.cursor.col == s.cursor.col
            &&& only_the_cursor_moved(s, up)
            &&& up_first.cursor.row == up.cursor.row
            &&& up_first.cursor.col == 0
            &&& only_the_cursor_moved(s, up_first)
        }),
        ({
            let k = if n == 0 { 1int } else { n as int };
            let row = s.cursor.row as int;
            let down = sequence(s, seq![seq![n]], 'B', repainting);
            let down_first = sequence(s, seq![seq![n]], 'E', repainting);
            &&& down.cursor.row == if row + k < s.rows { row + k } else { s.rows - 1 }
            &&& down.cursor.col == s.cursor.col
            &&& only_the_cursor_moved(s, down)
            &&& sequence(s, seq![seq![n]], 'e', repainting) == down
            &&& down_first.cursor.row == down.cursor.row
            &&& down_first.cursor.col == 0
            &&& only_the_cursor_moved(s, down_first)
        }),
{
    reveal(performed);
    assert(seq![seq![n]][0] =~= seq![n]);
}

/// Within a scrolling region, up and down stop at its edges; outside of it, at
/// those of the screen.
pub proof fn up_and_down_stop_at_the_region(s: GridState, n: u16, repainting: bool)
    requires
        s.wf(),
        n > 0,
    ensures
        ({
            let row = s.cursor.row as int;
            let up = sequence(s, seq![seq![n]], 'A', repainting).cursor;
            let down = sequence(s, seq![seq![n]], 'B', repainting).cursor;
            &&& row >= s.top && row - n >= s.top ==> up.row == row - n
            &&& row >= s.top && row - n < s.top ==> up.row == s.top
            &&& row < s.top && row >= n ==> up.row == row - n
            &&& row < s.top && row < n ==> up.row == 0
            &&& row <= s.bottom && row + n <= s.bottom ==> down.row == row + n
            &&& row <= s.bottom && row + n > s.bottom ==> down.row == s.bottom
            &&& row > s.bottom && row + n < s.rows ==> down.row == row + n
            &&& row > s.bottom && row + n >= s.rows ==> down.row == s.rows - 1
            &&& up.row <= row <= down.row
            &&& up.col == s.cursor.col && down.col == s.cursor.col
        }),
{
    reveal(performed);
    assert(seq![seq![n]][0] =~= seq![n]);
}

/// Left and right: the row stays, and the column goes that many to the left, or
/// to the right, and no further than the margin.
pub proof fn left_is_left_and_right_is_right(s: GridState, n: u16, repainting: bool)
    requires
        s.wf(),
    ensures
        ({
            let k = if n == 0 { 1int } else { n as int };
            let col = s.cursor.col as int;
            let right = sequence(s, seq![seq![n]], 'C', repainting);
            let left = sequence(s, seq![seq![n]], 'D', repainting);
            &&& right.cursor.col == if col + k < s.cols { col + k } else { s.cols - 1 }
            &&& left.cursor.col == if col >= k { col - k } else { 0 }
            &&& right.cursor.row == s.cursor.row && left.cursor.row == s.cursor.row
            &&& only_the_cursor_moved(s, right) && only_the_cursor_moved(s, left)
            &&& sequence(s, seq![seq![n]], 'a', repainting) == right
        }),
{
    reveal(performed);
    assert(seq![seq![n]][0] =~= seq![n]);
}

/// Rows and columns that a sequence names are counted from one, zero counts as
/// one, and what lies past the screen is its last row or column.
pub proof fn a_position_is_counted_from_one(s: GridState, n: u16, m: u16, repainting: bool)
    requires
        s.wf(),
    ensures
        ({
            let row = if n == 0 { 0int } else if n <= s.rows { n - 1 } else { s.rows - 1 };
            let col = if m == 0 { 0int } else if m <= s.cols { m - 1 } else { s.cols - 1 };
            let both = sequence(s, seq![seq![n], seq![m]], 'H', repainting);
            let down = sequence(s, seq![seq![n]], 'd', repainting);
            let across = sequence(s, seq![seq![m]], 'G', repainting);
            &&& both.cursor.row == row && both.cursor.col == col
            &&& down.cursor.row == row && down.cursor.col == s.cursor.col
            &&& across.cursor.row == s.cursor.row && across.cursor.col == col
            &&& only_the_cursor_moved(s, both)
            &&& only_the_cursor_moved(s, down)
            &&& only_the_cursor_moved(s, across)
            &&& sequence(s, seq![seq![n], seq![m]], 'f', repainting) == both
            &&& sequence(s, seq![seq![m]], '`', repainting) == across
        }),
{
    reveal(performed);
    assert(seq![seq![n], seq![m]][0] =~= seq![n]);
    assert(seq![seq![n], seq![m]][1] =~= seq![m]);
    assert(seq![seq![n]][0] =~= seq![n]);
    assert(seq![seq![m]][0] =~= seq![m]);
}

/// A parameter that is left out is one, for a count as for a position; and for
/// an erase it is zero.
pub proof fn a_missing_parameter(s: GridState, last: char, repainting: bool)
    requires
        s.wf(),
    ensures
        last != 'J' && last != 'K' && last != 'm' && last != 'r' && last != 'h' && last != 'l'
            ==> sequence(s, Seq::empty(), last, repainting) == sequence(
            s,
            seq![seq![1u16], seq![1u16]],
            last,
            repainting,
        ) && sequence(s, seq![seq![0u16], seq![0u16]], last, repainting) == sequence(
            s,
            seq![seq![1u16], seq![1u16]],
            last,
            repainting,
        ),
        last == 'J' || last == 'K' || last == 'm' ==> sequence(s, Seq::empty(), last, repainting)
            == sequence(s, seq![seq![0u16]], last, repainting),
{
    reveal(performed);
    let ones = seq![seq![1u16], seq![1u16]];
    let nothing = seq![seq![0u16], seq![0u16]];
    assert(ones[0] =~= seq![1u16] && ones[1] =~= seq![1u16]);
    assert(nothing[0] =~= seq![0u16] && nothing[1] =~= seq![0u16]);
    assert(seq![seq![0u16]][0] =~= seq![0u16]);
    reveal_with_fuel(super::parser::flat, 3);
    assert(seq![seq![0u16]].drop_last() =~= Seq::empty());
    assert(super::parser::flat(seq![seq![0u16]]) =~= seq![0u16]);
    reveal_with_fuel(rendition, 3);
}

/// A tab goes right, to the next column that is a multiple of eight, or to the
/// margin, and stays on the row.
pub proof fn a_tab_goes_to_the_next_stop(s: GridState, c: int, repainting: bool)
    requires
        s.wf(),
    ensures
        ({
            let col = s.cursor.col as int;
            let tab = performed(s, ActionState::Execute(0x09), repainting);
            &&& tab.cursor.row == s.cursor.row && only_the_cursor_moved(s, tab)
            &&& col <= tab.cursor.col < s.cols && tab.cursor.col <= col + 8
            &&& tab.cursor.col % 8 == 0 || tab.cursor.col == s.cols - 1
            &&& tab.cursor.col > col || col == s.cols - 1
            &&& col < c < tab.cursor.col ==> c % 8 != 0
        }),
{
    reveal(performed);
    let col = s.cursor.col as int;
    let next = (col / 8 + 1) * 8;
    assert(next % 8 == 0 && col < next <= col + 8);
    assert(col < c < next ==> c % 8 != 0);
}

/// Backspace and carriage return go left and stay on the row.
pub proof fn controls_move_along_the_row(s: GridState, repainting: bool)
    requires
        s.wf(),
    ensures
        ({
            let col = s.cursor.col as int;
            let back = performed(s, ActionState::Execute(0x08), repainting);
            let home = performed(s, ActionState::Execute(0x0d), repainting);
            &&& back.cursor.col == if col > 0 { col - 1 } else { 0 }
            &&& home.cursor.col == 0
            &&& back.cursor.row == s.cursor.row && home.cursor.row == s.cursor.row
            &&& only_the_cursor_moved(s, back) && only_the_cursor_moved(s, home)
        }),
{
    reveal(performed);
}

/// A line feed goes one row down and stays in its column; on the last row of the
/// screen what is above moves up instead. The other way round for a reverse one.
pub proof fn a_line_feed_goes_down(s: GridState, byte: u8, repainting: bool)
    requires
        s.wf(),
        s.top == 0,
        s.bottom == s.rows - 1,
        byte == 0x0a || byte == 0x0b || byte == 0x0c,
    ensures
        ({
            let t = performed(s, ActionState::Execute(byte), repainting);
            let u = performed(s, ActionState::Esc(Seq::empty(), 0x44), repainting);
            let v = performed(s, ActionState::Esc(Seq::empty(), 0x45), repainting);
            &&& t.cursor.col == s.cursor.col && v.cursor.col == 0
            &&& s.cursor.row < s.rows - 1 ==> t.cursor.row == s.cursor.row + 1 && t.screen
                == s.screen && t.scrollback == s.scrollback
            &&& s.cursor.row == s.rows - 1 ==> t.cursor.row == s.cursor.row && (forall|r: int|
                0 <= r < s.rows - 1 ==> #[trigger] t.screen[r] == s.screen[r + 1])
                && t.screen[s.rows - 1].cells.len() == 0
            &&& s.cursor.row == s.rows - 1 && s.scrollback.len() < s.limit ==> t.scrollback
                == s.scrollback.push(s.screen[0].trim())
            &&& u.screen == t.screen && u.cursor == t.cursor && u.scrollback == t.scrollback
            &&& v.screen == t.screen && v.cursor.row == t.cursor.row && v.scrollback == t.scrollback
        }),
        ({
            let t = performed(s, ActionState::Esc(Seq::empty(), 0x4d), repainting);
            &&& t.cursor.col == s.cursor.col && t.scrollback == s.scrollback
            &&& s.cursor.row > 0 ==> t.cursor.row == s.cursor.row - 1 && t.screen == s.screen
            &&& s.cursor.row == 0 ==> t.cursor.row == 0 && (forall|r: int|
                1 <= r < s.rows ==> #[trigger] t.screen[r] == s.screen[r - 1])
                && t.screen[0].cells.len() == 0
        }),
{
    reveal(performed);
    let t = performed(s, ActionState::Execute(byte), repainting);
    if s.cursor.row == s.rows - 1 && s.scrollback.len() < s.limit {
        assert(t.scrollback =~= s.scrollback.push(s.screen[0].trim()));
    }
}

/// A saved cursor comes back where it was, in the rendition it had, by either
/// spelling of the two.
pub proof fn a_saved_cursor_comes_back(s: GridState, n: u16, m: u16, r: u16)
    requires
        s.wf(),
    ensures
        ({
            let saved = performed(s, ActionState::Esc(Seq::empty(), 0x37), false);
            let moved = sequence(
                sequence(saved, seq![seq![n], seq![m]], 'H', false),
                seq![seq![r]],
                'm',
                false,
            );
            let back = performed(moved, ActionState::Esc(Seq::empty(), 0x38), false);
            &&& saved.cursor == s.cursor && saved.screen == s.screen
            &&& back.cursor == s.cursor && back.pen == s.pen && !back.pending_wrap
            &&& sequence(s, Seq::empty(), 's', false) == saved
            &&& sequence(moved, Seq::empty(), 'u', false) == back
        }),
{
    reveal(performed);
}

// ---- what is on the screen ----------------------------------------------

/// What a column of a row shows.
pub open spec fn shown_at(row: RowState, col: int) -> char {
    if 0 <= col < row.cells.len() {
        row.cells[col].ch
    } else {
        ' '
    }
}

/// Erasing in the line leaves the other rows and what stands on the other side
/// of the cursor, and a blank everywhere else: from the cursor on, up to and
/// with it, or along the whole row.
pub proof fn erasing_in_the_line(s: GridState, mode: u16, r: int, c: int, repainting: bool)
    requires
        s.wf(),
        s.clear is None,
        mode <= 2,
        0 <= r < s.rows,
        0 <= c < s.cols,
    ensures
        ({
            let t = sequence(s, seq![seq![mode]], 'K', repainting);
            let gone = r == s.cursor.row && (mode == 2 || (mode == 0 && c >= s.cursor.col) || (mode
                == 1 && c <= s.cursor.col));
            &&& t.cursor == s.cursor && t.scrollback == s.scrollback
            &&& shown_at(t.screen[r], c) == if gone { ' ' } else { shown_at(s.screen[r], c) }
            &&& r != s.cursor.row ==> t.screen[r] == s.screen[r]
        }),
{
    reveal(performed);
    assert(seq![seq![mode]][0] =~= seq![mode]);
}

/// Erasing characters blanks that many of them from the cursor on.
pub proof fn erasing_characters(s: GridState, n: u16, r: int, c: int, repainting: bool)
    requires
        s.wf(),
        s.clear is None,
        n > 0,
        0 <= r < s.rows,
        0 <= c < s.cols,
    ensures
        ({
            let t = sequence(s, seq![seq![n]], 'X', repainting);
            let gone = r == s.cursor.row && s.cursor.col <= c < s.cursor.col + n;
            &&& t.cursor == s.cursor && t.scrollback == s.scrollback
            &&& shown_at(t.screen[r], c) == if gone { ' ' } else { shown_at(s.screen[r], c) }
        }),
{
    reveal(performed);
    assert(seq![seq![n]][0] =~= seq![n]);
}

/// Erasing in the display: what stands before the cursor in reading order, or
/// behind it, or everything.
pub proof fn erasing_in_the_display(s: GridState, mode: u16, r: int, c: int, repainting: bool)
    requires
        s.wf(),
        s.clear is None,
        mode <= 3,
        0 <= r < s.rows,
        0 <= c < s.cols,
    ensures
        ({
            let t = sequence(s, seq![seq![mode]], 'J', repainting);
            let behind = r > s.cursor.row || (r == s.cursor.row && c >= s.cursor.col);
            let before = r < s.cursor.row || (r == s.cursor.row && c <= s.cursor.col);
            let gone = mode >= 2 || (mode == 0 && behind) || (mode == 1 && before);
            &&& t.cursor == s.cursor
            &&& shown_at(t.screen[r], c) == if gone { ' ' } else { shown_at(s.screen[r], c) }
        }),
{
    reveal(performed);
    assert(seq![seq![mode]][0] =~= seq![mode]);
}

/// Inserting characters moves what stands at the cursor that many columns to the
/// right, and deleting them brings what stands there that many to the left.
/// Blanks take the room, and what leaves the row is gone.
pub proof fn inserting_and_deleting_characters(s: GridState, n: u16, c: int, repainting: bool)
    requires
        s.wf(),
        n > 0,
        s.screen[s.cursor.row as int].cells.len() <= s.cols,
        0 <= c < s.cols,
    ensures
        ({
            let row = s.cursor.row as int;
            let col = s.cursor.col as int;
            let line = s.screen[row];
            let more = sequence(s, seq![seq![n]], '@', repainting);
            let less = sequence(s, seq![seq![n]], 'P', repainting);
            &&& shown_at(more.screen[row], c) == if c < col {
                shown_at(line, c)
            } else if c < col + n {
                ' '
            } else {
                shown_at(line, c - n)
            }
            &&& shown_at(less.screen[row], c) == if c < col {
                shown_at(line, c)
            } else if c + n < s.cols {
                shown_at(line, c + n)
            } else {
                ' '
            }
            &&& more.cursor == s.cursor && less.cursor == s.cursor
            &&& forall|r: int|
                0 <= r < s.rows && r != row ==> #[trigger] more.screen[r] == s.screen[r]
                    && less.screen[r] == s.screen[r]
        }),
{
    reveal(performed);
    assert(seq![seq![n]][0] =~= seq![n]);
}

/// Inserting lines moves the cursor's row and those below it down, within the
/// scrolling region, and deleting lines moves up what stands that far below.
/// Rows outside the region stay.
pub proof fn inserting_and_deleting_lines(s: GridState, n: u16, r: int, repainting: bool)
    requires
        s.wf(),
        n > 0,
        s.top <= s.cursor.row <= s.bottom,
        0 <= r < s.rows,
    ensures
        ({
            let row = s.cursor.row as int;
            let more = sequence(s, seq![seq![n]], 'L', repainting);
            let less = sequence(s, seq![seq![n]], 'M', repainting);
            &&& r < row || r > s.bottom ==> more.screen[r] == s.screen[r] && less.screen[r]
                == s.screen[r]
            &&& row <= r <= s.bottom && r < row + n ==> more.screen[r].cells.len() == 0
            &&& row + n <= r <= s.bottom ==> more.screen[r] == s.screen[r - n]
            &&& row <= r && r + n <= s.bottom ==> less.screen[r] == s.screen[r + n]
            &&& row <= r <= s.bottom && r + n > s.bottom ==> less.screen[r].cells.len() == 0
            &&& more.cursor == s.cursor && less.cursor == s.cursor
        }),
{
    reveal(performed);
    assert(seq![seq![n]][0] =~= seq![n]);
}

/// Scrolling up moves the rows of the region up, and scrolling down moves them
/// down; the cursor stays. Only what leaves the top of the whole screen is kept.
pub proof fn scrolling_up_and_down(s: GridState, n: u16, r: int, repainting: bool)
    requires
        s.wf(),
        n > 0,
        0 <= r < s.rows,
    ensures
        ({
            let up = sequence(s, seq![seq![n]], 'S', repainting);
            let down = sequence(s, seq![seq![n]], 'T', repainting);
            &&& r < s.top || r > s.bottom ==> up.screen[r] == s.screen[r] && down.screen[r]
                == s.screen[r]
            &&& s.top <= r && r + n <= s.bottom ==> up.screen[r] == s.screen[r + n]
            &&& s.top <= r <= s.bottom && r + n > s.bottom ==> up.screen[r].cells.len() == 0
            &&& s.top + n <= r <= s.bottom ==> down.screen[r] == s.screen[r - n]
            &&& s.top <= r <= s.bottom && r < s.top + n ==> down.screen[r].cells.len() == 0
            &&& up.cursor == s.cursor && down.cursor == s.cursor
            &&& down.scrollback == s.scrollback
        }),
        s.top == 0 && s.bottom == s.rows - 1 && n <= s.rows && s.scrollback.len() + n <= s.limit
            ==> {
            let up = sequence(s, seq![seq![n]], 'S', repainting);
            &&& up.scrollback.len() == s.scrollback.len() + n
            &&& forall|i: int|
                0 <= i < s.scrollback.len() ==> #[trigger] up.scrollback[i] == s.scrollback[i]
            &&& forall|i: int|
                0 <= i < n ==> #[trigger] up.scrollback[s.scrollback.len() + i]
                    == s.screen[i].trim()
        },
{
    reveal(performed);
    assert(seq![seq![n]][0] =~= seq![n]);
}

/// The scrolling region is from the one row to the other, counted from one, and
/// the cursor is homed. One that holds no two rows is no region.
pub proof fn the_region_is_from_row_to_row(s: GridState, n: u16, m: u16, repainting: bool)
    requires
        s.wf(),
    ensures
        ({
            let t = sequence(s, seq![seq![n], seq![m]], 'r', repainting);
            &&& 1 <= n < m <= s.rows ==> t.top == n - 1 && t.bottom == m - 1 && t.cursor.row == 0
                && t.cursor.col == 0
            &&& n >= m && m > 0 ==> t == s
            &&& t.screen == s.screen && t.scrollback == s.scrollback
            &&& 1 < s.rows <= 65535 ==> {
                let all = sequence(s, Seq::empty(), 'r', repainting);
                all.top == 0 && all.bottom == s.rows - 1 && all.cursor.row == 0 && all.cursor.col
                    == 0
            }
        }),
{
    reveal(performed);
    assert(seq![seq![n], seq![m]][0] =~= seq![n]);
    assert(seq![seq![n], seq![m]][1] =~= seq![m]);
}

// ---- renditions ---------------------------------------------------------

/// A pen with one bit of its attributes looked at.
pub open spec fn carries(pen: Pen, mask: u8) -> bool {
    pen.attrs.0 & mask == mask
}

/// A parameter on its own: each attribute is put on by its number and taken off
/// by the one twenty further, and nothing else of the pen changes.
pub proof fn an_attribute_goes_on_and_off(pen: Pen, mask: u8, on: u16, off: u16, other: u8)
    requires
        (mask == Attrs::ITALIC && on == 3 && off == 23) || (mask == Attrs::UNDERLINE && on == 4
            && off == 24) || (mask == Attrs::BLINK && (on == 5 || on == 6) && off == 25) || (mask
            == Attrs::REVERSE && on == 7 && off == 27) || (mask == Attrs::HIDDEN && on == 8 && off
            == 28) || (mask == Attrs::STRIKE && on == 9 && off == 29),
    ensures
        carries(rendition(pen, seq![on]), mask),
        !carries(rendition(pen, seq![off]), mask),
        rendition(pen, seq![on]).fg == pen.fg && rendition(pen, seq![on]).bg == pen.bg,
        rendition(pen, seq![off]).fg == pen.fg && rendition(pen, seq![off]).bg == pen.bg,
        other & mask == 0 ==> carries(rendition(pen, seq![on]), other) == carries(pen, other),
        other & mask == 0 ==> carries(rendition(pen, seq![off]), other) == carries(pen, other),
{
    one_parameter(pen, on);
    one_parameter(pen, off);
    let a = pen.attrs.0;
    assert((a | mask) & mask == mask) by (bit_vector);
    assert((a & !mask) & mask == 0) by (bit_vector);
    assert(other & mask == 0 ==> (a | mask) & other == a & other) by (bit_vector);
    assert(other & mask == 0 ==> (a & !mask) & other == a & other) by (bit_vector);
}

/// Bold and dim are put on apart and taken off together.
pub proof fn bold_and_dim_go_off_together(pen: Pen, off: u16)
    requires
        off == 21 || off == 22,
    ensures
        carries(rendition(pen, seq![1u16]), Attrs::BOLD),
        carries(rendition(pen, seq![2u16]), Attrs::DIM),
        carries(rendition(pen, seq![1u16]), Attrs::DIM) == carries(pen, Attrs::DIM),
        carries(rendition(pen, seq![2u16]), Attrs::BOLD) == carries(pen, Attrs::BOLD),
        !carries(rendition(pen, seq![off]), Attrs::BOLD),
        !carries(rendition(pen, seq![off]), Attrs::DIM),
        rendition(pen, seq![1u16]).fg == pen.fg && rendition(pen, seq![1u16]).bg == pen.bg,
        rendition(pen, seq![2u16]).fg == pen.fg && rendition(pen, seq![2u16]).bg == pen.bg,
        rendition(pen, seq![off]).fg == pen.fg && rendition(pen, seq![off]).bg == pen.bg,
{
    one_parameter(pen, 1);
    one_parameter(pen, 2);
    one_parameter(pen, off);
    let a = pen.attrs.0;
    assert((a | 1) & 1 == 1 && (a | 2) & 2 == 2 && (a | 1) & 2 == a & 2 && (a | 2) & 1 == a & 1
        && (a & !1u8 & !2u8) & 1 == 0 && (a & !1u8 & !2u8) & 2 == 0) by (bit_vector);
}

/// The colours: eight from 30 on and eight bright ones from 90 on for the text,
/// the same from 40 and from 100 on for what is behind it, and 39 and 49 for the
/// theme's own. The other colour and the attributes stay.
pub proof fn a_colour_is_named_by_its_number(pen: Pen, i: u8)
    requires
        i < 8,
    ensures
        rendition(pen, seq![(30 + i) as u16]) == (Pen { fg: Color::Indexed(i), ..pen }),
        rendition(pen, seq![(90 + i) as u16]) == (Pen { fg: Color::Indexed((8 + i) as u8), ..pen }),
        rendition(pen, seq![(40 + i) as u16]) == (Pen { bg: Color::Indexed(i), ..pen }),
        rendition(pen, seq![(100 + i) as u16]) == (Pen { bg: Color::Indexed((8 + i) as u8), ..pen }),
        rendition(pen, seq![39u16]) == (Pen { fg: Color::Default, ..pen }),
        rendition(pen, seq![49u16]) == (Pen { bg: Color::Default, ..pen }),
        rendition(pen, seq![0u16]) == (Pen {
            fg: Color::Default,
            bg: Color::Default,
            attrs: Attrs(0),
        }),
{
    one_parameter(pen, (30 + i) as u16);
    one_parameter(pen, (90 + i) as u16);
    one_parameter(pen, (40 + i) as u16);
    one_parameter(pen, (100 + i) as u16);
    one_parameter(pen, 39);
    one_parameter(pen, 49);
    one_parameter(pen, 0);
}

/// A colour of the palette or of three parts, for the text (38) or for what is
/// behind it (48).
pub proof fn an_extended_colour_is_taken_whole(pen: Pen, r: u8, g: u8, b: u8, rest: Seq<u16>)
    ensures
        rendition(pen, seq![38u16, 5u16, r as u16] + rest) == rendition(
            Pen { fg: Color::Indexed(r), ..pen },
            rest,
        ),
        rendition(pen, seq![48u16, 5u16, r as u16] + rest) == rendition(
            Pen { bg: Color::Indexed(r), ..pen },
            rest,
        ),
        rendition(pen, seq![48u16, 2u16, r as u16, g as u16, b as u16] + rest) == rendition(
            Pen { bg: Color::Rgb(r, g, b), ..pen },
            rest,
        ),
{
    assert((seq![38u16, 5u16, r as u16] + rest).skip(3) =~= rest);
    assert((seq![48u16, 5u16, r as u16] + rest).skip(3) =~= rest);
    assert((seq![48u16, 2u16, r as u16, g as u16, b as u16] + rest).skip(5) =~= rest);
}

/// Parameters are taken one after the other.
pub proof fn parameters_are_taken_in_turn(pen: Pen, code: u16, rest: Seq<u16>)
    requires
        code != 38 && code != 48,
    ensures
        rendition(pen, seq![code] + rest) == rendition(rendition(pen, seq![code]), rest),
{
    one_parameter(pen, code);
    assert((seq![code] + rest).skip(1) =~= rest);
}

proof fn one_parameter(pen: Pen, code: u16)
    requires
        code != 38 && code != 48,
    ensures
        rendition(pen, seq![code]) == rendered(pen, code),
{
    reveal_with_fuel(rendition, 2);
    assert(seq![code].skip(1) =~= Seq::empty());
}

/// The sequence changes the pen by its parameters, and what is printed after it
/// is drawn with that pen.
pub proof fn a_rendition_is_what_is_printed_in(
    s: GridState,
    codes: Seq<u16>,
    ch: char,
    repainting: bool,
)
    requires
        s.wf(),
        codes.len() > 0,
        !s.pending_wrap,
    ensures
        ({
            let t = sequence(s, seq![codes], 'm', repainting);
            let u = performed(t, ActionState::Print(ch), repainting);
            &&& t.pen == rendition(s.pen, codes)
            &&& t.screen == s.screen && t.cursor == s.cursor && t.scrollback == s.scrollback
            &&& u.screen[s.cursor.row as int].cells[s.cursor.col as int] == (Cell {
                ch,
                fg: t.pen.fg,
                bg: t.pen.bg,
                attrs: t.pen.attrs,
            })
        }),
{
    reveal(performed);
    reveal_with_fuel(super::parser::flat, 3);
    assert(seq![codes].drop_last() =~= Seq::empty());
    assert(super::parser::flat(seq![codes]) =~= codes);
}

// ---- modes, replies and the title ---------------------------------------

/// `h` sets a mode and `l` takes it back: the cursor is drawn (25), the cursor
/// keys are an application's (1), and without the mark what is typed is inserted
/// (4).
pub proof fn a_mode_is_set_and_taken_back(s: GridState, repainting: bool)
    requires
        s.wf(),
    ensures
        ({
            let dec = |n: u16, last: char|
                performed(s, ActionState::Csi(seq![seq![n]], seq![0x3fu8], last), repainting);
            &&& dec(25, 'h').cursor == (Cursor { visible: true, ..s.cursor })
            &&& dec(25, 'l').cursor == (Cursor { visible: false, ..s.cursor })
            &&& dec(1, 'h').app_cursor_keys && !dec(1, 'l').app_cursor_keys
            &&& dec(1, 'h').cursor == s.cursor && dec(25, 'h').app_cursor_keys == s.app_cursor_keys
            &&& sequence(s, seq![seq![4u16]], 'h', repainting).insert_mode
            &&& !sequence(s, seq![seq![4u16]], 'l', repainting).insert_mode
            &&& performed(s, ActionState::Esc(Seq::empty(), 0x3d), repainting).app_cursor_keys
            &&& !performed(s, ActionState::Esc(Seq::empty(), 0x3e), repainting).app_cursor_keys
        }),
{
    reveal(performed);
    reveal_with_fuel(super::parser::dec_modes, 2);
    reveal_with_fuel(super::parser::ansi_modes, 2);
    assert(seq![seq![25u16]][0] =~= seq![25u16]);
    assert(seq![seq![1u16]][0] =~= seq![1u16]);
    assert(seq![seq![4u16]][0] =~= seq![4u16]);
    assert(seq![0x3fu8][0] == 0x3f);
}

/// The far side that asks where the cursor is gets its row and its column,
/// counted from one and in digits.
pub proof fn the_reply_says_where_the_cursor_is(s: GridState)
    requires
        s.wf(),
    ensures
        ({
            let reply = reply_to(s, ActionState::Csi(seq![seq![6u16]], Seq::empty(), 'n'));
            let row = digits((s.cursor.row + 1) as nat);
            let col = digits((s.cursor.col + 1) as nat);
            &&& reply == seq![0x1bu8, 0x5bu8] + low_bytes(row) + seq![0x3bu8] + low_bytes(col)
                + seq![0x52u8]
            &&& unsigned(row, usize::MAX + 1) == Some(s.cursor.row + 1)
            &&& unsigned(col, usize::MAX + 1) == Some(s.cursor.col + 1)
        }),
        reply_to(s, ActionState::Csi(seq![seq![5u16]], Seq::empty(), 'n')) == seq![
            0x1bu8,
            0x5bu8,
            0x30u8,
            0x6eu8,
        ],
        reply_to(s, ActionState::Csi(Seq::empty(), Seq::empty(), 'c')) == seq![
            0x1bu8,
            0x5bu8,
            0x3fu8,
            0x36u8,
            0x63u8,
        ],
{
    assert(seq![seq![6u16]][0] =~= seq![6u16]);
    assert(seq![seq![5u16]][0] =~= seq![5u16]);
    what_is_written_is_read((s.cursor.row + 1) as nat, usize::MAX + 1);
    what_is_written_is_read((s.cursor.col + 1) as nat, usize::MAX + 1);
}

/// A reset leaves nothing on the screen, the cursor at home and the theme's own
/// colours.
pub proof fn a_reset_leaves_nothing(s: GridState, r: int, repainting: bool)
    requires
        s.wf(),
        0 <= r < s.rows,
    ensures
        ({
            let t = performed(s, ActionState::Esc(Seq::empty(), 0x63), repainting);
            &&& t.screen.len() == s.rows && t.screen[r].cells.len() == 0
            &&& t.cursor.row == 0 && t.cursor.col == 0 && t.cursor.visible
            &&& t.pen.fg == Color::Default && t.pen.bg == Color::Default && t.pen.attrs.0 == 0
            &&& t.top == 0 && t.bottom == s.rows - 1 && t.saved is None && !t.insert_mode
            &&& !t.app_cursor_keys
        }),
{
    reveal(performed);
}

/// A command that names the window gives it the text of its second field, and no
/// other command names it.
pub proof fn the_window_is_named(s: GridState, kind: Seq<u8>, text: Seq<u8>, repainting: bool)
    ensures
        ({
            let t = performed(s, ActionState::Osc(seq![kind, text]), repainting);
            &&& kind == seq![0x30u8] || kind == seq![0x32u8] ==> t == (GridState {
                title: Some(utf8_lossy(text)),
                ..s
            })
            &&& kind != seq![0x30u8] && kind != seq![0x32u8] ==> t == s
        }),
{
    reveal(performed);
    assert(seq![kind, text][0] == kind && seq![kind, text][1] == text);
}

// ---- printing -----------------------------------------------------------

/// A character is put at the cursor, and the cursor goes one column on; in the
/// last column it stays, and the next character begins the next row.
pub proof fn printing_goes_one_column_on(s: GridState, ch: char, repainting: bool)
    requires
        s.wf(),
        !s.pending_wrap,
    ensures
        ({
            let t = performed(s, ActionState::Print(ch), repainting);
            let (row, col) = (s.cursor.row as int, s.cursor.col as int);
            &&& shown_at(t.screen[row], col) == ch
            &&& t.cursor.row == row
            &&& col + 1 < s.cols ==> t.cursor.col == col + 1 && !t.pending_wrap
            &&& col + 1 == s.cols ==> t.cursor.col == col && t.pending_wrap
            &&& t.pen == s.pen && t.top == s.top && t.bottom == s.bottom
        }),
{
    reveal(performed);
}

/// Behind a full row a character begins the row below, which the full one is
/// marked as going on in.
pub proof fn a_full_row_goes_on_below(s: GridState, ch: char, repainting: bool)
    requires
        s.wf(),
        s.clear is None,
        s.pending_wrap,
        s.cursor.row != s.bottom,
        s.cursor.row + 1 < s.rows,
        s.cols > 1,
    ensures
        ({
            let t = performed(s, ActionState::Print(ch), repainting);
            let row = s.cursor.row as int;
            &&& t.cursor.row == row + 1 && t.cursor.col == 1 && !t.pending_wrap
            &&& shown_at(t.screen[row + 1], 0) == ch
            &&& t.screen[row].wrapped && t.screen[row].cells == s.screen[row].cells
            &&& t.scrollback == s.scrollback
        }),
{
    reveal(performed);
}

/// The history holds the newest lines, no more than its limit, each without the
/// blanks at its end.
pub proof fn the_history_holds_the_newest(history: Seq<RowState>, limit: int, row: RowState)
    requires
        history.len() <= limit,
    ensures
        limit > 0 && history.len() < limit ==> filed(history, limit, seq![row]) == history.push(
            row.trim(),
        ),
        limit > 0 && history.len() == limit ==> filed(history, limit, seq![row]) == history.push(
            row.trim(),
        ).skip(1),
        limit == 0 ==> filed(history, limit, seq![row]) == history,
{
    let one = seq![row].map_values(|r: RowState| r.trim());
    assert(one =~= seq![row.trim()]);
    assert(history + one =~= history.push(row.trim()));
}

/// A resize makes the screen as large as was asked, one either way at least; the
/// whole of it scrolls, and the cursor is on it.
pub proof fn a_resize_makes_the_screen_that_large(s: GridState, cols: int, rows: int, now: Instant)
    requires
        s.wf(),
        1 <= cols <= usize::MAX,
        rows >= s.rows,
        rows <= usize::MAX,
        cols != s.cols || rows != s.rows,
    ensures
        ({
            let t = s.resize(cols, rows, now);
            &&& t.cols == cols && t.rows == rows && t.screen.len() == rows
            &&& t.top == 0 && t.bottom == rows - 1
            &&& t.cursor.row == s.cursor.row
            &&& t.cursor.col == if s.cursor.col < cols { s.cursor.col as int } else { cols - 1 }
            &&& forall|r: int| s.rows <= r < rows ==> (#[trigger] t.screen[r]).cells.len() == 0
            &&& t.resized_at == Some(now) && !t.pending_wrap && t.clear is None
        }),
        s.resize(s.cols, s.rows, now) == s,
{
}

/// What a row shows is its characters up to the last that is no blank.
pub proof fn the_text_of_a_row(row: RowState, n: int)
    requires
        0 <= n <= row.cells.len(),
        n > 0 ==> row.cells[n - 1].ch != ' ' && row.cells[n - 1].ch != '\0',
        forall|i: int|
            n <= i < row.cells.len() ==> (#[trigger] row.cells[i]).ch == ' ' || row.cells[i].ch
                == '\0',
    ensures
        row.text().len() == n,
        forall|i: int| 0 <= i < n ==> #[trigger] row.text()[i] == row.cells[i].ch,
{
    used_is_the_last_non_blank(row.cells);
    let m = used(row.cells) as int;
    if m < n {
        assert(row.cells[n - 1].shows_nothing());
    }
    if n < m {
        assert(row.cells[m - 1].ch == ' ' || row.cells[m - 1].ch == '\0');
    }
}

/// A repaint is what comes within half a second of a resize.
pub proof fn a_repaint_comes_within_half_a_second(s: GridState, now: Instant)
    ensures
        s.resized_at is None ==> !s.repainting_at(now),
        s.resized_at matches Some(then) ==> s.repainting_at(now) == (crate::clock::nanos_apart(
            now,
            then,
        ) < 500_000_000),
{
}

/// A grid begins blank, with the cursor in its first cell and nothing set.
pub proof fn a_grid_begins_blank(cols: int, rows: int, limit: int, r: int)
    requires
        0 <= r < rows,
    ensures
        ({
            let s = GridState::fresh(cols, rows, limit);
            &&& s.cols == cols && s.rows == rows && s.limit == limit
            &&& s.screen.len() == rows && s.screen[r].cells.len() == 0
            &&& s.scrollback.len() == 0
            &&& s.cursor.row == 0 && s.cursor.col == 0 && s.cursor.visible
            &&& s.pen.fg == Color::Default && s.pen.bg == Color::Default && s.pen.attrs.0 == 0
            &&& s.top == 0 && s.bottom == rows - 1
            &&& s.title is None && s.saved is None
            &&& !s.insert_mode && !s.app_cursor_keys && !s.pending_wrap
            &&& s.resized_at is None && !s.purge_on_clear && !s.screen_cleared
        }),
{
}

/// Actions are carried out one after the other, and what each has to say is sent in
/// that order.
pub proof fn actions_are_carried_out_in_turn(
    s: GridState,
    actions: Seq<ActionState>,
    repainting: Seq<bool>,
    action: ActionState,
    again: bool,
)
    requires
        repainting.len() == actions.len(),
    ensures
        run(s, actions.push(action), repainting.push(again)).grid == performed(
            run(s, actions, repainting).grid,
            action,
            again,
        ),
        run(s, actions.push(action), repainting.push(again)).replies == run(
            s,
            actions,
            repainting,
        ).replies + reply_to(run(s, actions, repainting).grid, action),
        run(s, Seq::empty(), Seq::empty()).grid == s,
{
    assert(actions.push(action).drop_last() =~= actions);
    assert(repainting.push(again).take(actions.len() as int) =~= repainting);
}

/// A cell that nothing was printed in is a blank in the theme's own colours.
pub proof fn a_cell_begins_blank()
    ensures
        default_cell().ch == ' ',
        default_cell().fg == Color::Default,
        default_cell().bg == Color::Default,
        default_cell().attrs.0 == 0,
{
}

} // verus!
