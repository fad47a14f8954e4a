//! VT/ANSI escape-sequence handling.
//!
//! [`crate::term::vt`] frames the byte stream; this module maps the resulting
//! actions onto [`Grid`] operations. Anything unrecognised is ignored: IRIS and
//! the terminfo it targets emit a long tail of sequences that change nothing
//! here.

use std::time::Instant;
use vstd::prelude::*;

use super::cell::{default_pen, Attrs, Color, Pen};
use super::grid::{Cursor, Grid, REPAINT_WINDOW};
use super::state::{greater, lesser, GridState};
use super::vt::{
    action_states, all_plain, is_plain, lists, plain_action, plain_actions, vte_actions, Action,
    ActionState, ByteParser,
};
use crate::clock::nanos_apart;
use crate::text::{decimal, digits, lossy, low_bytes, push_ascii, utf8_lossy};

verus! {

// ---- parameters ---------------------------------------------------------

/// The value of parameter `index`, if there is one.
pub open spec fn value_at(params: Seq<Seq<u16>>, index: int) -> Option<u16> {
    if 0 <= index < params.len() && params[index].len() > 0 {
        Some(params[index][0])
    } else {
        None
    }
}

/// A count or position, which an absent or zero parameter leaves at `default`.
pub open spec fn count_at(params: Seq<Seq<u16>>, index: int, default: u16) -> u16 {
    match value_at(params, index) {
        None => default,
        Some(v) => if v == 0 {
            default
        } else {
            v
        },
    }
}

/// A mode, in which an explicit zero means something.
pub open spec fn mode_at(params: Seq<Seq<u16>>, index: int, default: u16) -> u16 {
    match value_at(params, index) {
        None => default,
        Some(v) => v,
    }
}

/// A position counted from one, as one counted from zero.
pub open spec fn from_one(n: u16) -> int {
    greater(n - 1, 0)
}

/// The parameters and their sub-parameters as one list.
pub open spec fn flat(params: Seq<Seq<u16>>) -> Seq<u16>
    decreases params.len(),
{
    if params.len() == 0 {
        Seq::empty()
    } else {
        flat(params.drop_last()) + params.last()
    }
}

// ---- colours and attributes ---------------------------------------------

/// The colour that `38;5;N` or `38;2;R;G;B` names, and how many parameters it
/// takes up.
pub open spec fn extended_color(codes: Seq<u16>) -> Option<(Color, int)> {
    if codes.len() > 2 && codes[1] == 5 {
        Some((Color::Indexed((codes[2] % 256) as u8), 3))
    } else if codes.len() > 4 && codes[1] == 2 {
        Some(
            (
                Color::Rgb(
                    (codes[2] % 256) as u8,
                    (codes[3] % 256) as u8,
                    (codes[4] % 256) as u8,
                ),
                5,
            ),
        )
    } else {
        None
    }
}

pub open spec fn with_attr(pen: Pen, mask: u8) -> Pen {
    Pen { attrs: Attrs(pen.attrs.0 | mask), ..pen }
}

pub open spec fn without_attr(pen: Pen, mask: u8) -> Pen {
    Pen { attrs: Attrs(pen.attrs.0 & !mask), ..pen }
}

/// What one SGR parameter on its own makes of the pen.
pub open spec fn rendered(pen: Pen, code: u16) -> Pen {
    if code == 0 {
        default_pen()
    } else if code == 1 {
        with_attr(pen, Attrs::BOLD)
    } else if code == 2 {
        with_attr(pen, Attrs::DIM)
    } else if code == 3 {
        with_attr(pen, Attrs::ITALIC)
    } else if code == 4 {
        with_attr(pen, Attrs::UNDERLINE)
    } else if code == 5 || code == 6 {
        with_attr(pen, Attrs::BLINK)
    } else if code == 7 {
        with_attr(pen, Attrs::REVERSE)
    } else if code == 8 {
        with_attr(pen, Attrs::HIDDEN)
    } else if code == 9 {
        with_attr(pen, Attrs::STRIKE)
    } else if code == 21 || code == 22 {
        without_attr(without_attr(pen, Attrs::BOLD), Attrs::DIM)
    } else if code == 23 {
        without_attr(pen, Attrs::ITALIC)
    } else if code == 24 {
        without_attr(pen, Attrs::UNDERLINE)
    } else if code == 25 {
        without_attr(pen, Attrs::BLINK)
    } else if code == 27 {
        without_attr(pen, Attrs::REVERSE)
    } else if code == 28 {
        without_attr(pen, Attrs::HIDDEN)
    } else if code == 29 {
        without_attr(pen, Attrs::STRIKE)
    } else if 30 <= code <= 37 {
        Pen { fg: Color::Indexed((code - 30) as u8), ..pen }
    } else if code == 39 {
        Pen { fg: Color::Default, ..pen }
    } else if 40 <= code <= 47 {
        Pen { bg: Color::Indexed((code - 40) as u8), ..pen }
    } else if code == 49 {
        Pen { bg: Color::Default, ..pen }
    } else if 90 <= code <= 97 {
        Pen { fg: Color::Indexed((code - 82) as u8), ..pen }
    } else if 100 <= code <= 107 {
        Pen { bg: Color::Indexed((code - 92) as u8), ..pen }
    } else {
        pen
    }
}

/// What a list of SGR parameters makes of the pen, 38 and 48 taking the
/// parameters of the colour that follows them along.
pub open spec fn rendition(pen: Pen, codes: Seq<u16>) -> Pen
    decreases codes.len(),
{
    if codes.len() == 0 {
        pen
    } else if (codes[0] == 38 || codes[0] == 48) && extended_color(codes) is Some {
        let (color, taken) = extended_color(codes)->0;
        let next = if codes[0] == 38 {
            Pen { fg: color, ..pen }
        } else {
            Pen { bg: color, ..pen }
        };
        rendition(next, codes.skip(taken))
    } else {
        rendition(rendered(pen, codes[0]), codes.skip(1))
    }
}

// ---- what each action does to the grid ----------------------------------

/// A control character carried out.
pub open spec fn executed(s: GridState, byte: u8) -> GridState {
    let row = s.cursor.row as int;
    let col = s.cursor.col as int;
    if byte == 0x08 {
        s.cursor_to(row, greater(col - 1, 0))
    } else if byte == 0x09 {
        s.cursor_to(row, lesser((col / 8 + 1) * 8, s.cols - 1))
    } else if 0x0a <= byte <= 0x0c {
        s.line_feed()
    } else if byte == 0x0d {
        s.cursor_to(row, 0)
    } else {
        s
    }
}

pub open spec fn moved_up_by(s: GridState, n: int) -> GridState {
    s.cursor_to(
        greater(
            s.cursor.row - n,
            if s.cursor.row >= s.top {
                s.top
            } else {
                0
            },
        ),
        s.cursor.col as int,
    )
}

pub open spec fn moved_down_by(s: GridState, n: int) -> GridState {
    s.cursor_to(
        lesser(
            s.cursor.row + n,
            if s.cursor.row <= s.bottom {
                s.bottom
            } else {
                s.rows - 1
            },
        ),
        s.cursor.col as int,
    )
}

/// The ANSI modes, of which only insert mode (4) is kept track of.
pub open spec fn ansi_modes(s: GridState, params: Seq<Seq<u16>>, enable: bool) -> GridState
    decreases params.len(),
{
    if params.len() == 0 {
        s
    } else {
        let before = ansi_modes(s, params.drop_last(), enable);
        if value_at(params, params.len() - 1) == Some(4u16) {
            GridState { insert_mode: enable, ..before }.touch()
        } else {
            before
        }
    }
}

/// The private modes: the cursor shown or hidden (25), and application cursor
/// keys (1).
pub open spec fn dec_modes(s: GridState, params: Seq<Seq<u16>>, enable: bool) -> GridState
    decreases params.len(),
{
    if params.len() == 0 {
        s
    } else {
        let before = dec_modes(s, params.drop_last(), enable);
        if value_at(params, params.len() - 1) == Some(25u16) {
            GridState {
                cursor: Cursor { visible: enable, ..before.cursor },
                ..before
            }.touch()
        } else if value_at(params, params.len() - 1) == Some(1u16) {
            GridState { app_cursor_keys: enable, ..before }
        } else {
            before
        }
    }
}

/// Whether a CSI sequence carries a private mark other than the `?` of the
/// modes: `<`, `=` or `>`, which make it another sequence than its final
/// character says.
pub open spec fn marked(intermediates: Seq<u8>) -> bool {
    intermediates.len() > 0 && 0x3c <= intermediates[0] <= 0x3e
}

/// A CSI sequence carried out. One with a private mark that nothing here knows
/// is accepted silently. `repainting` says whether a cursor homed at this moment
/// is a repaint after a resize.
pub open spec fn csi(
    s: GridState,
    params: Seq<Seq<u16>>,
    intermediates: Seq<u8>,
    last: char,
    repainting: bool,
) -> GridState {
    let n = count_at(params, 0, 1) as int;
    let private = intermediates.len() > 0 && intermediates[0] == 0x3f;
    if marked(intermediates) {
        s
    } else if last == 'A' {
        moved_up_by(s, n)
    } else if last == 'B' || last == 'e' {
        moved_down_by(s, n)
    } else if last == 'C' || last == 'a' {
        s.cursor_to(s.cursor.row as int, lesser(s.cursor.col + n, s.cols - 1))
    } else if last == 'D' {
        s.cursor_to(s.cursor.row as int, greater(s.cursor.col - n, 0))
    } else if last == 'E' {
        moved_down_by(s, n).cursor_to(moved_down_by(s, n).cursor.row as int, 0)
    } else if last == 'F' {
        moved_up_by(s, n).cursor_to(moved_up_by(s, n).cursor.row as int, 0)
    } else if last == 'G' || last == '`' {
        s.set_cursor(s.cursor.row as int, from_one(count_at(params, 0, 1)), repainting)
    } else if last == 'd' {
        s.set_cursor(from_one(count_at(params, 0, 1)), s.cursor.col as int, repainting)
    } else if last == 'H' || last == 'f' {
        s.set_cursor(
            from_one(count_at(params, 0, 1)),
            from_one(count_at(params, 1, 1)),
            repainting,
        )
    } else if last == 'J' {
        s.erase_in_display(mode_at(params, 0, 0) as int)
    } else if last == 'K' {
        s.erase_in_line(mode_at(params, 0, 0) as int)
    } else if last == 'L' {
        s.insert_lines(n)
    } else if last == 'M' {
        s.delete_lines(n)
    } else if last == 'P' {
        s.delete_chars(n)
    } else if last == 'X' {
        s.erase_chars(n)
    } else if last == '@' {
        s.insert_chars(n)
    } else if last == 'S' {
        s.scroll_up(n)
    } else if last == 'T' {
        s.scroll_down(n)
    } else if last == 'm' {
        GridState {
            pen: if flat(params).len() == 0 {
                default_pen()
            } else {
                rendition(s.pen, flat(params))
            },
            ..s
        }.touch()
    } else if last == 'r' {
        s.set_scroll_region(
            from_one(count_at(params, 0, 1)),
            from_one(count_at(params, 1, (s.rows % 0x1_0000) as u16)),
            repainting,
        )
    } else if last == 's' {
        GridState { saved: Some((s.cursor, s.pen)), ..s }
    } else if last == 'u' {
        s.bring_back()
    } else if last == 'h' || last == 'l' {
        if private {
            dec_modes(s, params, last == 'h')
        } else {
            ansi_modes(s, params, last == 'h')
        }
    } else {
        s
    }
}

/// What a CSI sequence has sent back: the answer to "are you ok", the cursor's
/// position counted from one, or the identity of a VT102.
pub open spec fn csi_reply(
    s: GridState,
    params: Seq<Seq<u16>>,
    intermediates: Seq<u8>,
    last: char,
) -> Seq<u8> {
    if marked(intermediates) {
        Seq::empty()
    } else if last == 'n' && mode_at(params, 0, 0) == 5 {
        seq![0x1bu8, 0x5bu8, 0x30u8, 0x6eu8]
    } else if last == 'n' && mode_at(params, 0, 0) == 6 {
        seq![0x1bu8, 0x5bu8] + low_bytes(digits((s.cursor.row + 1) as nat)) + seq![0x3bu8]
            + low_bytes(digits((s.cursor.col + 1) as nat)) + seq![0x52u8]
    } else if last == 'c' {
        seq![0x1bu8, 0x5bu8, 0x3fu8, 0x36u8, 0x63u8]
    } else {
        Seq::empty()
    }
}

/// An escape sequence carried out. One with intermediates selects a character
/// set and changes nothing.
pub open spec fn escaped(s: GridState, intermediates: Seq<u8>, byte: u8) -> GridState {
    if intermediates.len() > 0 {
        s
    } else if byte == 0x37 {
        GridState { saved: Some((s.cursor, s.pen)), ..s }
    } else if byte == 0x38 {
        s.bring_back()
    } else if byte == 0x44 {
        s.line_feed()
    } else if byte == 0x3d {
        GridState { app_cursor_keys: true, ..s }
    } else if byte == 0x3e {
        GridState { app_cursor_keys: false, ..s }
    } else if byte == 0x45 {
        s.line_feed().cursor_to(s.line_feed().cursor.row as int, 0)
    } else if byte == 0x4d {
        s.reverse_line_feed()
    } else if byte == 0x63 {
        s.reset()
    } else {
        s
    }
}

/// An operating system command carried out: 0 and 2 name the window.
pub open spec fn commanded(s: GridState, fields: Seq<Seq<u8>>) -> GridState {
    if fields.len() > 1 && (fields[0] =~= seq![0x30u8] || fields[0] =~= seq![0x32u8]) {
        GridState { title: Some(utf8_lossy(fields[1])), ..s }
    } else {
        s
    }
}

/// One action carried out.
#[verifier::opaque]
pub open spec fn performed(s: GridState, action: ActionState, repainting: bool) -> GridState {
    match action {
        ActionState::Print(ch) => s.print(ch),
        ActionState::Execute(byte) => executed(s, byte),
        ActionState::Csi(params, intermediates, last) => csi(
            s,
            params,
            intermediates,
            last,
            repainting,
        ),
        ActionState::Esc(intermediates, byte) => escaped(s, intermediates, byte),
        ActionState::Osc(fields) => commanded(s, fields),
    }
}

/// What one action has sent back.
pub open spec fn reply_to(s: GridState, action: ActionState) -> Seq<u8> {
    match action {
        ActionState::Csi(params, intermediates, last) => csi_reply(
            s,
            params,
            intermediates,
            last,
        ),
        _ => Seq::empty(),
    }
}

// ---- carrying them out --------------------------------------------------

/// A [`Grid`] and the replies the byte stream asked for.
pub struct Performer<'a> {
    pub grid: &'a mut Grid,
    /// Bytes the remote side asked to have sent back (device status reports).
    pub replies: Vec<u8>,
}

/// First parameter, defaulting when absent or zero: the near-universal
/// convention for movement and count parameters.
fn param(params: &Vec<Vec<u16>>, index: usize, default: u16) -> (value: u16)
    ensures
        value == count_at(lists(params@), index as int, default),
{
    if index < params.len() && params[index].len() > 0 && params[index][0] != 0 {
        params[index][0]
    } else {
        default
    }
}

/// Like [`param`] but treats an explicit 0 as meaningful (ED/EL modes).
fn param_raw(params: &Vec<Vec<u16>>, index: usize, default: u16) -> (value: u16)
    ensures
        value == mode_at(lists(params@), index as int, default),
{
    if index < params.len() && params[index].len() > 0 {
        params[index][0]
    } else {
        default
    }
}

/// The parameters and their sub-parameters as one list.
fn flatten(params: &Vec<Vec<u16>>) -> (all: Vec<u16>)
    ensures
        all@ == flat(lists(params@)),
{
    let mut all: Vec<u16> = Vec::new();
    let mut i: usize = 0;
    let ghost want = lists(params@);
    assert(want.take(0) =~= Seq::empty());
    while i < params.len()
        invariant
            i <= params@.len(),
            want == lists(params@),
            all@ == flat(want.take(i as int)),
        decreases params.len() - i,
    {
        let mut k: usize = 0;
        let ghost before = all@;
        while k < params[i].len()
            invariant
                i < params@.len(),
                k <= params@[i as int]@.len(),
                all@ =~= before + params@[i as int]@.take(k as int),
            decreases params[i as int].len() - k,
        {
            all.push(params[i][k]);
            k += 1;
        }
        proof {
            assert(params@[i as int]@.take(k as int) =~= want[i as int]);
            assert(want.take(i + 1).drop_last() =~= want.take(i as int));
        }
        i += 1;
    }
    assert(want.take(i as int) =~= want);
    all
}

/// Parses `38;5;N` (256-colour) or `38;2;R;G;B` (truecolour) starting at the
/// 38/48 selector at `at`. Returns the colour and how many parameters it
/// consumed.
fn parse_extended_color(codes: &Vec<u16>, at: usize) -> (found: Option<(Color, usize)>)
    requires
        at < codes@.len(),
    ensures
        match found {
            Some((color, taken)) => extended_color(codes@.skip(at as int)) == Some(
                (color, taken as int),
            ),
            None => extended_color(codes@.skip(at as int)) is None,
        },
        found matches Some((_, taken)) ==> 0 < taken && at + taken <= codes@.len(),
{
    let left = codes.len() - at;
    if left > 2 && codes[at + 1] == 5 {
        Some((Color::Indexed((codes[at + 2] % 256) as u8), 3))
    } else if left > 4 && codes[at + 1] == 2 {
        Some(
            (
                Color::Rgb(
                    (codes[at + 2] % 256) as u8,
                    (codes[at + 3] % 256) as u8,
                    (codes[at + 4] % 256) as u8,
                ),
                5,
            ),
        )
    } else {
        None
    }
}

/// Applies one SGR parameter that stands on its own.
fn render(pen: &mut Pen, code: u16)
    ensures
        *final(pen) == rendered(*old(pen), code),
{
    match code {
        0 => pen.reset(),
        1 => pen.attrs.insert(Attrs::BOLD),
        2 => pen.attrs.insert(Attrs::DIM),
        3 => pen.attrs.insert(Attrs::ITALIC),
        4 => pen.attrs.insert(Attrs::UNDERLINE),
        5 | 6 => pen.attrs.insert(Attrs::BLINK),
        7 => pen.attrs.insert(Attrs::REVERSE),
        8 => pen.attrs.insert(Attrs::HIDDEN),
        9 => pen.attrs.insert(Attrs::STRIKE),
        21 | 22 => {
            pen.attrs.remove(Attrs::BOLD);
            pen.attrs.remove(Attrs::DIM);
        },
        23 => pen.attrs.remove(Attrs::ITALIC),
        24 => pen.attrs.remove(Attrs::UNDERLINE),
        25 => pen.attrs.remove(Attrs::BLINK),
        27 => pen.attrs.remove(Attrs::REVERSE),
        28 => pen.attrs.remove(Attrs::HIDDEN),
        29 => pen.attrs.remove(Attrs::STRIKE),
        30..=37 => pen.fg = Color::Indexed((code - 30) as u8),
        39 => pen.fg = Color::Default,
        40..=47 => pen.bg = Color::Indexed((code - 40) as u8),
        49 => pen.bg = Color::Default,
        // Bright variants, as emitted by 16-colour terminfo.
        90..=97 => pen.fg = Color::Indexed((code - 82) as u8),
        100..=107 => pen.bg = Color::Indexed((code - 92) as u8),
        _ => {},
    }
}

impl<'a> Performer<'a> {
    pub fn new(grid: &'a mut Grid) -> (performer: Performer<'a>)
        ensures
            *performer.grid == *old(grid),
            *final(performer.grid) == *final(grid),
            performer.replies@.len() == 0,
    {
        Performer { grid, replies: Vec::new() }
    }

    fn execute(&mut self, byte: u8)
        requires
            old(self).grid@.wf(),
        ensures
            *final(final(self).grid) == *final(old(self).grid),
            final(self).grid@.wf(),
            final(self).grid@ == executed(old(self).grid@, byte),
            final(self).replies@ == old(self).replies@,
    {
        match byte {
            // BEL is deliberately silent; IRIS rings it often.
            0x07 => {},
            0x08 => self.grid.backspace(),
            0x09 => self.grid.tab(),
            0x0a..=0x0c => self.grid.line_feed(),
            0x0d => self.grid.carriage_return(),
            _ => {},
        }
    }

    /// SGR: select graphic rendition. Walks the parameter list because 38/48
    /// consume following parameters for extended colour.
    fn sgr(&mut self, params: &Vec<Vec<u16>>)
        requires
            old(self).grid@.wf(),
        ensures
            *final(final(self).grid) == *final(old(self).grid),
            final(self).grid@.wf(),
            final(self).grid@ == csi(old(self).grid@, lists(params@), Seq::empty(), 'm', false),
            final(self).replies@ == old(self).replies@,
    {
        let codes = flatten(params);
        if codes.len() == 0 {
            self.grid.pen.reset();
            self.grid.touch();
            return;
        }
        let mut pen = self.grid.pen;
        let mut i: usize = 0;
        assert(codes@.skip(0) =~= codes@);
        while i < codes.len()
            invariant
                i <= codes@.len(),
                rendition(pen, codes@.skip(i as int)) == rendition(
                    old(self).grid@.pen,
                    codes@,
                ),
            decreases codes.len() - i,
        {
            let code = codes[i];
            let ghost rest = codes@.skip(i as int);
            if code == 38 || code == 48 {
                if let Some((color, taken)) = parse_extended_color(&codes, i) {
                    if code == 38 {
                        pen.fg = color;
                    } else {
                        pen.bg = color;
                    }
                    assert(rest.skip(taken as int) =~= codes@.skip(i + taken));
                    i += taken;
                    continue;
                }
            }
            render(&mut pen, code);
            assert(rest.skip(1) =~= codes@.skip(i + 1));
            i += 1;
        }
        self.grid.pen = pen;
        self.grid.touch();
    }

    /// SM/RM without the `?` intermediate: the ANSI modes.
    ///
    /// Only IRM (4) is of any interest, and only as a display hint. The insert
    /// *behaviour* is deliberately not implemented: IRIS does not use IRM to
    /// edit, so shifting characters on its behalf would only ever corrupt a
    /// line.
    fn set_ansi_mode(&mut self, params: &Vec<Vec<u16>>, enable: bool)
        requires
            old(self).grid@.wf(),
        ensures
            *final(final(self).grid) == *final(old(self).grid),
            final(self).grid@.wf(),
            final(self).grid@ == ansi_modes(old(self).grid@, lists(params@), enable),
            final(self).replies@ == old(self).replies@,
    {
        let ghost want = lists(params@);
        let mut i: usize = 0;
        assert(want.take(0) =~= Seq::empty());
        while i < params.len()
            invariant
                i <= params@.len(),
                want == lists(params@),
                self.grid@ == ansi_modes(old(self).grid@, want.take(i as int), enable),
                *final(self.grid) == *final(old(self).grid),
                self.grid@.wf(),
                self.replies@ == old(self).replies@,
            decreases params.len() - i,
        {
            assert(want.take(i + 1).drop_last() =~= want.take(i as int));
            if params[i].len() > 0 && params[i][0] == 4 {
                self.grid.insert_mode = enable;
                self.grid.touch();
            }
            i += 1;
        }
        assert(want.take(i as int) =~= want);
    }

    /// DEC private modes. DECTCEM (25) changes what is drawn and DECCKM (1)
    /// what is sent; the rest (bracketed paste, mouse reporting) are accepted
    /// silently so the remote side does not keep retrying.
    fn set_dec_mode(&mut self, params: &Vec<Vec<u16>>, enable: bool)
        requires
            old(self).grid@.wf(),
        ensures
            *final(final(self).grid) == *final(old(self).grid),
            final(self).grid@.wf(),
            final(self).grid@ == dec_modes(old(self).grid@, lists(params@), enable),
            final(self).replies@ == old(self).replies@,
    {
        let ghost want = lists(params@);
        let mut i: usize = 0;
        assert(want.take(0) =~= Seq::empty());
        while i < params.len()
            invariant
                i <= params@.len(),
                want == lists(params@),
                self.grid@ == dec_modes(old(self).grid@, want.take(i as int), enable),
                *final(self.grid) == *final(old(self).grid),
                self.grid@.wf(),
                self.replies@ == old(self).replies@,
            decreases params.len() - i,
        {
            assert(want.take(i + 1).drop_last() =~= want.take(i as int));
            if params[i].len() > 0 {
                match params[i][0] {
                    25 => {
                        self.grid.cursor.visible = enable;
                        self.grid.touch();
                    },
                    1 => self.grid.app_cursor_keys = enable,
                    _ => {},
                }
            }
            i += 1;
        }
        assert(want.take(i as int) =~= want);
    }

    /// DSR and DA. 5 = "are you ok", 6 = report cursor position. IRIS uses 6 to
    /// discover where it is after an ambiguous repaint, so a missing reply
    /// leaves full-screen routines mispositioned. The identity is that of a
    /// VT102, which every IRIS terminfo handles.
    fn reply(&mut self, params: &Vec<Vec<u16>>, last: char)
        requires
            old(self).grid@.wf(),
        ensures
            *final(final(self).grid) == *final(old(self).grid),
            final(self).grid@.wf(),
            final(self).grid@ == old(self).grid@,
            final(self).replies@ == old(self).replies@ + csi_reply(
                old(self).grid@,
                lists(params@),
                Seq::empty(),
                last,
            ),
    {
        if last == 'n' {
            match param_raw(params, 0, 0) {
                5 => {
                    self.replies.push(0x1b);
                    self.replies.push(0x5b);
                    self.replies.push(0x30);
                    self.replies.push(0x6e);
                },
                6 => {
                    let row = decimal((self.grid.cursor.row + 1) as u64);
                    let col = decimal((self.grid.cursor.col + 1) as u64);
                    self.replies.push(0x1b);
                    self.replies.push(0x5b);
                    push_ascii(&mut self.replies, row.as_str());
                    self.replies.push(0x3b);
                    push_ascii(&mut self.replies, col.as_str());
                    self.replies.push(0x52);
                },
                _ => {},
            }
        } else if last == 'c' {
            self.replies.push(0x1b);
            self.replies.push(0x5b);
            self.replies.push(0x3f);
            self.replies.push(0x36);
            self.replies.push(0x63);
        }
        assert(self.replies@ =~= old(self).replies@ + csi_reply(
            old(self).grid@,
            lists(params@),
            Seq::empty(),
            last,
        ));
    }

    fn csi_dispatch(
        &mut self,
        params: &Vec<Vec<u16>>,
        intermediates: &Vec<u8>,
        last: char,
        repainting: bool,
    )
        requires
            old(self).grid@.wf(),
        ensures
            *final(final(self).grid) == *final(old(self).grid),
            final(self).grid@.wf(),
            final(self).grid@ == csi(
                old(self).grid@,
                lists(params@),
                intermediates@,
                last,
                repainting,
            ),
            final(self).replies@ == old(self).replies@ + csi_reply(
                old(self).grid@,
                lists(params@),
                intermediates@,
                last,
            ),
    {
        if intermediates.len() > 0 && 0x3c <= intermediates[0] && intermediates[0] <= 0x3e {
            assert(self.replies@ =~= old(self).replies@ + Seq::<u8>::empty());
            return;
        }
        // The `?` intermediate marks the DEC private modes (SM/RM).
        let private = intermediates.len() > 0 && intermediates[0] == 0x3f;
        let n = param(params, 0, 1) as usize;
        let first = param(params, 0, 1).saturating_sub(1) as usize;
        let second = param(params, 1, 1).saturating_sub(1) as usize;
        match last {
            'A' => self.grid.move_up(n),
            'B' | 'e' => self.grid.move_down(n),
            'C' | 'a' => self.grid.move_right(n),
            'D' => self.grid.move_left(n),
            'E' => {
                self.grid.move_down(n);
                self.grid.carriage_return();
            },
            'F' => {
                self.grid.move_up(n);
                self.grid.carriage_return();
            },
            'G' | '`' => {
                let row = self.grid.cursor.row;
                self.grid.set_cursor_when(row, first, repainting);
            },
            'd' => {
                let col = self.grid.cursor.col;
                self.grid.set_cursor_when(first, col, repainting);
            },
            'H' | 'f' => self.grid.set_cursor_when(first, second, repainting),
            'J' => self.grid.erase_in_display(param_raw(params, 0, 0)),
            'K' => self.grid.erase_in_line(param_raw(params, 0, 0)),
            'L' => self.grid.insert_lines(n),
            'M' => self.grid.delete_lines(n),
            'P' => self.grid.delete_chars(n),
            'X' => self.grid.erase_chars(n),
            '@' => self.grid.insert_chars(n),
            'S' => self.grid.scroll_up(n),
            'T' => self.grid.scroll_down(n),
            'm' => self.sgr(params),
            'r' => {
                // DECSTBM. Omitted bottom means "to the last row".
                let rows = (self.grid.rows % 0x1_0000) as u16;
                let bottom = param(params, 1, rows).saturating_sub(1) as usize;
                self.grid.set_scroll_region_when(first, bottom, repainting);
            },
            's' => self.grid.save_cursor(),
            'u' => self.grid.bring_back(),
            'h' => {
                if private {
                    self.set_dec_mode(params, true);
                } else {
                    self.set_ansi_mode(params, true);
                }
            },
            'l' => {
                if private {
                    self.set_dec_mode(params, false);
                } else {
                    self.set_ansi_mode(params, false);
                }
            },
            _ => self.reply(params, last),
        }
        proof {
            csi_keeps_the_frame(old(self).grid@, lists(params@), intermediates@, last, repainting);
        }
        assert(self.replies@ =~= old(self).replies@ + csi_reply(
            old(self).grid@,
            lists(params@),
            intermediates@,
            last,
        ));
    }

    fn esc_dispatch(&mut self, intermediates: &Vec<u8>, byte: u8)
        requires
            old(self).grid@.wf(),
        ensures
            *final(final(self).grid) == *final(old(self).grid),
            final(self).grid@.wf(),
            final(self).grid@ == escaped(old(self).grid@, intermediates@, byte),
            final(self).replies@ == old(self).replies@,
    {
        if intermediates.len() > 0 {
            // Charset selection (ESC ( B and friends): everything is UTF-8.
            return;
        }
        match byte {
            0x37 => self.grid.save_cursor(),
            0x38 => self.grid.bring_back(),
            0x44 => self.grid.line_feed(),
            // DECKPAM / DECKPNM. terminfo's `smkx` sends this together with
            // DECCKM (`ESC [ ? 1 h ESC =`), and either half on its own is the
            // far side asking for the application spelling of the arrow keys.
            0x3d => self.grid.app_cursor_keys = true,
            0x3e => self.grid.app_cursor_keys = false,
            0x45 => {
                self.grid.line_feed();
                self.grid.carriage_return();
            },
            0x4d => self.grid.reverse_line_feed(),
            0x63 => self.grid.reset(),
            _ => {},
        }
    }

    fn osc_dispatch(&mut self, fields: &Vec<Vec<u8>>)
        requires
            old(self).grid@.wf(),
        ensures
            *final(final(self).grid) == *final(old(self).grid),
            final(self).grid@.wf(),
            final(self).grid@ == commanded(old(self).grid@, lists(fields@)),
            final(self).replies@ == old(self).replies@,
    {
        // OSC 0 (icon + title) and OSC 2 (title) both name the window.
        if fields.len() > 1 && fields[0].len() == 1 && (fields[0][0] == 0x30 || fields[0][0]
            == 0x32) {
            assert(lists(fields@)[0] =~= seq![fields@[0]@[0]]);
            self.grid.title = Some(lossy(fields[1].as_slice()));
        } else if fields.len() > 0 {
            assert(lists(fields@)[0] == fields@[0]@);
        }
    }

    /// Carries one action out. `repainting` says whether a cursor homed at this
    /// moment is a repaint after a resize.
    pub fn perform(&mut self, action: &Action, repainting: bool)
        requires
            old(self).grid@.wf(),
        ensures
            *final(final(self).grid) == *final(old(self).grid),
            final(self).grid@.wf(),
            final(self).grid@ == performed(old(self).grid@, action@, repainting),
            final(self).replies@ == old(self).replies@ + reply_to(old(self).grid@, action@),
    {
        reveal(performed);
        match action {
            Action::Print(ch) => {
                self.grid.print(*ch);
                proof {
                    printing_keeps_the_frame(old(self).grid@, *ch);
                }
            },
            Action::Execute(byte) => self.execute(*byte),
            Action::Csi(params, intermediates, last) => self.csi_dispatch(
                params,
                intermediates,
                *last,
                repainting,
            ),
            Action::Esc(intermediates, byte) => self.esc_dispatch(intermediates, *byte),
            Action::Osc(fields) => self.osc_dispatch(fields),
        }
        assert(self.replies@ =~= old(self).replies@ + reply_to(old(self).grid@, action@));
    }
}

// ---- what no action changes ---------------------------------------------

/// A change that leaves the size of the screen, the limit of the history and the
/// time of the last resize alone, and a grid in order that was in order.
pub open spec fn same_frame(s: GridState, t: GridState) -> bool {
    &&& t.rows == s.rows
    &&& t.cols == s.cols
    &&& t.limit == s.limit
    &&& t.resized_at == s.resized_at
    &&& s.wf() ==> t.wf()
}

proof fn printing_keeps_the_frame(s: GridState, ch: char)
    requires
        s.wf(),
    ensures
        same_frame(s, s.print(ch)),
{
    assert(same_frame(s, s.wrap()));
    let ready = GridState { screen_cleared: false, ..s.wrap() };
    assert(same_frame(s, ready.destroy_row(ready.cursor.row as int)));
}

proof fn erasing_keeps_the_frame(s: GridState, row: int, from: int, to: int)
    requires
        s.wf(),
        0 <= row < s.rows,
    ensures
        same_frame(s, s.erase_row_range(row, from, to)),
{
}

proof fn clearing_keeps_the_frame(s: GridState, mode: int)
    requires
        s.wf(),
    ensures
        same_frame(s, s.erase_in_display(mode)),
{
    destroying_keeps_the_frame(s, s.cursor.row as int, s.rows);
    let row = s.cursor.row as int;
    let col = s.cursor.col as int;
    let below = s.file_below();
    assert(same_frame(s, below));
    erasing_keeps_the_frame(below, row, col, s.cols);
    erasing_keeps_the_frame(
        GridState { screen: super::state::blanked(s.screen, 0, row), ..s },
        row,
        0,
        col + 1,
    );
}

proof fn csi_erasing_keeps_the_frame(
    s: GridState,
    params: Seq<Seq<u16>>,
    intermediates: Seq<u8>,
    last: char,
    repainting: bool,
)
    requires
        s.wf(),
        last == 'J' || last == 'K' || last == 'X',
    ensures
        same_frame(s, csi(s, params, intermediates, last, repainting)),
{
    let n = count_at(params, 0, 1) as int;
    let row = s.cursor.row as int;
    let col = s.cursor.col as int;
    if last == 'J' {
        clearing_keeps_the_frame(s, mode_at(params, 0, 0) as int);
    } else if last == 'K' {
        erasing_keeps_the_frame(s, row, col, s.cols);
        erasing_keeps_the_frame(s, row, 0, col + 1);
        erasing_keeps_the_frame(s, row, 0, s.cols);
    } else {
        erasing_keeps_the_frame(s, row, col, col + n);
    }
}

proof fn csi_scrolling_keeps_the_frame(
    s: GridState,
    params: Seq<Seq<u16>>,
    intermediates: Seq<u8>,
    last: char,
    repainting: bool,
)
    requires
        s.wf(),
        last == 'L' || last == 'M' || last == 'S' || last == 'T',
    ensures
        same_frame(s, csi(s, params, intermediates, last, repainting)),
{
}

proof fn csi_placing_keeps_the_frame(
    s: GridState,
    params: Seq<Seq<u16>>,
    intermediates: Seq<u8>,
    last: char,
    repainting: bool,
)
    requires
        s.wf(),
        last == 'G' || last == 'd' || last == 'H' || last == 'f' || last == 'r' || last == '`',
    ensures
        same_frame(s, csi(s, params, intermediates, last, repainting)),
{
}

proof fn csi_modes_keep_the_frame(
    s: GridState,
    params: Seq<Seq<u16>>,
    intermediates: Seq<u8>,
    last: char,
    repainting: bool,
)
    requires
        s.wf(),
        last == 'h' || last == 'l',
    ensures
        same_frame(s, csi(s, params, intermediates, last, repainting)),
{
    modes_keep_the_frame(s, params, last == 'h');
}

proof fn csi_rest_keeps_the_frame(
    s: GridState,
    params: Seq<Seq<u16>>,
    intermediates: Seq<u8>,
    last: char,
    repainting: bool,
)
    requires
        s.wf(),
        last != 'J' && last != 'K' && last != 'X' && last != 'L' && last != 'M' && last != 'S' && last != 'T' && last != 'G' && last != 'd' && last != 'H' && last != 'f' && last != 'r' && last != '`' && last != 'h' && last != 'l',
    ensures
        same_frame(s, csi(s, params, intermediates, last, repainting)),
{
}

proof fn csi_keeps_the_frame(
    s: GridState,
    params: Seq<Seq<u16>>,
    intermediates: Seq<u8>,
    last: char,
    repainting: bool,
)
    requires
        s.wf(),
    ensures
        same_frame(s, csi(s, params, intermediates, last, repainting)),
{
    if last == 'J' || last == 'K' || last == 'X' {
        csi_erasing_keeps_the_frame(s, params, intermediates, last, repainting);
    } else if last == 'L' || last == 'M' || last == 'S' || last == 'T' {
        csi_scrolling_keeps_the_frame(s, params, intermediates, last, repainting);
    } else if last == 'G' || last == 'd' || last == 'H' || last == 'f' || last == 'r' || last
        == '`' {
        csi_placing_keeps_the_frame(s, params, intermediates, last, repainting);
    } else if last == 'h' || last == 'l' {
        csi_modes_keep_the_frame(s, params, intermediates, last, repainting);
    } else {
        csi_rest_keeps_the_frame(s, params, intermediates, last, repainting);
    }
}

proof fn line_feeds_keep_the_frame(s: GridState)
    requires
        s.wf(),
    ensures
        same_frame(s, s.line_feed()),
        same_frame(s, s.reverse_line_feed()),
{
    assert(same_frame(s, s.scroll_up(1)));
    assert(same_frame(s, s.scroll_down(1)));
}

proof fn a_reset_keeps_the_frame(s: GridState)
    requires
        s.wf(),
    ensures
        same_frame(s, s.reset()),
{
    let filed = s.cancel_clear().file(s.screen);
    assert(same_frame(s, filed));
    assert(same_frame(filed, filed.blank_everything()));
}

proof fn escapes_keep_the_frame(s: GridState, intermediates: Seq<u8>, byte: u8)
    requires
        s.wf(),
    ensures
        same_frame(s, escaped(s, intermediates, byte)),
{
    if byte == 0x63 {
        a_reset_keeps_the_frame(s);
    } else if byte == 0x44 || byte == 0x45 || byte == 0x4d {
        line_feeds_keep_the_frame(s);
        let down = s.line_feed();
        assert(same_frame(down, down.cursor_to(down.cursor.row as int, 0)));
    } else if byte == 0x38 {
        assert(same_frame(s, s.bring_back()));
    }
}

proof fn modes_keep_the_frame(s: GridState, params: Seq<Seq<u16>>, enable: bool)
    ensures
        ansi_modes(s, params, enable) == (GridState {
            insert_mode: ansi_modes(s, params, enable).insert_mode,
            revision: ansi_modes(s, params, enable).revision,
            ..s
        }),
        dec_modes(s, params, enable) == (GridState {
            cursor: Cursor { visible: dec_modes(s, params, enable).cursor.visible, ..s.cursor },
            app_cursor_keys: dec_modes(s, params, enable).app_cursor_keys,
            revision: dec_modes(s, params, enable).revision,
            ..s
        }),
    decreases params.len(),
{
    if params.len() > 0 {
        modes_keep_the_frame(s, params.drop_last(), enable);
    }
}

proof fn destroying_keeps_the_frame(s: GridState, from: int, to: int)
    requires
        s.laid_out(),
        0 <= from,
        to <= s.rows,
    ensures
        ({
            let t = s.destroy_rows(from, to);
            &&& t == (GridState {
                clear: t.clear,
                scrollback: t.scrollback,
                purge_on_clear: t.purge_on_clear,
                screen_cleared: t.screen_cleared,
                ..s
            })
        }),
    decreases to - from,
{
    if from < to {
        destroying_keeps_the_frame(s, from, to - 1);
    }
}

/// Every action leaves a grid in order that was in order, and no action changes
/// the size of the screen or when it was resized.
pub proof fn actions_keep_the_grid_in_order(s: GridState, action: ActionState, repainting: bool)
    requires
        s.wf(),
    ensures
        same_frame(s, performed(s, action, repainting)),
{
    reveal(performed);
    match action {
        ActionState::Print(ch) => printing_keeps_the_frame(s, ch),
        ActionState::Csi(params, intermediates, last) => csi_keeps_the_frame(
            s,
            params,
            intermediates,
            last,
            repainting,
        ),
        ActionState::Esc(intermediates, byte) => escapes_keep_the_frame(s, intermediates, byte),
        ActionState::Execute(byte) => line_feeds_keep_the_frame(s),
        ActionState::Osc(fields) => {},
    }
}

// ---- whole runs ---------------------------------------------------------

/// A grid and the bytes to be sent back.
pub struct Outcome {
    pub grid: GridState,
    pub replies: Seq<u8>,
}

/// A run of actions carried out, with the clock's answer for each.
pub open spec fn run(s: GridState, actions: Seq<ActionState>, repainting: Seq<bool>) -> Outcome
    decreases actions.len(),
{
    if actions.len() == 0 {
        Outcome { grid: s, replies: Seq::empty() }
    } else {
        let before = run(s, actions.drop_last(), repainting.take(actions.len() - 1));
        Outcome {
            grid: performed(before.grid, actions.last(), repainting[actions.len() - 1]),
            replies: before.replies + reply_to(before.grid, actions.last()),
        }
    }
}

/// What the readings of the clock, one for each action, say of a repaint. No
/// action changes when the grid was last resized.
pub open spec fn answers(s: GridState, readings: Seq<Instant>) -> Seq<bool> {
    Seq::new(readings.len(), |i: int| s.repainting_at(readings[i]))
}

/// Whether carrying out the actions can have this outcome, at some readings of
/// the clock. It is the one and only outcome on a grid that was not resized; on
/// one that was, the time since then decides what becomes of each cursor that is
/// homed.
pub open spec fn comes_of(s: GridState, actions: Seq<ActionState>, outcome: Outcome) -> bool {
    exists|readings: Seq<Instant>|
        readings.len() == actions.len() && outcome == run(
            s,
            actions,
            #[trigger] answers(s, readings),
        )
}

/// The actions that bytes bring about, given those taken before.
pub open spec fn actions_of(taken: Seq<u8>, bytes: Seq<u8>) -> Seq<ActionState> {
    vte_actions(taken + bytes).skip(vte_actions(taken).len() as int)
}

impl<'a> Performer<'a> {
    /// Feeds bytes through the parser and carries out what they ask for.
    pub fn feed(&mut self, parser: &mut ByteParser, bytes: &[u8])
        requires
            old(self).grid@.wf(),
            old(self).replies@.len() == 0,
        ensures
            *final(final(self).grid) == *final(old(self).grid),
            final(self).grid@.wf(),
            final(parser).taken() == old(parser).taken() + bytes@,
            comes_of(
                old(self).grid@,
                actions_of(old(parser).taken(), bytes@),
                Outcome { grid: final(self).grid@, replies: final(self).replies@ },
            ),
            all_plain(old(parser).taken() + bytes@) ==> actions_of(old(parser).taken(), bytes@)
                == plain_actions(bytes@),
    {
        let ghost start = self.grid@;
        let ghost taken = parser.taken();
        let mut i: usize = 0;
        let ghost mut done: Seq<ActionState> = Seq::empty();
        let ghost mut readings: Seq<Instant> = Seq::empty();
        assert(taken + bytes@.take(0) =~= taken);
        assert(self.replies@ =~= Seq::empty());
        while i < bytes.len()
            invariant
                i <= bytes@.len(),
                parser.taken() == taken + bytes@.take(i as int),
                vte_actions(parser.taken()) =~= vte_actions(taken) + done,
                all_plain(parser.taken()) ==> done =~= plain_actions(bytes@.take(i as int)),
                readings.len() == done.len(),
                self.grid@ == run(start, done, answers(start, readings)).grid,
                self.replies@ == run(start, done, answers(start, readings)).replies,
                self.grid@.wf(),
                self.grid@.resized_at == start.resized_at,
                *final(self.grid) == *final(old(self).grid),
            decreases bytes.len() - i,
        {
            let ghost so_far = parser.taken();
            let actions = parser.take(bytes[i]);
            proof {
                if all_plain(parser.taken()) {
                    assert forall|n: int| 0 <= n < so_far.len() implies is_plain(
                        #[trigger] so_far[n],
                    ) by {
                        assert(is_plain(parser.taken()[n]));
                    }
                }
            }
            let ghost before = done;
            let mut k: usize = 0;
            while k < actions.len()
                invariant
                    k <= actions@.len(),
                    done =~= before + action_states(actions@).take(k as int),
                    readings.len() == done.len(),
                    self.grid@ == run(start, done, answers(start, readings)).grid,
                    self.replies@ == run(start, done, answers(start, readings)).replies,
                    self.grid@.wf(),
                    self.grid@.resized_at == start.resized_at,
                    *final(self.grid) == *final(old(self).grid),
                decreases actions.len() - k,
            {
                let repainting = self.grid.repainting();
                let ghost now = choose|now: Instant|
                    repainting == #[trigger] self.grid@.repainting_at(now);
                proof {
                    actions_keep_the_grid_in_order(self.grid@, actions@[k as int]@, repainting);
                }
                self.perform(&actions[k], repainting);
                proof {
                    let next = done.push(actions@[k as int]@);
                    let more = readings.push(now);
                    assert(next.drop_last() =~= done);
                    assert(answers(start, more).take(next.len() - 1) =~= answers(start, readings));
                    done = next;
                    readings = more;
                }
                k += 1;
            }
            assert(action_states(actions@).take(k as int) =~= action_states(actions@));
            assert((taken + bytes@.take(i as int)).push(bytes@[i as int]) =~= taken + bytes@.take(
                i + 1,
            ));
            assert(plain_actions(bytes@.take(i + 1)) =~= plain_actions(bytes@.take(i as int)).push(
                plain_action(bytes@[i as int]),
            ));
            i += 1;
        }
        assert(bytes@.take(i as int) =~= bytes@);
        assert(done =~= actions_of(taken, bytes@));
        assert(run(start, done, answers(start, readings)) == Outcome { grid: self.grid@, replies: self.replies@ });
    }
}

/// Feeds bytes through the parser into the grid, returning any bytes that must
/// be written back (cursor-position and device-attribute replies).
pub fn advance(parser: &mut ByteParser, grid: &mut Grid, bytes: &[u8]) -> (replies: Vec<u8>)
    requires
        old(grid)@.wf(),
    ensures
        final(parser).taken() == old(parser).taken() + bytes@,
        final(grid)@.wf(),
        comes_of(
            old(grid)@,
            actions_of(old(parser).taken(), bytes@),
            Outcome { grid: final(grid)@, replies: replies@ },
        ),
        all_plain(old(parser).taken() + bytes@) ==> actions_of(old(parser).taken(), bytes@)
            == plain_actions(bytes@),
{
    let mut performer = Performer::new(grid);
    performer.feed(parser, bytes);
    performer.replies
}

// ---- laws ---------------------------------------------------------------

/// Carrying out actions in two batches is carrying them out in one.
pub proof fn batches_make_no_difference(
    s: GridState,
    first: Seq<ActionState>,
    then: Seq<ActionState>,
    early: Seq<bool>,
    late: Seq<bool>,
)
    requires
        early.len() == first.len(),
        late.len() == then.len(),
    ensures
        run(s, first + then, early + late) == (Outcome {
            grid: run(run(s, first, early).grid, then, late).grid,
            replies: run(s, first, early).replies + run(
                run(s, first, early).grid,
                then,
                late,
            ).replies,
        }),
    decreases then.len(),
{
    if then.len() == 0 {
        assert(first + then =~= first);
        assert(early + late =~= early);
        assert(run(s, first, early).replies + Seq::<u8>::empty() =~= run(s, first, early).replies);
    } else {
        let n = (first.len() + then.len() - 1) as int;
        batches_make_no_difference(s, first, then.drop_last(), early, late.drop_last());
        assert((first + then).drop_last() =~= first + then.drop_last());
        assert((early + late).take(n) =~= early + late.drop_last());
        assert(late.take(then.len() - 1) =~= late.drop_last());
        let mid = run(s, first, early);
        let before = run(mid.grid, then.drop_last(), late.drop_last());
        assert(run(s, first + then, early + late).replies =~= mid.replies + run(
            mid.grid,
            then,
            late,
        ).replies);
    }
}

/// Whatever is carried out, and whatever the clock says meanwhile, a grid in
/// order stays in order.
pub proof fn no_run_puts_the_grid_out_of_order(
    s: GridState,
    actions: Seq<ActionState>,
    repainting: Seq<bool>,
)
    requires
        s.wf(),
    ensures
        same_frame(s, run(s, actions, repainting).grid),
    decreases actions.len(),
{
    if actions.len() > 0 {
        let n = actions.len() - 1;
        no_run_puts_the_grid_out_of_order(s, actions.drop_last(), repainting.take(n));
        let before = run(s, actions.drop_last(), repainting.take(n));
        actions_keep_the_grid_in_order(before.grid, actions.last(), repainting[n]);
    }
}

/// A grid with characters printed on it, one after the other.
pub open spec fn printed(s: GridState, text: Seq<u8>) -> GridState
    decreases text.len(),
{
    if text.len() == 0 {
        s
    } else {
        printed(s, text.drop_last()).print(text.last() as char)
    }
}

/// Plain text is printed, a character after the other, whatever the clock says,
/// and nothing is sent back for it.
pub proof fn plain_text_is_printed(s: GridState, text: Seq<u8>, outcome: Outcome)
    requires
        forall|i: int| 0 <= i < text.len() ==> 0x20 <= #[trigger] text[i] < 0x80,
        comes_of(s, plain_actions(text), outcome),
    ensures
        outcome.grid == printed(s, text),
        outcome.replies == Seq::<u8>::empty(),
{
    let actions = plain_actions(text);
    let readings = choose|readings: Seq<Instant>|
        readings.len() == actions.len() && outcome == run(
            s,
            actions,
            #[trigger] answers(s, readings),
        );
    printing_in_turn(s, text, answers(s, readings));
}

proof fn printing_in_turn(s: GridState, text: Seq<u8>, repainting: Seq<bool>)
    requires
        repainting.len() == text.len(),
        forall|i: int| 0 <= i < text.len() ==> 0x20 <= #[trigger] text[i] < 0x80,
    ensures
        run(s, plain_actions(text), repainting).grid == printed(s, text),
        run(s, plain_actions(text), repainting).replies == Seq::<u8>::empty(),
    decreases text.len(),
{
    reveal(performed);
    if text.len() > 0 {
        let n = text.len() - 1;
        assert forall|i: int| 0 <= i < text.drop_last().len() implies 0x20
            <= #[trigger] text.drop_last()[i] < 0x80 by {
            assert(0x20 <= text[i] < 0x80);
        }
        printing_in_turn(s, text.drop_last(), repainting.take(n));
        assert(plain_actions(text).drop_last() =~= plain_actions(text.drop_last()));
        assert(0x20 <= text[n] < 0x80);
        assert(plain_actions(text).last() == ActionState::Print(text[n] as char));
        assert(Seq::<u8>::empty() + Seq::<u8>::empty() =~= Seq::<u8>::empty());
    }
}

/// On a grid that was never resized the clock has no say: the same actions
/// always come out the same.
pub proof fn without_a_resize_the_outcome_is_fixed(
    s: GridState,
    actions: Seq<ActionState>,
    one: Outcome,
    other: Outcome,
)
    requires
        s.resized_at is None,
        comes_of(s, actions, one),
        comes_of(s, actions, other),
    ensures
        one == other,
        one == run(s, actions, Seq::new(actions.len(), |i: int| false)),
{
    let no = Seq::new(actions.len(), |i: int| false);
    assert forall|readings: Seq<Instant>| readings.len() == actions.len() implies #[trigger] answers(
        s,
        readings,
    ) == no by {
        assert(answers(s, readings) =~= no);
    }
}

/// Once the time for a repaint is over a resize makes no difference: what comes
/// in is carried out as on a grid that was never resized, and a clear-screen
/// files its screen again.
pub proof fn past_the_window_nothing_is_a_repaint(
    s: GridState,
    actions: Seq<ActionState>,
    readings: Seq<Instant>,
)
    requires
        readings.len() == actions.len(),
        s.resized_at matches Some(then) ==> forall|i: int|
            0 <= i < readings.len() ==> nanos_apart(#[trigger] readings[i], then) >= REPAINT_WINDOW,
    ensures
        run(s, actions, answers(s, readings)) == run(
            s,
            actions,
            Seq::new(actions.len(), |i: int| false),
        ),
{
    assert(answers(s, readings) =~= Seq::new(actions.len(), |i: int| false));
}

/// The private form of a mode is another mode: it never sets insert mode.
pub proof fn private_modes_leave_insert_mode_alone(
    s: GridState,
    params: Seq<Seq<u16>>,
    enable: bool,
)
    ensures
        dec_modes(s, params, enable).insert_mode == s.insert_mode,
{
    modes_keep_the_frame(s, params, enable);
}

/// A sequence with a private mark that nothing here knows changes nothing and
/// gets no reply, whatever its final character means without the mark.
pub proof fn a_marked_sequence_is_accepted_silently(
    s: GridState,
    params: Seq<Seq<u16>>,
    intermediates: Seq<u8>,
    last: char,
    repainting: bool,
)
    requires
        marked(intermediates),
    ensures
        performed(s, ActionState::Csi(params, intermediates, last), repainting) == s,
        reply_to(s, ActionState::Csi(params, intermediates, last)) == Seq::<u8>::empty(),
{
    reveal(performed);
}

/// The colour parameters of a truecolour selection are not read as anything
/// else: what follows them is read as if it stood alone.
pub proof fn truecolour_takes_its_parameters_along(pen: Pen, r: u8, g: u8, b: u8, rest: Seq<u16>)
    ensures
        rendition(pen, seq![38u16, 2u16, r as u16, g as u16, b as u16] + rest) == rendition(
            Pen { fg: Color::Rgb(r, g, b), ..pen },
            rest,
        ),
{
    let codes = seq![38u16, 2u16, r as u16, g as u16, b as u16] + rest;
    assert(codes.skip(5) =~= rest);
}

} // verus!
