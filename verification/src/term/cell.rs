//! A single character cell in the terminal grid.

use vstd::prelude::*;

verus! {

/// Colour as expressed by the remote side. A theme's palette turns it into a
/// concrete value, so a theme switch recolours what is already on screen.
#[derive(Clone, Copy, Debug, PartialEq, Eq, Structural)]
pub enum Color {
    /// Whatever the theme calls foreground/background.
    Default,
    /// One of the 256 indexed colours; 0..16 are the ANSI set.
    Indexed(u8),
    /// 24-bit colour.
    Rgb(u8, u8, u8),
}

impl Default for Color {
    fn default() -> (color: Self)
        ensures
            color == Color::Default,
    {
        Color::Default
    }
}

/// Rendition attributes carried by a cell, as a small bitset. The constants are
/// the masks of the single attributes.
#[derive(Clone, Copy, Debug, PartialEq, Eq, Structural)]
pub struct Attrs(pub u8);

impl Attrs {
    pub const EMPTY: u8 = 0;

    pub const BOLD: u8 = 1;

    pub const DIM: u8 = 2;

    pub const ITALIC: u8 = 4;

    pub const UNDERLINE: u8 = 8;

    pub const BLINK: u8 = 16;

    pub const REVERSE: u8 = 32;

    pub const HIDDEN: u8 = 64;

    pub const STRIKE: u8 = 128;

    /// Whether every bit of `other` is set in `self`.
    #[inline]
    pub fn contains(self, other: u8) -> (yes: bool)
        ensures
            yes == (self.0 & other == other),
    {
        self.0 & other == other
    }

    #[inline]
    pub fn insert(&mut self, other: u8)
        ensures
            *final(self) == Attrs(old(self).0 | other),
    {
        self.0 = self.0 | other;
    }

    #[inline]
    pub fn remove(&mut self, other: u8)
        ensures
            *final(self) == Attrs(old(self).0 & !other),
    {
        self.0 = self.0 & !other;
    }

    #[inline]
    pub fn is_empty(self) -> (yes: bool)
        ensures
            yes == (self == Attrs(0)),
    {
        self.0 == 0
    }
}

impl Default for Attrs {
    fn default() -> (attrs: Self)
        ensures
            attrs == Attrs(0),
    {
        Attrs(Attrs::EMPTY)
    }
}

/// The rendition state the parser applies to every printed character. Kept
/// separate from [`Cell`] so that selecting a rendition changes one small value.
#[derive(Clone, Copy, Debug, PartialEq, Eq, Structural)]
pub struct Pen {
    pub fg: Color,
    pub bg: Color,
    pub attrs: Attrs,
}

/// The theme's own colours and no attributes.
pub open spec fn default_pen() -> Pen {
    Pen { fg: Color::Default, bg: Color::Default, attrs: Attrs(0) }
}

impl Default for Pen {
    fn default() -> (pen: Self)
        ensures
            pen == default_pen(),
    {
        Pen { fg: Color::Default, bg: Color::Default, attrs: Attrs(0) }
    }
}

impl Pen {
    /// SGR 0: back to the theme defaults with no attributes.
    pub fn reset(&mut self)
        ensures
            *final(self) == default_pen(),
    {
        *self = Pen::default();
    }
}

#[derive(Clone, Copy, Debug, PartialEq, Eq, Structural)]
pub struct Cell {
    pub ch: char,
    pub fg: Color,
    pub bg: Color,
    pub attrs: Attrs,
}

/// A space in the theme's own colours.
pub open spec fn default_cell() -> Cell {
    Cell { ch: ' ', fg: Color::Default, bg: Color::Default, attrs: Attrs(0) }
}

impl Default for Cell {
    fn default() -> (cell: Self)
        ensures
            cell == default_cell(),
    {
        Cell { ch: ' ', fg: Color::Default, bg: Color::Default, attrs: Attrs(0) }
    }
}

impl Cell {
    /// What an erase leaves behind: a space in the pen's colours that keeps
    /// none of its attributes.
    pub open spec fn erased(pen: Pen) -> Cell {
        Cell { ch: ' ', fg: pen.fg, bg: pen.bg, attrs: Attrs(0) }
    }

    /// What printing leaves behind: the character in the pen's rendition.
    pub open spec fn drawn(ch: char, pen: Pen) -> Cell {
        Cell { ch, fg: pen.fg, bg: pen.bg, attrs: pen.attrs }
    }

    /// Whether the cell shows nothing.
    pub open spec fn shows_nothing(self) -> bool {
        self.ch == ' ' || self.ch == '\0'
    }

    /// A blank cell that still carries the current background, which is what
    /// erase operations (ED/EL) are expected to leave behind.
    pub fn blank(pen: &Pen) -> (cell: Self)
        ensures
            cell == Cell::erased(*pen),
    {
        Cell { ch: ' ', fg: pen.fg, bg: pen.bg, attrs: Attrs(0) }
    }

    pub fn with_pen(ch: char, pen: &Pen) -> (cell: Self)
        ensures
            cell == Cell::drawn(ch, *pen),
    {
        Cell { ch, fg: pen.fg, bg: pen.bg, attrs: pen.attrs }
    }

    pub fn is_blank(&self) -> (yes: bool)
        ensures
            yes == self.shows_nothing(),
    {
        self.ch == ' ' || self.ch == '\0'
    }
}

/// Bits that were put in are found again, those taken out are gone, and no
/// other bit changes either way.
pub proof fn attrs_are_a_set_of_bits(attrs: Attrs, put: u8, asked: u8)
    ensures
        (attrs.0 | put) & put == put,
        (attrs.0 & !put) & put == 0,
        asked & put == 0 ==> (attrs.0 | put) & asked == attrs.0 & asked,
        asked & put == 0 ==> (attrs.0 & !put) & asked == attrs.0 & asked,
{
    let a = attrs.0;
    assert((a | put) & put == put) by (bit_vector);
    assert((a & !put) & put == 0) by (bit_vector);
    assert(asked & put == 0 ==> (a | put) & asked == a & asked) by (bit_vector);
    assert(asked & put == 0 ==> (a & !put) & asked == a & asked) by (bit_vector);
}

} // verus!
