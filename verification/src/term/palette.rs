//! Resolves the parser's abstract [`Color`] into concrete RGB for painting.
//!
//! Indexed colours 0..16 come from the active theme so a theme switch recolours
//! existing scrollback; 16..256 use the standard xterm cube, which no theme
//! overrides.

use vstd::prelude::*;

use super::cell::{Attrs, Cell, Color};

verus! {

/// A concrete colour.
#[derive(Clone, Copy, Debug, PartialEq, Eq, Structural)]
pub struct Rgb {
    pub r: u8,
    pub g: u8,
    pub b: u8,
}

/// What a theme says about the terminal's own colours.
#[derive(Clone, Copy, Debug)]
pub struct Theme {
    pub foreground: Rgb,
    pub background: Rgb,
    pub cursor: Rgb,
    /// The sixteen ANSI colours.
    pub ansi: [Rgb; 16],
}

/// The six brightness levels of the colour cube.
pub const LEVELS: [u8; 6] = [0, 95, 135, 175, 215, 255];

/// The xterm 256-colour map: 0..16 themed, 16..232 a 6x6x6 cube, 232..256 grey.
pub open spec fn indexed_color(index: u8, theme: &Theme) -> Rgb {
    if index < 16 {
        theme.ansi@[index as int]
    } else if index < 232 {
        let i = index - 16;
        Rgb { r: LEVELS@[i / 36], g: LEVELS@[(i % 36) / 6], b: LEVELS@[i % 6] }
    } else {
        let v = (8 + (index - 232) * 10) as u8;
        Rgb { r: v, g: v, b: v }
    }
}

/// A cell's colour in concrete terms.
pub open spec fn concrete(color: Color, theme: &Theme, default: Rgb) -> Rgb {
    match color {
        Color::Default => default,
        Color::Rgb(r, g, b) => Rgb { r, g, b },
        Color::Indexed(i) => indexed_color(i, theme),
    }
}

/// Halfway between two colours.
pub open spec fn halfway(a: Rgb, b: Rgb) -> Rgb {
    Rgb { r: ((a.r + b.r) / 2) as u8, g: ((a.g + b.g) / 2) as u8, b: ((a.b + b.b) / 2) as u8 }
}

pub open spec fn has_attr(cell: Cell, mask: u8) -> bool {
    cell.attrs.0 & mask == mask
}

/// The colours of a cell before they are reversed or hidden. Bold brightens the
/// low eight ANSI colours; dim takes the text halfway to its background.
pub open spec fn painted(cell: Cell, theme: &Theme) -> (Rgb, Rgb) {
    let bg = concrete(cell.bg, theme, theme.background);
    let plain = match cell.fg {
        Color::Indexed(i) => if i < 8 && has_attr(cell, Attrs::BOLD) {
            theme.ansi@[i + 8]
        } else {
            concrete(cell.fg, theme, theme.foreground)
        },
        _ => concrete(cell.fg, theme, theme.foreground),
    };
    let fg = if has_attr(cell, Attrs::DIM) {
        halfway(plain, bg)
    } else {
        plain
    };
    (fg, bg)
}

/// The foreground and background a cell is drawn in.
pub open spec fn resolved(cell: Cell, theme: &Theme) -> (Rgb, Rgb) {
    let (fg, bg) = painted(cell, theme);
    let (front, back) = if has_attr(cell, Attrs::REVERSE) {
        (bg, fg)
    } else {
        (fg, bg)
    };
    if has_attr(cell, Attrs::HIDDEN) {
        (back, back)
    } else {
        (front, back)
    }
}

/// The xterm 256-colour map: 0..16 themed, 16..232 a 6x6x6 cube, 232..256 grey.
pub fn indexed(index: u8, theme: &Theme) -> (color: Rgb)
    ensures
        color == indexed_color(index, theme),
{
    if index < 16 {
        theme.ansi[index as usize]
    } else if index < 232 {
        let i = index - 16;
        let r = LEVELS[(i / 36) as usize];
        let g = LEVELS[((i % 36) / 6) as usize];
        let b = LEVELS[(i % 6) as usize];
        Rgb { r, g, b }
    } else {
        let v = 8 + (index - 232) * 10;
        Rgb { r: v, g: v, b: v }
    }
}

fn resolve_one(color: Color, theme: &Theme, default: Rgb) -> (rgb: Rgb)
    ensures
        rgb == concrete(color, theme, default),
{
    match color {
        Color::Default => default,
        Color::Rgb(r, g, b) => Rgb { r, g, b },
        Color::Indexed(i) => indexed(i, theme),
    }
}

fn half(a: u8, b: u8) -> (mid: u8)
    ensures
        mid == (a + b) / 2,
{
    ((a as u16 + b as u16) / 2) as u8
}

/// Foreground and background for a cell, with REVERSE and HIDDEN already
/// applied so that whatever draws it never has to think about them.
pub fn resolve(cell: &Cell, theme: &Theme) -> (colors: (Rgb, Rgb))
    ensures
        colors == resolved(*cell, theme),
{
    let mut fg = resolve_one(cell.fg, theme, theme.foreground);
    let bg = resolve_one(cell.bg, theme, theme.background);
    // Bold traditionally brightens the low 8 ANSI colours, which is what makes
    // IRIS error text legible against a dark background.
    if cell.attrs.contains(Attrs::BOLD) {
        if let Color::Indexed(i) = cell.fg {
            if i < 8 {
                fg = theme.ansi[(i + 8) as usize];
            }
        }
    }
    if cell.attrs.contains(Attrs::DIM) {
        fg = Rgb { r: half(fg.r, bg.r), g: half(fg.g, bg.g), b: half(fg.b, bg.b) };
    }
    let (front, back) = if cell.attrs.contains(Attrs::REVERSE) {
        (bg, fg)
    } else {
        (fg, bg)
    };
    if cell.attrs.contains(Attrs::HIDDEN) {
        (back, back)
    } else {
        (front, back)
    }
}

// ---- the cursor ---------------------------------------------------------

pub open spec fn apart(x: u8, y: u8) -> int {
    (x - y) * (x - y)
}

/// The squared distance of two colours in the RGB cube.
pub open spec fn distance_squared(a: Rgb, b: Rgb) -> int {
    apart(a.r, b.r) + apart(a.g, b.g) + apart(a.b, b.b)
}

/// Whether a cursor is worth drawing on a background: at least a quarter of the
/// cube's diagonal away from it.
pub open spec fn can_be_seen(a: Rgb, b: Rgb) -> bool {
    16 * distance_squared(a, b) >= 3 * 255 * 255
}

/// Whether a colour is nearer black than white, by the usual sRGB weights.
pub open spec fn dark(c: Rgb) -> bool {
    2 * (2126 * c.r + 7152 * c.g + 722 * c.b) < 10000 * 255
}

pub open spec fn inverse(c: Rgb) -> Rgb {
    Rgb { r: (255 - c.r) as u8, g: (255 - c.g) as u8, b: (255 - c.b) as u8 }
}

/// `part` hundredths of the way from `x` to `end`.
pub open spec fn pushed(x: u8, end: int, part: int) -> u8 {
    (((100 - part) * x + part * end) / 100) as u8
}

/// The end of the scale that a background is furthest from.
pub open spec fn far_end(background: Rgb) -> int {
    if dark(background) {
        255
    } else {
        0
    }
}

/// A colour `part` hundredths of the way towards the end of the scale that a
/// background is furthest from.
pub open spec fn shaded(c: Rgb, background: Rgb, part: int) -> Rgb {
    let end = far_end(background);
    Rgb { r: pushed(c.r, end, part), g: pushed(c.g, end, part), b: pushed(c.b, end, part) }
}

/// A colour pushed away from a background: at least `part` hundredths of the
/// way, and then only as far as it takes to be seen.
pub open spec fn pushed_off(c: Rgb, background: Rgb, part: int) -> Rgb
    decreases 100 - part,
{
    if part >= 100 || can_be_seen(shaded(c, background, part), background) {
        shaded(c, background, part)
    } else {
        pushed_off(c, background, part + 1)
    }
}

/// The colour the cursor is drawn in.
pub open spec fn cursor_color(theme: &Theme, insert: bool) -> Rgb {
    let inverted = inverse(theme.cursor);
    if !insert {
        theme.cursor
    } else if can_be_seen(inverted, theme.background) {
        inverted
    } else {
        pushed_off(inverted, theme.background, 65)
    }
}

fn gap(x: u8, y: u8) -> (squared: u32)
    ensures
        squared == apart(x, y),
        squared <= 65025,
{
    let d: u32 = if x >= y {
        (x - y) as u32
    } else {
        (y - x) as u32
    };
    assert(d * d <= 65025) by (nonlinear_arith)
        requires
            0 <= d <= 255,
    ;
    assert(d * d == apart(x, y)) by (nonlinear_arith)
        requires
            d == if x >= y { x - y } else { y - x },
    ;
    d * d
}

fn seen(a: Rgb, b: Rgb) -> (yes: bool)
    ensures
        yes == can_be_seen(a, b),
{
    16 * (gap(a.r, b.r) + gap(a.g, b.g) + gap(a.b, b.b)) >= 195075
}

fn push(x: u8, end: u32, part: u32) -> (to: u8)
    requires
        end <= 255,
        part <= 100,
    ensures
        to == pushed(x, end as int, part as int),
{
    assert((100 - part) * x <= 25500 && part * end <= 25500 && (100 - part) * x + part * end
        <= 25500) by (nonlinear_arith)
        requires
            0 <= x <= 255,
            0 <= end <= 255,
            0 <= part <= 100,
    ;
    (((100 - part) * (x as u32) + part * end) / 100) as u8
}

fn shade(c: Rgb, background: Rgb, part: u32) -> (to: Rgb)
    requires
        part <= 100,
    ensures
        to == shaded(c, background, part as int),
{
    let luminance: u32 = 2126 * (background.r as u32) + 7152 * (background.g as u32) + 722 * (
    background.b as u32);
    let end: u32 = if 2 * luminance < 2550000 {
        255
    } else {
        0
    };
    Rgb { r: push(c.r, end, part), g: push(c.g, end, part), b: push(c.b, end, part) }
}

/// The colour to draw the cursor in.
///
/// Insert mode inverts the theme's cursor colour. Inverting rather than adding a
/// second colour keeps every existing theme working, and it is the change the
/// eye notices without having to look for it.
///
/// The catch is that a colour can invert onto the background. So a result too
/// close to the background is pushed towards whichever end of the scale the
/// background is furthest from, no further than it takes, which keeps the hue
/// recognisable while guaranteeing it can be seen.
pub fn cursor(theme: &Theme, insert: bool) -> (color: Rgb)
    ensures
        color == cursor_color(theme, insert),
        insert ==> can_be_seen(color, theme.background),
{
    if !insert {
        return theme.cursor;
    }
    let inverted = Rgb {
        r: 255 - theme.cursor.r,
        g: 255 - theme.cursor.g,
        b: 255 - theme.cursor.b,
    };
    proof {
        the_insert_cursor_can_be_seen(theme);
    }
    if seen(inverted, theme.background) {
        return inverted;
    }
    let mut part: u32 = 65;
    let mut color = shade(inverted, theme.background, part);
    while part < 100 && !seen(color, theme.background)
        invariant
            65 <= part <= 100,
            color == shaded(inverted, theme.background, part as int),
            pushed_off(inverted, theme.background, part as int) == pushed_off(
                inverted,
                theme.background,
                65,
            ),
        decreases 100 - part,
    {
        part += 1;
        color = shade(inverted, theme.background, part);
    }
    color
}

// ---- laws ---------------------------------------------------------------

/// A colour on one side of the middle is well away from the end of the other.
proof fn the_far_end_is_far(x: int, y: int, z: int)
    requires
        2126 * x + 7152 * y + 722 * z >= 1275000,
    ensures
        x * x + y * y + z * z >= 28929,
{
    let w = 2126 * x + 7152 * y + 722 * z;
    let n = x * x + y * y + z * z;
    let a = 2126 * y - 7152 * x;
    let b = 2126 * z - 722 * x;
    let c = 7152 * z - 722 * y;
    assert(56192264 * n == w * w + a * a + b * b + c * c) by (nonlinear_arith)
        requires
            w == 2126 * x + 7152 * y + 722 * z,
            n == x * x + y * y + z * z,
            a == 2126 * y - 7152 * x,
            b == 2126 * z - 722 * x,
            c == 7152 * z - 722 * y,
    ;
    assert(a * a >= 0 && b * b >= 0 && c * c >= 0) by (nonlinear_arith);
    assert(w * w >= 1275000 * 1275000) by (nonlinear_arith)
        requires
            w >= 1275000,
    ;
}

/// A colour pushed all the way can be seen.
proof fn the_end_can_be_seen(c: Rgb, b: Rgb)
    ensures
        can_be_seen(shaded(c, b, 100), b),
{
    let end = far_end(b);
    let p = shaded(c, b, 100);
    assert(p.r == end && p.g == end && p.b == end);
    let (x, y, z) = (end - b.r, end - b.g, end - b.b);
    if dark(b) {
        the_far_end_is_far(x, y, z);
    } else {
        the_far_end_is_far(-x, -y, -z);
        assert((-x) * (-x) == x * x && (-y) * (-y) == y * y && (-z) * (-z) == z * z)
            by (nonlinear_arith);
    }
}

proof fn what_is_pushed_off_can_be_seen(c: Rgb, b: Rgb, part: int)
    requires
        part <= 100,
    ensures
        can_be_seen(pushed_off(c, b, part), b),
    decreases 100 - part,
{
    if part == 100 {
        the_end_can_be_seen(c, b);
    } else if !can_be_seen(shaded(c, b, part), b) {
        what_is_pushed_off_can_be_seen(c, b, part + 1);
    }
}

/// The insert cursor can always be seen: it is at least a quarter of the cube's
/// diagonal away from the background it is drawn on.
pub proof fn the_insert_cursor_can_be_seen(theme: &Theme)
    ensures
        16 * distance_squared(cursor_color(theme, true), theme.background) >= 195075,
{
    what_is_pushed_off_can_be_seen(inverse(theme.cursor), theme.background, 65);
}

/// The insert cursor never has the colour of the background it is drawn on.
pub proof fn the_insert_cursor_is_never_the_background(theme: &Theme)
    ensures
        cursor_color(theme, true) != theme.background,
{
    the_insert_cursor_can_be_seen(theme);
    let b = theme.background;
    assert((b.r - b.r) * (b.r - b.r) == 0 && (b.g - b.g) * (b.g - b.g) == 0 && (b.b - b.b) * (b.b
        - b.b) == 0);
    assert(distance_squared(b, b) == 0);
}

/// A hidden cell shows nothing but its background.
pub proof fn hidden_text_is_its_background(cell: Cell, theme: &Theme)
    requires
        has_attr(cell, Attrs::HIDDEN),
    ensures
        ({
            let (front, back) = resolved(cell, theme);
            front == back
        }),
{
}

} // verus!
