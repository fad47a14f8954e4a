//! What the colours come to, in numbers.

use vstd::prelude::*;

use super::cell::{default_cell, Attrs, Cell, Color};
use super::palette::{
    can_be_seen, cursor_color, dark, has_attr, indexed_color, inverse, pushed, pushed_off,
    resolved, shaded, Rgb, Theme, LEVELS,
};

verus! {

/// The sixteen ANSI colours are the theme's; behind them comes a cube of six
/// levels of red, green and blue, blue changing fastest; and behind that greys
/// from nearly black to nearly white.
pub proof fn the_palette_in_numbers(theme: &Theme, i: u8, r: int, g: int, b: int, k: int)
    requires
        i < 16,
        0 <= r < 6,
        0 <= g < 6,
        0 <= b < 6,
        0 <= k < 24,
    ensures
        indexed_color(i, theme) == theme.ansi@[i as int],
        ({
            let c = indexed_color((16 + 36 * r + 6 * g + b) as u8, theme);
            &&& c.r == if r == 0 { 0int } else { 55 + 40 * r }
            &&& c.g == if g == 0 { 0int } else { 55 + 40 * g }
            &&& c.b == if b == 0 { 0int } else { 55 + 40 * b }
        }),
        ({
            let c = indexed_color((232 + k) as u8, theme);
            c.r == 8 + 10 * k && c.g == 8 + 10 * k && c.b == 8 + 10 * k
        }),
{
    let n = 36 * r + 6 * g + b;
    assert(n / 36 == r && (n % 36) / 6 == g && n % 6 == b);
    levels(r);
    levels(g);
    levels(b);
}

proof fn levels(n: int)
    requires
        0 <= n < 6,
    ensures
        LEVELS@[n] == if n == 0 { 0int } else { 55 + 40 * n },
{
}

/// A colour that was asked for is the colour that is drawn, and the theme's own
/// stand in where none was.
pub proof fn a_plain_cell_is_drawn_as_asked(
    theme: &Theme,
    ch: char,
    r: u8,
    g: u8,
    b: u8,
    i: u8,
)
    ensures
        resolved(Cell { ch, ..default_cell() }, theme) == (theme.foreground, theme.background),
        resolved(Cell { ch, fg: Color::Rgb(r, g, b), ..default_cell() }, theme) == (
            Rgb { r, g, b },
            theme.background,
        ),
        resolved(Cell { ch, bg: Color::Rgb(r, g, b), ..default_cell() }, theme) == (
            theme.foreground,
            Rgb { r, g, b },
        ),
        i < 16 ==> resolved(Cell { ch, fg: Color::Indexed(i), ..default_cell() }, theme) == (
            theme.ansi@[i as int],
            theme.background,
        ),
        i < 16 ==> resolved(Cell { ch, bg: Color::Indexed(i), ..default_cell() }, theme) == (
            theme.foreground,
            theme.ansi@[i as int],
        ),
{
    assert(0u8 & 1 == 0 && 0u8 & 2 == 0 && 0u8 & 32 == 0 && 0u8 & 64 == 0) by (bit_vector);
}

/// Bold brightens the first eight ANSI colours and no others.
pub proof fn bold_brightens(theme: &Theme, ch: char, i: u8)
    ensures
        ({
            let cell = Cell {
                ch,
                fg: Color::Indexed(i),
                bg: Color::Default,
                attrs: Attrs(Attrs::BOLD),
            };
            let (fg, bg) = resolved(cell, theme);
            &&& i < 8 ==> fg == theme.ansi@[i + 8]
            &&& 8 <= i < 16 ==> fg == theme.ansi@[i as int]
            &&& i >= 16 ==> fg == indexed_color(i, theme)
            &&& bg == theme.background
        }),
        resolved(
            Cell { ch, fg: Color::Default, bg: Color::Default, attrs: Attrs(Attrs::BOLD) },
            theme,
        ) == (theme.foreground, theme.background),
{
    assert(1u8 & 1 == 1 && 1u8 & 2 == 0 && 1u8 & 32 == 0 && 1u8 & 64 == 0) by (bit_vector);
}

/// Dim text is halfway to its background, in every part of the colour.
pub proof fn dim_is_halfway(theme: &Theme, ch: char, fg: Rgb, bg: Rgb)
    ensures
        ({
            let cell = Cell {
                ch,
                fg: Color::Rgb(fg.r, fg.g, fg.b),
                bg: Color::Rgb(bg.r, bg.g, bg.b),
                attrs: Attrs(Attrs::DIM),
            };
            let (dim, back) = resolved(cell, theme);
            &&& back == bg
            &&& fg.r + bg.r - 1 <= 2 * dim.r <= fg.r + bg.r
            &&& fg.g + bg.g - 1 <= 2 * dim.g <= fg.g + bg.g
            &&& fg.b + bg.b - 1 <= 2 * dim.b <= fg.b + bg.b
        }),
{
    assert(2u8 & 1 == 0 && 2u8 & 2 == 2 && 2u8 & 32 == 0 && 2u8 & 64 == 0) by (bit_vector);
}

/// Reverse exchanges the two colours, and hidden text is drawn in the one behind
/// it.
pub proof fn reverse_exchanges(theme: &Theme, cell: Cell)
    requires
        !has_attr(cell, Attrs::HIDDEN),
        !has_attr(cell, Attrs::REVERSE),
    ensures
        ({
            let reversed = Cell { attrs: Attrs(cell.attrs.0 | 32), ..cell };
            let hidden = Cell { attrs: Attrs(cell.attrs.0 | 64), ..cell };
            let (fg, bg) = resolved(cell, theme);
            &&& resolved(reversed, theme) == (bg, fg)
            &&& resolved(hidden, theme) == (bg, bg)
        }),
{
    let a = cell.attrs.0;
    assert((a | 32) & 32 == 32 && (a | 32) & 64 == a & 64 && (a | 32) & 1 == a & 1 && (a | 32) & 2
        == a & 2 && (a | 64) & 64 == 64 && (a | 64) & 32 == a & 32 && (a | 64) & 1 == a & 1 && (a
        | 64) & 2 == a & 2) by (bit_vector);
}

/// The cursor has the theme's colour, and while inserting the opposite of it
/// wherever that can be seen.
pub proof fn the_cursor_is_inverted(theme: &Theme)
    ensures
        cursor_color(theme, false) == theme.cursor,
        ({
            let (r, g, b) = (255 - theme.cursor.r, 255 - theme.cursor.g, 255 - theme.cursor.b);
            let back = theme.background;
            16 * ((r - back.r) * (r - back.r) + (g - back.g) * (g - back.g) + (b - back.b) * (b
                - back.b)) >= 195075 ==> {
                let c = cursor_color(theme, true);
                c.r == r && c.g == g && c.b == b
            }
        }),
{
}

/// A cursor whose opposite cannot be seen is pushed towards white on a dark
/// background and towards black on a light one, two thirds of the way nearly.
pub proof fn a_cursor_is_pushed_away_from_the_background(theme: &Theme)
    requires
        !can_be_seen(inverse(theme.cursor), theme.background),
    ensures
        ({
            let (r, g, b) = (255 - theme.cursor.r, 255 - theme.cursor.g, 255 - theme.cursor.b);
            let back = theme.background;
            let light = 2126 * back.r + 7152 * back.g + 722 * back.b;
            let c = cursor_color(theme, true);
            &&& light < 1275000 ==> 100 * c.r + 99 >= 35 * r + 65 * 255 && 100 * c.g + 99 >= 35 * g
                + 65 * 255 && 100 * c.b + 99 >= 35 * b + 65 * 255
            &&& light >= 1275000 ==> 100 * c.r <= 35 * r && 100 * c.g <= 35 * g && 100 * c.b <= 35
                * b
        }),
{
    pushing_goes_on(inverse(theme.cursor), theme.background, 65);
}

proof fn pushing_goes_on(c: Rgb, back: Rgb, part: int)
    requires
        65 <= part <= 100,
    ensures
        ({
            let p = pushed_off(c, back, part);
            &&& dark(back) ==> 100 * p.r + 99 >= 35 * c.r + 65 * 255 && 100 * p.g + 99 >= 35 * c.g
                + 65 * 255 && 100 * p.b + 99 >= 35 * c.b + 65 * 255
            &&& !dark(back) ==> 100 * p.r <= 35 * c.r && 100 * p.g <= 35 * c.g && 100 * p.b <= 35
                * c.b
        }),
    decreases 100 - part,
{
    a_channel_is_pushed(c.r, part);
    a_channel_is_pushed(c.g, part);
    a_channel_is_pushed(c.b, part);
    if part < 100 && !can_be_seen(shaded(c, back, part), back) {
        pushing_goes_on(c, back, part + 1);
    }
}

proof fn a_channel_is_pushed(x: u8, part: int)
    requires
        65 <= part <= 100,
    ensures
        100 * pushed(x, 255, part) + 99 >= 35 * x + 65 * 255,
        100 * pushed(x, 0, part) <= 35 * x,
{
    let up = (100 - part) * x + part * 255;
    let down = (100 - part) * x;
    assert(35 * x + 65 * 255 <= up <= 25500) by (nonlinear_arith)
        requires
            65 <= part <= 100,
            0 <= x <= 255,
            up == (100 - part) * x + part * 255,
    ;
    assert(0 <= down <= 35 * x) by (nonlinear_arith)
        requires
            65 <= part <= 100,
            0 <= x <= 255,
            down == (100 - part) * x,
    ;
    assert(part * 0 == 0);
}

} // verus!
