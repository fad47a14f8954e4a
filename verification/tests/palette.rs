use new_iris_terminal::term::cell::{Attrs, Cell};
use new_iris_terminal::term::palette::{cursor, indexed, resolve, Rgb, Theme};

const MIN_CURSOR_DISTANCE: f32 = 0.25;

fn rgb(r: u8, g: u8, b: u8) -> Rgb {
    Rgb { r, g, b }
}

fn theme_with(background: Rgb, cursor: Rgb) -> Theme {
    Theme {
        foreground: rgb(200, 200, 200),
        background,
        cursor,
        ansi: [rgb(1, 2, 3); 16],
    }
}

/// Distance between two colours: the RGB cube diagonal, normalised to 0..1.
fn distance(a: Rgb, b: Rgb) -> f32 {
    let d = |x: u8, y: u8| (x as f32 - y as f32) / 255.0;
    let (dr, dg, db) = (d(a.r, b.r), d(a.g, b.g), d(a.b, b.b));
    (dr * dr + dg * dg + db * db).sqrt() / 3.0_f32.sqrt()
}


#[test]
fn replace_mode_leaves_the_cursor_colour_alone() {
    let theme = theme_with(rgb(0x10, 0x14, 0x18), rgb(0x4e, 0xc9, 0xb0));
    assert_eq!(cursor(&theme, false), theme.cursor);
}

/// The example the behaviour was asked for with: a green cursor becomes
/// pink.
#[test]
fn insert_mode_inverts_the_cursor() {
    let theme = theme_with(rgb(0x10, 0x14, 0x18), rgb(0x00, 0xff, 0x00));
    assert_eq!(cursor(&theme, true), rgb(255, 0, 255));
}

/// The case worth thinking about: a cursor that inverts onto the
/// background. Left alone it would vanish exactly when it should stand out.
#[test]
fn an_inverse_that_lands_on_the_background_is_moved_off_it() {
    // Mid grey on mid grey: the inverse is the background.
    let theme = theme_with(rgb(0x80, 0x80, 0x80), rgb(0x7f, 0x7f, 0x7f));
    let colour = cursor(&theme, true);
    assert!(
        distance(colour, theme.background) >= MIN_CURSOR_DISTANCE,
        "cursor {colour:?} is invisible on {:?}",
        theme.background
    );
    assert_ne!(colour, theme.background);
}

/// The guarantee, over every combination coarse enough to enumerate: the
/// cursor is always far enough from the background to be seen.
#[test]
fn the_insert_cursor_is_always_visible() {
    let steps = [0u8, 63, 127, 128, 191, 255];
    for &br in &steps {
        for &bg in &steps {
            for &bb in &steps {
                for &cr in &steps {
                    for &cg in &steps {
                        let background = rgb(br, bg, bb);
                        // The blue channel of the cursor is the one varied
                        // least; five nested loops is already 7776 cases.
                        let theme = theme_with(background, rgb(cr, cg, bb));

                        let colour = cursor(&theme, true);
                        assert!(
                            distance(colour, theme.background) >= MIN_CURSOR_DISTANCE,
                            "cursor {colour:?} invisible on {background:?}"
                        );
                    }
                }
            }
        }
    }
}

/// A grey on a grey close to it: pushed no further than it takes.
#[test]
fn a_pushed_cursor_stands_off_the_background() {
    let theme = theme_with(rgb(127, 127, 127), rgb(191, 191, 191));
    let colour = cursor(&theme, true);
    assert_eq!(colour, rgb(191, 191, 191));
    assert!(distance(colour, theme.background) >= MIN_CURSOR_DISTANCE);
    let theme = theme_with(rgb(0, 0, 0), rgb(255, 255, 255));
    assert_eq!(cursor(&theme, true), rgb(165, 165, 165));
}

#[test]
fn the_palette_is_the_sixteen_the_cube_and_the_greys() {
    let theme = theme_with(rgb(0, 0, 0), rgb(255, 255, 255));
    assert_eq!(indexed(3, &theme), rgb(1, 2, 3));
    assert_eq!(indexed(16, &theme), rgb(0, 0, 0));
    assert_eq!(indexed(196, &theme), rgb(255, 0, 0));
    assert_eq!(indexed(232, &theme), rgb(8, 8, 8));
    assert_eq!(indexed(255, &theme), rgb(238, 238, 238));
}

#[test]
fn hidden_reversed_and_dim_cells_resolve_to_the_right_pair() {
    let theme = theme_with(rgb(0, 0, 0), rgb(255, 255, 255));
    let mut cell = Cell::default();
    assert_eq!(resolve(&cell, &theme), (theme.foreground, theme.background));
    cell.attrs.insert(Attrs::REVERSE);
    assert_eq!(resolve(&cell, &theme), (theme.background, theme.foreground));
    cell.attrs.insert(Attrs::HIDDEN);
    assert_eq!(resolve(&cell, &theme), (theme.foreground, theme.foreground));

    let mut dim = Cell::default();
    dim.attrs.insert(Attrs::DIM);
    assert_eq!(resolve(&dim, &theme), (rgb(100, 100, 100), theme.background));
}
