use new_iris_terminal::term::grid::{Grid, Row};

/// The memory saving that makes a grid wider than the window affordable.
#[test]
fn a_line_pushed_to_scrollback_loses_its_trailing_blanks() {
    let mut grid = Grid::new(200, 2, 100);
    for ch in "hello".chars() {
        grid.print(ch);
    }
    grid.line_feed();
    grid.line_feed();

    let row = grid.scrollback.front().expect("a line scrolled off");
    assert_eq!(row.cells.len(), 5, "padding was kept");
    assert_eq!(row.to_text(), "hello");
}

/// The invariant the whole width claim rests on: a column nobody has
/// written to costs nothing. At a margin of 16384 the old shape of this -
/// every screen row allocated to full width - was half a megabyte a row.
#[test]
fn a_row_holds_only_what_has_been_written_to_it() {
    let mut grid = Grid::new(16384, 24, 100);
    assert!(
        grid.screen.iter().all(|row| row.cells.is_empty()),
        "a fresh screen should hold no cells at all"
    );

    for ch in "USER>".chars() {
        grid.print(ch);
    }
    assert_eq!(grid.screen[0].cells.len(), 5);
    assert!(grid.screen[1].cells.is_empty());

    // And a long line is held whole, however far past the window it runs.
    grid.line_feed();
    grid.set_cursor(1, 0);
    for _ in 0..3000 {
        grid.print('X');
    }
    assert_eq!(grid.screen[1].to_text().chars().count(), 3000);
    assert_eq!(grid.widest_line(), 3000);
}

/// Erasing to the end of the line is what IRIS sends on every keystroke of
/// its own line editing, so it has to leave the row as short as what is
/// left on it rather than blanking thousands of columns.
#[test]
fn erasing_to_the_end_of_the_line_shortens_the_row() {
    let mut grid = Grid::new(16384, 4, 100);
    for ch in "USER>write 1".chars() {
        grid.print(ch);
    }
    grid.set_cursor(0, 5);
    grid.erase_in_line(0);
    assert_eq!(grid.screen[0].cells.len(), 5);
    assert_eq!(grid.screen[0].to_text(), "USER>");
}

/// ECH erases in the middle of a line, which is a blank rather than a
/// truncation: what follows has to stay where it is.
#[test]
fn erasing_characters_in_the_middle_leaves_the_tail_in_place() {
    let mut grid = Grid::new(16384, 4, 100);
    for ch in "abcdef".chars() {
        grid.print(ch);
    }
    grid.set_cursor(0, 2);
    grid.erase_chars(2);
    assert_eq!(grid.screen[0].to_text(), "ab  ef");
}

/// DCH pulls the tail left; the blanks a fixed-width terminal shifts in at
/// the margin are the cells that stop existing.
#[test]
fn deleting_characters_pulls_the_tail_left() {
    let mut grid = Grid::new(16384, 4, 100);
    for ch in "abcdef".chars() {
        grid.print(ch);
    }
    grid.set_cursor(0, 1);
    grid.delete_chars(2);
    assert_eq!(grid.screen[0].to_text(), "adef");
}

/// ICH pushes the tail right without dropping any of it, which is the part
/// a row that only holds what is written could get wrong.
#[test]
fn inserting_characters_keeps_the_tail() {
    let mut grid = Grid::new(16384, 4, 100);
    for ch in "abcdef".chars() {
        grid.print(ch);
    }
    grid.set_cursor(0, 3);
    grid.insert_chars(2);
    assert_eq!(grid.screen[0].to_text(), "abc  def");
}

/// A row stays as short as what is on it - a resize pads nothing - and is
/// printed into all the same, far to the right: the write grows it. The
/// old shape of this was to pad every row out to full width, which is what
/// a margin of 16384 made unaffordable.
#[test]
fn a_short_row_is_printed_into_without_being_padded() {
    let mut grid = Grid::new(200, 2, 100);
    for ch in "hi".chars() {
        grid.print(ch);
    }

    grid.resize(200, 4);
    for row in &grid.screen {
        assert!(
            row.cells.len() <= 2,
            "a screen row holds what is on it and no padding"
        );
    }

    // The write that would be out of bounds if the row did not grow.
    grid.set_cursor(0, 199);
    grid.print('X');
    assert_eq!(grid.screen[0].cells.len(), 200);
    assert_eq!(grid.screen[0].cells[199].ch, 'X');
    let text = grid.screen[0].to_text();
    assert!(text.starts_with("hi") && text.ends_with('X'));
    assert_eq!(text.chars().count(), 200, "the gap is blank, not missing");
}

/// Narrowing the window must not throw away text already received: only
/// the screen is resized, and readers clamp to each row's own length.
#[test]
fn narrowing_the_grid_leaves_history_intact() {
    let mut grid = Grid::new(200, 2, 100);
    for _ in 0..150 {
        grid.print('x');
    }
    grid.line_feed();
    grid.line_feed();

    grid.resize(80, 2);
    assert_eq!(
        grid.scrollback.front().map(|r| r.to_text().len()),
        Some(150),
        "history was truncated by a window resize"
    );
}

/// What the horizontal scrollbar is sized from. A high-water mark on
/// purpose: it must not shrink as the view scrolls onto short lines, or the
/// sideways offset would be clamped away under the user.
#[test]
fn the_widest_line_is_remembered_across_short_ones() {
    let mut grid = Grid::new(200, 3, 100);
    assert_eq!(grid.widest_line(), 0);

    for _ in 0..150 {
        grid.print('x');
    }
    assert_eq!(grid.widest_line(), 150);

    // A short line after it must not lower the mark.
    grid.line_feed();
    grid.set_cursor(1, 0);
    grid.print('y');
    assert_eq!(grid.widest_line(), 150);

    // Nor may scrolling the long line into history.
    grid.line_feed();
    grid.line_feed();
    grid.line_feed();
    assert_eq!(grid.widest_line(), 150);

    // Clearing the history is the one point at which it is genuinely gone.
    grid.hard_reset();
    assert_eq!(grid.widest_line(), 0);
}

/// The bug behind "`W #` loses everything": IRIS clears the screen in
/// place, so unless the rows are filed away first there is no history to
/// scroll back to.
#[test]
fn clearing_the_screen_files_it_into_scrollback() {
    let mut grid = Grid::new(20, 4, 100);
    for ch in "USER>write 1".chars() {
        grid.print(ch);
    }
    grid.set_cursor(1, 0);
    for ch in "1".chars() {
        grid.print(ch);
    }

    grid.erase_in_display(2);

    assert_eq!(grid.screen[0].to_text(), "");
    let history: Vec<String> = grid.scrollback.iter().map(Row::to_text).collect();
    assert_eq!(history, vec!["USER>write 1".to_string(), "1".to_string()]);
}

/// The other spelling of "clear": home the cursor, then erase to the end.
#[test]
fn erase_to_end_from_the_home_position_is_a_clear_too() {
    let mut grid = Grid::new(20, 3, 100);
    for ch in "kept".chars() {
        grid.print(ch);
    }
    grid.set_cursor(0, 0);
    grid.erase_in_display(0);
    assert_eq!(
        grid.scrollback.front().map(Row::to_text),
        Some("kept".to_string())
    );
}

/// An erase-to-end from anywhere else is an ordinary partial erase and
/// must not push a copy of the screen into the history.
#[test]
fn erase_to_end_below_the_home_position_files_nothing() {
    let mut grid = Grid::new(20, 3, 100);
    for ch in "kept".chars() {
        grid.print(ch);
    }
    grid.set_cursor(1, 0);
    grid.erase_in_display(0);
    assert!(grid.scrollback.is_empty());
    assert_eq!(grid.screen[0].to_text(), "kept");
}

/// A screen with nothing on it costs nothing: clearing twice must not add
/// a screenful of blank lines.
#[test]
fn clearing_an_empty_screen_adds_no_history() {
    let mut grid = Grid::new(20, 24, 100);
    grid.erase_in_display(2);
    grid.erase_in_display(2);
    assert!(grid.scrollback.is_empty());
}

/// ED 3 means "and drop the saved lines" - but only when it is asked for
/// on its own account. Straight after a clear-screen it is the tail of
/// that clear, which is how a Windows pseudoconsole spells one.
#[test]
fn ed_3_drops_the_history_only_when_it_is_not_part_of_a_clear() {
    let mut grid = Grid::new(20, 3, 100);
    for ch in "gone".chars() {
        grid.print(ch);
    }
    grid.erase_in_display(2);
    assert_eq!(grid.scrollback.len(), 1);

    // Part of the clear that has just happened: the screen it filed stays.
    grid.erase_in_display(3);
    assert_eq!(grid.scrollback.len(), 1);

    // Printing ends the clear, so the next one is a program asking.
    for ch in "again".chars() {
        grid.print(ch);
    }
    grid.erase_in_display(3);
    assert!(grid.scrollback.is_empty());
}

/// The gesture behind Ctrl+Delete takes the history with it, always.
#[test]
fn hard_reset_drops_the_history() {
    let mut grid = Grid::new(20, 3, 100);
    for ch in "gone".chars() {
        grid.print(ch);
    }
    grid.erase_in_display(2);
    assert_eq!(grid.scrollback.len(), 1);

    grid.hard_reset();
    assert!(grid.scrollback.is_empty());
    assert_eq!(grid.screen[0].to_text(), "");
}

#[test]
fn used_width_ignores_trailing_blanks_only() {
    let mut grid = Grid::new(10, 1, 0);
    grid.set_cursor(0, 2);
    grid.print('a');
    grid.set_cursor(0, 5);
    grid.print('b');
    assert_eq!(grid.screen[0].used_width(), 6);
    assert_eq!(grid.screen[0].to_text(), "  a  b");
}

/// Dragged short and tall again, a window loses no line.
#[test]
fn a_resize_loses_no_text() {
    let mut grid = Grid::new(20, 5, 100);
    for r in 0..4 {
        grid.screen[r].set_text(&format!("line {r}"));
    }
    grid.cursor.row = 3;
    let read = |grid: &Grid| {
        let mut lines = grid.all_text();
        while lines.last().map(|line| line.is_empty()) == Some(true) {
            lines.pop();
        }
        lines
    };
    let before = read(&grid);
    assert_eq!(before.len(), 4);
    grid.resize(20, 2);
    assert_eq!(grid.scrollback.len(), 2);
    assert_eq!(read(&grid), before);
    grid.resize(6, 1);
    assert_eq!(read(&grid), before);
    grid.resize(40, 9);
    assert_eq!(read(&grid), before);
}
