//! What holds of the grid as a whole, on concrete screens.

use ftty::color::Color;
use ftty::grid::{diacritic_to_index, CellFlags, ClearMode, Grid};

fn write(grid: &mut Grid, text: &str) {
    for c in text.chars() {
        grid.write_char(
            c,
            Color::DefaultForeground,
            Color::DefaultBackground,
            CellFlags::empty(),
        );
    }
}

/// The characters of all rows, oldest first, without blanks at the ends of rows.
fn rows(grid: &Grid) -> Vec<String> {
    grid.scrollback
        .iter()
        .chain(grid.lines.iter())
        .map(|r| {
            let text: String = r
                .cells
                .iter()
                .filter(|c| !c.flags.contains(CellFlags::wide_char_spacer()))
                .map(|c| c.c)
                .collect();
            text.trim_end().to_string()
        })
        .collect()
}

#[test]
fn narrowing_and_widening_restores_the_text() {
    let mut grid = Grid::new(20, 4, 100);
    write(&mut grid, "the quick brown fox");
    grid.newline();
    grid.carriage_return();
    write(&mut grid, "jumps");
    let before = rows(&grid).concat();
    grid.resize(7, 4);
    assert_eq!(rows(&grid).concat().replace(' ', ""), before.replace(' ', ""));
    grid.resize(20, 4);
    let after = rows(&grid);
    assert!(after.contains(&"the quick brown fox".to_string()));
    assert!(after.contains(&"jumps".to_string()));
}

#[test]
fn wide_characters_are_not_cut() {
    let mut grid = Grid::new(7, 3, 100);
    write(&mut grid, "a\u{4e2d}\u{6587}\u{5b57}");
    for cols in [5, 4, 3, 7] {
        grid.resize(cols, 3);
        for row in grid.scrollback.iter().chain(grid.lines.iter()) {
            for (i, cell) in row.cells.iter().enumerate() {
                if cell.flags.contains(CellFlags::wide_char()) {
                    let next = row.cells[i + 1];
                    assert!(next.flags.contains(CellFlags::wide_char_spacer()));
                }
            }
        }
        assert_eq!(rows(&grid).concat(), "a\u{4e2d}\u{6587}\u{5b57}");
    }
}

#[test]
fn history_stays_within_its_limit() {
    let mut grid = Grid::new(10, 2, 3);
    for i in 0..20 {
        write(&mut grid, &format!("{i}"));
        grid.newline();
        grid.carriage_return();
        assert!(grid.scrollback.len() <= 3);
    }
    assert_eq!(rows(&grid), ["16", "17", "18", "19", ""]);
}

#[test]
fn the_view_of_the_history_does_not_move() {
    let mut grid = Grid::new(10, 2, 100);
    for i in 0..10 {
        write(&mut grid, &format!("{i}"));
        grid.newline();
        grid.carriage_return();
    }
    grid.scroll_viewport_up(4);
    let shown = |g: &Grid| g.visible_line(0).cells[0].c;
    let before = shown(&grid);
    write(&mut grid, "x");
    grid.newline();
    grid.newline();
    assert_eq!(shown(&grid), before);
}

#[test]
fn the_alternate_screen_leaves_the_primary_one_alone() {
    let mut grid = Grid::new(10, 3, 100);
    write(&mut grid, "primary");
    let before = rows(&grid);
    grid.enter_alt_screen();
    assert!(grid.is_alt_screen());
    write(&mut grid, "other");
    grid.clear_screen(ClearMode::All);
    grid.exit_alt_screen();
    assert_eq!(rows(&grid), before);
    assert!(!grid.is_alt_screen());
}

#[test]
fn hidden_cursors_stay_on_their_screen() {
    let mut grid = Grid::new(10, 5, 100);
    grid.cursor.row = 4;
    grid.cursor.col = 9;
    grid.enter_alt_screen();
    grid.resize(4, 2);
    grid.exit_alt_screen();
    assert!(grid.cursor.row < 2);
    assert!(grid.cursor.col < 4);
    write(&mut grid, "ok");
    assert!(rows(&grid).concat().contains('k'));
}

#[test]
fn tabs_stop_at_the_last_column() {
    let mut grid = Grid::new(20, 2, 0);
    grid.tab();
    assert_eq!(grid.cursor.col, 8);
    grid.tab();
    assert_eq!(grid.cursor.col, 16);
    grid.tab();
    assert_eq!(grid.cursor.col, 19);
    grid.tab();
    assert_eq!(grid.cursor.col, 19);
}

#[test]
fn the_cursor_stays_on_its_line_when_rows_are_forgotten() {
    let mut grid = Grid::new(4, 2, 0);
    write(&mut grid, "ab");
    grid.newline();
    grid.carriage_return();
    write(&mut grid, "c");
    grid.carriage_return();
    grid.save_cursor();
    grid.resize(1, 2);
    assert!(grid.scrollback.is_empty());
    assert_eq!(rows(&grid), ["b", "c"]);
    assert_eq!((grid.cursor.row, grid.cursor.col), (1, 0));
    assert_eq!((grid.saved_cursor.row, grid.saved_cursor.col), (1, 0));
}

#[test]
fn everything_is_marked_for_redrawing() {
    let mut grid = Grid::new(4, 2, 10);
    for _ in 0..4 {
        write(&mut grid, "ab");
        grid.newline();
    }
    grid.enter_alt_screen();
    assert!(!grid.scrollback.is_empty());
    let clean = |grid: &mut Grid| {
        for row in grid.lines.iter_mut().chain(grid.scrollback.iter_mut()) {
            row.dirty.set(false);
        }
        for row in grid.alt_lines.as_mut().unwrap().iter_mut() {
            row.dirty.set(false);
        }
    };
    clean(&mut grid);
    assert_eq!(grid.viewport_offset(), 0);
    grid.mark_all_dirty();
    assert!(grid.lines.iter().all(|r| r.dirty.get()));
    assert!(grid.scrollback.iter().all(|r| r.dirty.get()));
    assert!(grid.alt_lines.as_ref().unwrap().iter().all(|r| r.dirty.get()));
}

#[test]
fn text_survives_cut_rows() {
    // The screen below the cursor is cut first; the text above it stays.
    let mut grid = Grid::new(6, 6, 100);
    write(&mut grid, "hello");
    grid.newline();
    grid.carriage_return();
    write(&mut grid, "wor");
    for (cols, lines) in [(2, 3), (5, 2), (9, 1), (3, 8), (6, 6)] {
        grid.resize(cols, lines);
        assert_eq!(rows(&grid).concat(), "hellowor");
    }
    let read = rows(&grid);
    assert_eq!(read[..2], ["hello", "wor"]);
}

#[test]
fn writing_works_from_any_cursor() {
    let mut grid = Grid::new(4, 2, 10);
    grid.cursor.col = 9;
    write(&mut grid, "x");
    assert_eq!(rows(&grid), ["", "x"]);
    assert!(grid.lines[0].wrapped);
    assert_eq!((grid.cursor.row, grid.cursor.col), (1, 1));
    grid.cursor.row = 7;
    grid.cursor.col = 0;
    write(&mut grid, "yz");
    assert_eq!(rows(&grid), ["", "x"]);
    assert_eq!((grid.cursor.row, grid.cursor.col), (7, 0));
}

#[test]
fn the_primary_screen_survives_work_on_the_alternate_one() {
    let mut grid = Grid::new(6, 3, 10);
    for text in ["one", "two", "three", "four"] {
        write(&mut grid, text);
        grid.newline();
        grid.carriage_return();
    }
    grid.save_cursor();
    write(&mut grid, "x");
    let before = rows(&grid);
    let (cursor, saved) = (grid.cursor, grid.saved_cursor);
    grid.enter_alt_screen();
    write(&mut grid, "all over the screen");
    grid.newline();
    grid.scroll_up(2);
    grid.scroll_down(1);
    grid.insert_lines(1);
    grid.delete_chars(2);
    grid.save_cursor();
    grid.clear_screen(ClearMode::All);
    grid.exit_alt_screen();
    assert_eq!(rows(&grid), before);
    assert_eq!((grid.cursor, grid.saved_cursor), (cursor, saved));
    assert!(!grid.is_alt_screen());
    grid.exit_alt_screen();
    assert_eq!(rows(&grid), before);
}

#[test]
fn image_numbers_follow_their_characters() {
    let mut next = 0;
    for c in '\u{300}'..='\u{1d300}' {
        if let Some(n) = diacritic_to_index(c) {
            assert_eq!(n, next);
            next += 1;
        }
    }
    assert_eq!(next, 297);
    assert_eq!(diacritic_to_index('\u{305}'), Some(0));
    assert_eq!(diacritic_to_index('\u{30d}'), Some(1));
    assert_eq!(diacritic_to_index('\u{1d244}'), Some(296));
    assert_eq!(diacritic_to_index('a'), None);
}

#[test]
fn restoring_the_cursor_undoes_moves() {
    let mut grid = Grid::new(10, 4, 100);
    write(&mut grid, "ab");
    let saved = grid.cursor;
    grid.save_cursor();
    write(&mut grid, "some text that wraps and scrolls, and some more of it");
    grid.newline();
    grid.clear_screen(ClearMode::All);
    assert_ne!(grid.cursor, saved);
    grid.restore_cursor();
    assert_eq!(grid.cursor, saved);
    grid.restore_cursor();
    assert_eq!(grid.cursor, saved);
}

#[test]
fn runs_are_their_characters() {
    let text = "a run that wraps, scrolls and ends in the middle of a row";
    let mut one_by_one = Grid::new(7, 3, 100);
    write(&mut one_by_one, text);
    let mut at_once = Grid::new(7, 3, 100);
    at_once.write_ascii_run(
        text.as_bytes(),
        Color::DefaultForeground,
        Color::DefaultBackground,
        CellFlags::empty(),
        Color::DefaultForeground,
        None,
    );
    assert_eq!(rows(&at_once), rows(&one_by_one));
    assert_eq!(at_once.cursor, one_by_one.cursor);
}

#[test]
fn newlines_scroll_at_the_bottom_only() {
    let mut grid = Grid::new(5, 3, 100);
    grid.newline();
    grid.newline();
    assert_eq!((grid.cursor.row, grid.scrollback.len()), (2, 0));
    grid.newline();
    assert_eq!((grid.cursor.row, grid.scrollback.len()), (2, 1));
}

#[test]
fn resized_grids_fit() {
    let mut grid = Grid::new(20, 6, 5);
    write(&mut grid, "one line that is long enough to wrap once or twice on any of these screens");
    grid.save_cursor();
    grid.newline();
    write(&mut grid, "tail");
    for (cols, lines) in [(3, 2), (40, 9), (1, 1), (0, 0), (20, 6), (20, 2)] {
        grid.resize(cols, lines);
        let (cols, lines) = (cols.max(1), lines.max(1));
        assert_eq!((grid.cols, grid.rows, grid.lines.len()), (cols, lines, lines));
        assert!(grid.lines.iter().all(|r| r.cells.len() == cols));
        assert!(grid.cursor.row < lines && grid.cursor.col < cols);
        assert!(grid.saved_cursor.row < lines && grid.saved_cursor.col < cols);
        assert!(grid.scrollback.len() <= 5);
    }
}
