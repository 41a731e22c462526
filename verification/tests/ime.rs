//! Input method state and the cursor rectangle.

use ftty::font::CellMetrics;
use ftty::grid::{CellFlags, Grid};
use ftty::ime::{calculate_cursor_rect, ImeState, Preedit};

#[test]
fn test_ime_state_preedit_lifecycle() {
    let mut ime = ImeState::new();
    assert!(!ime.active);
    assert!(ime.preedit.is_none());

    ime.set_preedit(Some("nihao".to_string()), 0, 5);
    assert_eq!(
        ime.preedit,
        Some(Preedit {
            text: "nihao".to_string(),
            cursor_begin: 0,
            cursor_end: 5,
        })
    );

    ime.clear_preedit();
    assert!(ime.preedit.is_none());

    ime.set_preedit(Some(String::new()), 0, 0);
    assert!(ime.preedit.is_none());
}

#[test]
fn test_calculate_cursor_rect_with_padding() {
    let mut grid = Grid::new(80, 24, 0);
    grid.cursor.row = 5;
    grid.cursor.col = 10;

    let metrics = CellMetrics {
        cell_width: 10,
        cell_height: 20,
        ascent: 15,
    };

    // Without padding
    let (x, y, w, h) = calculate_cursor_rect(&grid, metrics, [0, 0]);
    assert_eq!((x, y, w, h), (100, 100, 10, 20));

    // With padding [15, 25]
    let (x, y, w, h) = calculate_cursor_rect(&grid, metrics, [15, 25]);
    assert_eq!((x, y, w, h), (115, 125, 10, 20));
}

#[test]
fn test_calculate_cursor_rect_wide_char() {
    let mut grid = Grid::new(80, 24, 0);
    grid.cursor.row = 2;
    grid.cursor.col = 4;
    grid.lines[2].cells[4].flags = CellFlags::wide_char();

    let metrics = CellMetrics {
        cell_width: 9,
        cell_height: 18,
        ascent: 14,
    };

    let (x, y, w, h) = calculate_cursor_rect(&grid, metrics, [5, 5]);
    assert_eq!(x, 5 + 4 * 9);
    assert_eq!(y, 5 + 2 * 18);
    assert_eq!(w, 18); // Wide char spans 2 cells
    assert_eq!(h, 18);
}

#[test]
fn test_calculate_cursor_rect_clamping() {
    let mut grid = Grid::new(80, 24, 0);
    grid.cursor.row = 999;
    grid.cursor.col = 999;

    let metrics = CellMetrics {
        cell_width: 10,
        cell_height: 20,
        ascent: 15,
    };

    let (x, y, w, h) = calculate_cursor_rect(&grid, metrics, [0, 0]);
    // Should clamp to (79, 23)
    assert_eq!(x, 79 * 10);
    assert_eq!(y, 23 * 20);
    assert_eq!(w, 10);
    assert_eq!(h, 20);
}

#[test]
fn absent_text_clears_the_preedit() {
    let mut ime = ImeState::default();
    ime.active = true;
    ime.set_preedit(Some("ni".to_string()), 1, 2);
    ime.set_preedit(None, 0, 0);
    assert!(ime.preedit.is_none());
    assert!(ime.active);
}
