//! Input method state and the rectangle that its popup follows.

use crate::font::CellMetrics;
use crate::grid::model::least;
use crate::grid::{CellFlags, Grid};
use crate::text;
use vstd::prelude::*;

verus! {

/// Active pre-edit text and cursor range from the input method.
#[derive(Debug, Clone, PartialEq, Eq)]
pub struct Preedit {
    pub text: String,
    pub cursor_begin: i32,
    pub cursor_end: i32,
}

/// Tracks the active IME session state and pre-edit text.
#[derive(Debug, Clone)]
pub struct ImeState {
    pub active: bool,
    pub preedit: Option<Preedit>,
}

impl Default for ImeState {
    fn default() -> (r: Self)
        ensures
            !r.active,
            r.preedit is None,
    {
        ImeState { active: false, preedit: None }
    }
}

impl ImeState {
    pub fn new() -> (r: Self)
        ensures
            !r.active,
            r.preedit is None,
    {
        ImeState::default()
    }

    /// Updates or clears pre-edit text received from the compositor.
    pub fn set_preedit(&mut self, text: Option<String>, cursor_begin: i32, cursor_end: i32)
        ensures
            final(self).active == old(self).active,
            final(self).preedit == (match text {
                Some(t) if t@.len() > 0 => Some(Preedit { text: t, cursor_begin, cursor_end }),
                _ => None,
            }),
    {
        self.preedit = None;
        if let Some(t) = text {
            if text::chars_of(t.as_str()).len() > 0 {
                self.preedit = Some(Preedit { text: t, cursor_begin, cursor_end });
            }
        }
    }

    /// Clears any pending pre-edit text upon commit or focus loss.
    pub fn clear_preedit(&mut self)
        ensures
            final(self).active == old(self).active,
            final(self).preedit is None,
    {
        self.preedit = None;
    }
}

/// A number brought into the range below a bound, or zero where the bound is zero.
pub open spec fn below(n: usize, bound: usize) -> int {
    if bound == 0 {
        0
    } else {
        least(n as int, bound - 1)
    }
}

/// Whether a cell of the screen holds a character that takes two columns.
pub open spec fn is_wide_at(grid: &Grid, row: int, col: int) -> bool {
    &&& row < grid.lines@.len()
    &&& col < grid.lines@[row].cells@.len()
    &&& grid.lines@[row].cells@[col].flags.has(CellFlags::wide_char())
}

/// Computes the pixel-accurate bounding rectangle of the terminal cursor for IME popup positioning.
///
/// Returns `(x, y, width, height)` in surface-local pixels. A cursor off the screen counts as one
/// at its edge.
pub fn calculate_cursor_rect(grid: &Grid, metrics: CellMetrics, padding: [u16; 2]) -> (r: (
    i32,
    i32,
    i32,
    i32,
))
    requires
        2 * metrics.cell_width <= i32::MAX,
        metrics.cell_height <= i32::MAX,
        padding@[0] + grid.cols * metrics.cell_width <= i32::MAX,
        padding@[1] + grid.rows * metrics.cell_height <= i32::MAX,
    ensures
        ({
            let row = below(grid.cursor.row, grid.rows);
            let col = below(grid.cursor.col, grid.cols);
            &&& r.0 == padding@[0] + col * metrics.cell_width
            &&& r.1 == padding@[1] + row * metrics.cell_height
            &&& r.2 == (if is_wide_at(grid, row, col) {
                2 * metrics.cell_width
            } else {
                metrics.cell_width as int
            })
            &&& r.3 == metrics.cell_height
        }),
{
    let row: usize = if grid.rows == 0 {
        0
    } else if grid.cursor.row < grid.rows {
        grid.cursor.row
    } else {
        grid.rows - 1
    };
    let col: usize = if grid.cols == 0 {
        0
    } else if grid.cursor.col < grid.cols {
        grid.cursor.col
    } else {
        grid.cols - 1
    };
    let is_wide: bool = row < grid.lines.len() && col < grid.lines[row].cells.len()
        && grid.lines[row].cells[col].flags.contains(CellFlags::wide_char());
    let width: i32 = if is_wide {
        2 * metrics.cell_width as i32
    } else {
        metrics.cell_width as i32
    };
    assert(col * metrics.cell_width <= grid.cols * metrics.cell_width) by (nonlinear_arith)
        requires
            col <= grid.cols,
            metrics.cell_width >= 0,
    ;
    assert(row * metrics.cell_height <= grid.rows * metrics.cell_height) by (nonlinear_arith)
        requires
            row <= grid.rows,
            metrics.cell_height >= 0,
    ;
    assert(0 <= col * metrics.cell_width && 0 <= row * metrics.cell_height) by (nonlinear_arith)
        requires
            col >= 0,
            row >= 0,
            metrics.cell_width >= 0,
            metrics.cell_height >= 0,
    ;
    let x: u128 = padding[0] as u128 + col as u128 * metrics.cell_width as u128;
    let y: u128 = padding[1] as u128 + row as u128 * metrics.cell_height as u128;
    (x as i32, y as i32, width, metrics.cell_height as i32)
}

} // verus!
