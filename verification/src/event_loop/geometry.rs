//! Terminal geometry calculation and pixel dimension sizing.

use crate::font::CellMetrics;
use crate::grid::Grid;
use vstd::prelude::*;

verus! {

/// A number, at most the greatest of sixteen bits.
pub open spec fn capped16(n: int) -> u16 {
    if n > u16::MAX {
        u16::MAX
    } else {
        n as u16
    }
}

pub fn saturating_u16(value: u32) -> (r: u16)
    ensures
        r == capped16(value as int),
{
    if value > 65535 {
        65535
    } else {
        value as u16
    }
}

/// What is left of a length without padding at both ends.
pub open spec fn usable(length: u32, padding: u16) -> u32 {
    if length <= 2 * padding {
        0
    } else {
        (length - 2 * padding) as u32
    }
}

fn usable_length(length: u32, padding: u16) -> (r: u32)
    ensures
        r == usable(length, padding),
{
    length.saturating_sub(2 * padding as u32)
}

/// How many cells fit into a length: at least one, at most the greatest of sixteen bits. A cell of
/// no size counts as one pixel.
pub open spec fn cells_in(length: u32, cell: u32) -> u16 {
    let n = if cell == 0 {
        length as int
    } else {
        length as int / cell as int
    };
    if n < 1 {
        1
    } else {
        capped16(n)
    }
}

fn count_cells(length: u32, cell: u32) -> (r: u16)
    ensures
        r == cells_in(length, cell),
{
    let n: u32 = if cell == 0 {
        length
    } else {
        length / cell
    };
    if n < 1 {
        1
    } else {
        saturating_u16(n)
    }
}

/// How many columns and rows a window of a given size has.
pub fn terminal_size(size: [u32; 2], metrics: CellMetrics, padding: [u16; 2]) -> (r: (u16, u16))
    ensures
        r.0 == cells_in(usable(size@[0], padding@[0]), metrics.cell_width),
        r.1 == cells_in(usable(size@[1], padding@[1]), metrics.cell_height),
{
    (
        count_cells(usable_length(size[0], padding[0]), metrics.cell_width),
        count_cells(usable_length(size[1], padding[1]), metrics.cell_height),
    )
}

/// The terminal never needs more pixels than its window has, unless not even one cell fits.
pub proof fn law_terminal_fits_its_window(length: u32, cell: u32, padding: u16)
    requires
        cell > 0,
        usable(length, padding) >= cell,
    ensures
        cells_in(usable(length, padding), cell) * cell + 2 * padding <= length,
{
    let u = usable(length, padding) as int;
    let c = cell as int;
    let n = u / c;
    vstd::arithmetic::div_mod::lemma_fundamental_div_mod(u, c);
    vstd::arithmetic::div_mod::lemma_mod_bound(u, c);
    assert(n >= 1) by (nonlinear_arith)
        requires
            u == c * n + u % c,
            u >= c,
            0 <= u % c < c,
            c > 0,
    ;
    let k = cells_in(usable(length, padding), cell) as int;
    assert(k <= n);
    assert(k * c <= c * n) by (nonlinear_arith)
        requires
            k <= n,
            c > 0,
    ;
}

/// The first size of a window along one axis: the cells and the padding, at least a hundred pixels.
pub open spec fn first_length(cells: usize, cell: u32, padding: u16) -> u32 {
    let count = (cells as int % 0x1_0000_0000) as int;
    let product = if count * cell > u32::MAX {
        u32::MAX as int
    } else {
        count * cell
    };
    let sum = if product + 2 * padding > u32::MAX {
        u32::MAX as int
    } else {
        product + 2 * padding
    };
    if sum < 100 {
        100
    } else if sum > i32::MAX {
        i32::MAX as u32
    } else {
        sum as u32
    }
}

fn length_for(cells: usize, cell: u32, padding: u16) -> (r: u32)
    ensures
        r == first_length(cells, cell, padding),
{
    let count: u32 = (cells as u64 % 0x1_0000_0000) as u32;
    assert(count * cell <= 0xffff_ffff * 0xffff_ffff) by (nonlinear_arith)
        requires
            count <= 0xffff_ffff,
            cell <= 0xffff_ffff,
    ;
    let product: u32 = match count.checked_mul(cell) {
        Some(n) => n,
        None => 0xffff_ffff,
    };
    let sum: u32 = product.saturating_add(2 * padding as u32);
    if sum < 100 {
        100
    } else if sum > 0x7fff_ffff {
        0x7fff_ffff
    } else {
        sum
    }
}

/// The first size of the window for a terminal.
pub fn initial_window_size(cols: usize, rows: usize, metrics: CellMetrics, padding: [u16; 2]) -> (r:
    [u32; 2])
    ensures
        r@ == seq![
            first_length(cols, metrics.cell_width, padding@[0]),
            first_length(rows, metrics.cell_height, padding@[1]),
        ],
{
    let r: [u32; 2] = [
        length_for(cols, metrics.cell_width, padding[0]),
        length_for(rows, metrics.cell_height, padding[1]),
    ];
    assert(r@ =~= seq![
        first_length(cols, metrics.cell_width, padding@[0]),
        first_length(rows, metrics.cell_height, padding@[1]),
    ]);
    r
}

/// A window opened for a number of cells shows that number, unless its length had to be brought
/// into range.
pub proof fn law_first_window_shows_the_terminal(cells: usize, cell: u32, padding: u16)
    requires
        cell > 0,
        1 <= cells <= u16::MAX,
        100 <= cells * cell + 2 * padding <= i32::MAX,
    ensures
        cells_in(usable(first_length(cells, cell, padding), padding), cell) == cells,
{
    let n = cells as int;
    let c = cell as int;
    assert(n * c > 0) by (nonlinear_arith)
        requires
            n >= 1,
            c > 0,
    ;
    assert(usable(first_length(cells, cell, padding), padding) == n * c);
    vstd::arithmetic::div_mod::lemma_div_multiples_vanish(n, c);
    assert(c * n == n * c) by (nonlinear_arith);
}

/// What the terminal and its program are told of their size.
#[derive(Debug, Clone, Copy, PartialEq, Eq, Structural)]
pub struct TerminalGeometry {
    pub cols: u16,
    pub rows: u16,
    pub cell_width: u16,
    pub cell_height: u16,
    pub viewport_width: u16,
    pub viewport_height: u16,
}

/// The geometry of a terminal in a window of a given size.
pub open spec fn geometry_in(width: u32, height: u32, m: CellMetrics, pad_x: u16, pad_y: u16)
    -> TerminalGeometry {
    TerminalGeometry {
        cols: cells_in(usable(width, pad_x), m.cell_width),
        rows: cells_in(usable(height, pad_y), m.cell_height),
        cell_width: capped16(m.cell_width as int),
        cell_height: capped16(m.cell_height as int),
        viewport_width: capped16(usable(width, pad_x) as int),
        viewport_height: capped16(usable(height, pad_y) as int),
    }
}

/// The geometry of a terminal in a window of a given size.
pub fn geometry(size: [u32; 2], metrics: CellMetrics, padding: [u16; 2]) -> (r: TerminalGeometry)
    ensures
        r == geometry_in(size@[0], size@[1], metrics, padding@[0], padding@[1]),
{
    let (cols, rows): (u16, u16) = terminal_size(size, metrics, padding);
    TerminalGeometry {
        cols,
        rows,
        cell_width: saturating_u16(metrics.cell_width),
        cell_height: saturating_u16(metrics.cell_height),
        viewport_width: saturating_u16(usable_length(size[0], padding[0])),
        viewport_height: saturating_u16(usable_length(size[1], padding[1])),
    }
}

/// Brings the grid to the size that the window has room for, and returns the geometry to announce.
/// A grid that has the size already stays untouched.
pub fn resize_terminal(grid: &mut Grid, size: [u32; 2], metrics: CellMetrics, padding: [u16; 2]) -> (r:
    TerminalGeometry)
    requires
        old(grid)@.wf(),
        old(grid)@.room_for(u16::MAX as int + 1),
        old(grid)@.room_for(old(grid)@.rows as int),
    ensures
        r == geometry_in(size@[0], size@[1], metrics, padding@[0], padding@[1]),
        final(grid)@.wf(),
        final(grid)@ == (if old(grid)@.cols == r.cols && old(grid)@.rows == r.rows {
            old(grid)@
        } else {
            old(grid)@.resized(r.cols as usize, r.rows as usize)
        }),
{
    let g: TerminalGeometry = geometry(size, metrics, padding);
    if grid.cols != g.cols as usize || grid.rows != g.rows as usize {
        grid.resize(g.cols as usize, g.rows as usize);
    }
    g
}

/// The size that a compositor asks for; a dimension that it leaves open keeps its length.
pub fn configured_size(current: [u32; 2], width: i32, height: i32) -> (r: [u32; 2])
    ensures
        r@ == seq![
            if width > 0 {
                width as u32
            } else {
                current@[0]
            },
            if height > 0 {
                height as u32
            } else {
                current@[1]
            },
        ],
{
    let w: u32 = if width > 0 {
        width as u32
    } else {
        current[0]
    };
    let h: u32 = if height > 0 {
        height as u32
    } else {
        current[1]
    };
    let r: [u32; 2] = [w, h];
    assert(r@ =~= seq![w, h]);
    r
}

/// The cell under the pointer: its line counted from the oldest row of the history, its row on the
/// screen and its column. `raw_row` and `raw_col` count cells from the corner of the terminal; what
/// lies beyond the last counts as the last.
pub fn cell_at_pointer(grid: &Grid, raw_row: usize, raw_col: usize) -> (r: (usize, usize, usize))
    requires
        grid@.wf(),
    ensures
        r.1 == crate::ime::below(raw_row, grid@.rows),
        r.2 == crate::ime::below(raw_col, grid@.cols),
        r.0 == grid@.scrollback.len() + r.1 - grid@.viewport_offset,
{
    let col: usize = if raw_col < grid.cols {
        raw_col
    } else {
        grid.cols - 1
    };
    let row: usize = if raw_row < grid.rows {
        raw_row
    } else {
        grid.rows - 1
    };
    (grid.scrollback.len() + row - grid.viewport_offset, row, col)
}

} // verus!
