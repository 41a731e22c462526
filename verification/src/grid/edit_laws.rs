//! What editing does to the screen, cell by cell.

use crate::grid::model::GridModel;
use crate::grid::row::{Cell, ClearMode, Cursor, RowModel};
use crate::color::Color;
use vstd::prelude::*;

verus! {

/// Whether a cell shows nothing: a space in the default colors, without attributes or a hyperlink.
pub open spec fn is_blank(c: Cell) -> bool {
    &&& c.c == ' '
    &&& c.fg == Color::DefaultForeground
    &&& c.bg == Color::DefaultBackground
    &&& c.underline_color == Color::DefaultForeground
    &&& c.flags.bits == 0
    &&& c.hyperlink == 0
}

/// Whether a row is a fresh one: blank cells, neither continued nor with image coordinates.
pub open spec fn is_fresh(r: RowModel, cols: int) -> bool {
    &&& r.cells.len() == cols
    &&& forall|j: int| 0 <= j < cols ==> is_blank(#[trigger] r.cells[j])
    &&& !r.wrapped
    &&& forall|k: usize| !#[trigger] r.placeholders.contains_key(k)
}

/// Whether two rows show the same: cells, continuation and image coordinates.
pub open spec fn shows_same(a: RowModel, b: RowModel) -> bool {
    a.cells == b.cells && a.wrapped == b.wrapped && a.placeholders == b.placeholders
}

/// Whether two lists of rows show the same.
pub open spec fn show_same(a: Seq<RowModel>, b: Seq<RowModel>) -> bool {
    a.len() == b.len() && forall|i: int| 0 <= i < a.len() ==> shows_same(#[trigger] a[i], b[i])
}

/// Whether a place lies before another one in reading order.
pub open spec fn comes_before(row: int, col: int, at_row: int, at_col: int) -> bool {
    row < at_row || row == at_row && col < at_col
}

/// Erasing below keeps every cell before the cursor and blanks every cell from the cursor on; rows
/// above the cursor's are not touched at all, rows below it are fresh, and nothing but the screen
/// changes. A cursor below the screen erases nothing.
pub proof fn law_erasing_below_starts_at_the_cursor(g: GridModel)
    requires
        g.wf(),
    ensures
        ({
            let after = g.cleared(ClearMode::Below);
            &&& after == (GridModel { lines: after.lines, ..g })
            &&& after.lines.len() == g.rows
            &&& g.cursor.row >= g.rows ==> after == g
            &&& g.cursor.row < g.rows ==> {
                &&& forall|r: int, c: int|
                    0 <= r < g.rows && 0 <= c < g.cols ==> if comes_before(
                        r,
                        c,
                        g.cursor.row as int,
                        g.cursor.col as int,
                    ) {
                        #[trigger] after.lines[r].cells[c] == g.lines[r].cells[c]
                    } else {
                        is_blank(after.lines[r].cells[c])
                    }
                &&& forall|r: int| 0 <= r < g.cursor.row ==> #[trigger] after.lines[r] == g.lines[r]
                &&& forall|r: int|
                    g.cursor.row < r < g.rows ==> is_fresh(#[trigger] after.lines[r], g.cols as int)
                &&& after.lines[g.cursor.row as int].wrapped == g.lines[g.cursor.row as int].wrapped
                &&& after.lines[g.cursor.row as int].placeholders
                    == g.lines[g.cursor.row as int].placeholders
                &&& after.lines[g.cursor.row as int].dirty
            }
        }),
{
}

/// Erasing above blanks every cell up to the cursor's and keeps every cell behind it; rows below the
/// cursor's are not touched at all, rows above it are fresh, and nothing but the screen changes. A
/// cursor below the screen erases nothing.
pub proof fn law_erasing_above_ends_at_the_cursor(g: GridModel)
    requires
        g.wf(),
    ensures
        ({
            let after = g.cleared(ClearMode::Above);
            &&& after == (GridModel { lines: after.lines, ..g })
            &&& after.lines.len() == g.rows
            &&& g.cursor.row >= g.rows ==> after == g
            &&& g.cursor.row < g.rows ==> {
                &&& forall|r: int, c: int|
                    0 <= r < g.rows && 0 <= c < g.cols ==> if comes_before(
                        g.cursor.row as int,
                        g.cursor.col as int,
                        r,
                        c,
                    ) {
                        #[trigger] after.lines[r].cells[c] == g.lines[r].cells[c]
                    } else {
                        is_blank(after.lines[r].cells[c])
                    }
                &&& forall|r: int|
                    g.cursor.row < r < g.rows ==> #[trigger] after.lines[r] == g.lines[r]
                &&& forall|r: int|
                    0 <= r < g.cursor.row ==> is_fresh(#[trigger] after.lines[r], g.cols as int)
                &&& after.lines[g.cursor.row as int].wrapped == g.lines[g.cursor.row as int].wrapped
                &&& after.lines[g.cursor.row as int].placeholders
                    == g.lines[g.cursor.row as int].placeholders
                &&& after.lines[g.cursor.row as int].dirty
            }
        }),
{
}

/// Erasing everything blanks every row of the screen and leaves the history, the cursors and the
/// placements; only prompts of the history stay marked.
pub proof fn law_erasing_everything_blanks_the_screen(g: GridModel)
    requires
        g.wf(),
    ensures
        ({
            let after = g.cleared(ClearMode::All);
            &&& after == (GridModel {
                lines: after.lines,
                scrollback: after.scrollback,
                alt_lines: after.alt_lines,
                prompt_marks: after.prompt_marks,
                ..g
            })
            &&& after.lines.len() == g.rows
            &&& forall|r: int|
                0 <= r < g.rows ==> is_fresh(#[trigger] after.lines[r], g.cols as int)
            &&& show_same(after.scrollback, g.scrollback)
            &&& after.alt_lines is Some == g.alt_lines is Some
            &&& after.alt_lines matches Some(alt) ==> show_same(alt, g.alt_lines->0)
            &&& forall|m: usize|
                #![trigger after.prompt_marks.contains(m)]
                after.prompt_marks.contains(m) <==> g.prompt_marks.contains(m) && m
                    < g.total_evicted_rows + g.scrollback.len()
        }),
{
}

/// Erasing the history empties it and brings the viewport back to the screen, whose text and cursors
/// stay. What is anchored to a row of the screen stays with that row, and what is anchored to the
/// history goes.
pub proof fn law_erasing_the_history_keeps_the_screen(g: GridModel)
    requires
        g.wf(),
    ensures
        ({
            let after = g.cleared(ClearMode::Saved);
            let n = g.scrollback.len();
            &&& after == (GridModel {
                lines: after.lines,
                scrollback: after.scrollback,
                alt_lines: after.alt_lines,
                prompt_marks: after.prompt_marks,
                placements: after.placements,
                alt_placements: after.alt_placements,
                viewport_offset: 0,
                ..g
            })
            &&& after.scrollback.len() == 0
            &&& show_same(after.lines, g.lines)
            &&& after.alt_lines is Some == g.alt_lines is Some
            &&& after.alt_lines matches Some(alt) ==> show_same(alt, g.alt_lines->0)
            &&& forall|row: int|
                #![trigger after.has_mark(row)]
                0 <= row ==> (after.has_mark(row) <==> g.has_mark(n + row))
        }),
{
    let after = g.cleared(ClearMode::Saved);
    let n = g.scrollback.len();
    assert forall|row: int| 0 <= row implies (#[trigger] after.has_mark(row) <==> g.has_mark(
        n + row,
    )) by {}
}

/// Erasing part of a line changes that line only: from the cursor on, up to the cursor's column, or
/// all of it.
pub proof fn law_erasing_in_a_line_stays_in_it(g: GridModel, mode: ClearMode)
    requires
        g.wf(),
    ensures
        ({
            let after = g.line_cleared(mode);
            let row = g.cursor.row as int;
            &&& after == (GridModel { lines: after.lines, ..g })
            &&& after.lines.len() == g.rows
            &&& g.cursor.row >= g.rows ==> after == g
            &&& forall|r: int| 0 <= r < g.rows && r != row ==> #[trigger] after.lines[r] == g.lines[r]
            &&& g.cursor.row < g.rows ==> {
                &&& forall|c: int|
                    0 <= c < g.cols ==> {
                        let erased = match mode {
                            ClearMode::Below => c >= g.cursor.col,
                            ClearMode::Above => c <= g.cursor.col,
                            _ => true,
                        };
                        if erased {
                            is_blank(#[trigger] after.lines[row].cells[c])
                        } else {
                            after.lines[row].cells[c] == g.lines[row].cells[c]
                        }
                    }
                &&& after.lines[row].cells.len() == g.cols
                &&& after.lines[row].dirty
                &&& mode == ClearMode::Below || mode == ClearMode::Above ==> {
                    &&& after.lines[row].wrapped == g.lines[row].wrapped
                    &&& after.lines[row].placeholders == g.lines[row].placeholders
                }
                &&& mode == ClearMode::All ==> is_fresh(after.lines[row], g.cols as int)
            }
        }),
{
}

/// Inserting lines in the scroll region puts blank rows in at the cursor's row and moves the rows
/// from there on down, as far as the bottom of the region; rows above the cursor and below the region
/// show what they showed. Outside the region nothing happens.
pub proof fn law_inserted_lines_enter_at_the_cursor(g: GridModel, count: usize)
    requires
        g.wf(),
    ensures
        ({
            let after = g.lines_inserted(count);
            let row = g.cursor.row as int;
            let bottom = g.scroll_region_bottom as int;
            &&& !(g.scroll_region_top <= row <= bottom) ==> after == g
            &&& after == (GridModel {
                lines: after.lines,
                scrollback: after.scrollback,
                alt_lines: after.alt_lines,
                ..g
            })
            &&& show_same(after.scrollback, g.scrollback)
            &&& after.alt_lines is Some == g.alt_lines is Some
            &&& after.alt_lines matches Some(alt) ==> show_same(alt, g.alt_lines->0)
            &&& after.lines.len() == g.rows
            &&& g.scroll_region_top <= row <= bottom ==> {
                &&& forall|i: int|
                    0 <= i < g.rows && (i < row || i > bottom) ==> shows_same(
                        #[trigger] after.lines[i],
                        g.lines[i],
                    )
                &&& forall|i: int|
                    row <= i <= bottom && i < row + count ==> is_fresh(
                        #[trigger] after.lines[i],
                        g.cols as int,
                    )
                &&& forall|i: int|
                    row <= i && i + count <= bottom ==> shows_same(
                        after.lines[i + count],
                        #[trigger] g.lines[i],
                    )
            }
        }),
{
}

/// Deleting lines in the scroll region takes rows out at the cursor's row and moves the rows below
/// them up, with blank rows at the bottom of the region; rows above the cursor and below the region
/// show what they showed. Outside the region nothing happens.
pub proof fn law_deleted_lines_leave_at_the_cursor(g: GridModel, count: usize)
    requires
        g.wf(),
    ensures
        ({
            let after = g.lines_deleted(count);
            let row = g.cursor.row as int;
            let bottom = g.scroll_region_bottom as int;
            &&& !(g.scroll_region_top <= row <= bottom) ==> after == g
            &&& after == (GridModel {
                lines: after.lines,
                scrollback: after.scrollback,
                alt_lines: after.alt_lines,
                ..g
            })
            &&& show_same(after.scrollback, g.scrollback)
            &&& after.alt_lines is Some == g.alt_lines is Some
            &&& after.alt_lines matches Some(alt) ==> show_same(alt, g.alt_lines->0)
            &&& after.lines.len() == g.rows
            &&& g.scroll_region_top <= row <= bottom ==> {
                &&& forall|i: int|
                    0 <= i < g.rows && (i < row || i > bottom) ==> shows_same(
                        #[trigger] after.lines[i],
                        g.lines[i],
                    )
                &&& forall|i: int|
                    row <= i <= bottom && i > bottom - count ==> is_fresh(
                        #[trigger] after.lines[i],
                        g.cols as int,
                    )
                &&& forall|i: int|
                    row + count <= i <= bottom ==> shows_same(
                        after.lines[i - count],
                        #[trigger] g.lines[i],
                    )
            }
        }),
{
}

/// Deleting as many lines as were inserted brings back every row but those that were pushed out at
/// the bottom of the region.
pub proof fn law_deleting_lines_undoes_inserting_them(g: GridModel, count: usize)
    requires
        g.wf(),
    ensures
        ({
            let back = g.lines_inserted(count).lines_deleted(count);
            &&& back.lines.len() == g.rows
            &&& forall|i: int|
                0 <= i < g.rows && !(g.scroll_region_top <= g.cursor.row <= i <= g.scroll_region_bottom
                    && i > g.scroll_region_bottom - count) ==> shows_same(
                    #[trigger] back.lines[i],
                    g.lines[i],
                )
        }),
{
}

/// Inserting characters puts blank cells in at the cursor and moves the cells from there on right;
/// the cells left of the cursor and all other rows stay. A cursor that stands on no cell changes
/// nothing.
pub proof fn law_inserted_characters_enter_at_the_cursor(g: GridModel, count: usize)
    requires
        g.wf(),
    ensures
        ({
            let after = g.chars_inserted(count);
            let row = g.cursor.row as int;
            let col = g.cursor.col as int;
            &&& after == (GridModel { lines: after.lines, ..g })
            &&& after.lines.len() == g.rows
            &&& !(row < g.rows && col < g.cols) ==> after == g
            &&& forall|r: int| 0 <= r < g.rows && r != row ==> #[trigger] after.lines[r] == g.lines[r]
            &&& row < g.rows && col < g.cols ==> {
                &&& after.lines[row] == (RowModel {
                    cells: after.lines[row].cells,
                    dirty: true,
                    ..g.lines[row]
                })
                &&& after.lines[row].cells.len() == g.cols
                &&& forall|c: int|
                    0 <= c < col ==> #[trigger] after.lines[row].cells[c] == g.lines[row].cells[c]
                &&& forall|c: int|
                    col <= c < g.cols && c < col + count ==> is_blank(
                        #[trigger] after.lines[row].cells[c],
                    )
                &&& forall|c: int|
                    col <= c && c + count < g.cols ==> after.lines[row].cells[c + count]
                        == #[trigger] g.lines[row].cells[c]
            }
        }),
{
}

/// Deleting characters takes cells out at the cursor and moves the cells behind them left, with
/// blank cells at the end of the row; the cells left of the cursor and all other rows stay. A cursor
/// that stands on no cell changes nothing.
pub proof fn law_deleted_characters_leave_at_the_cursor(g: GridModel, count: usize)
    requires
        g.wf(),
    ensures
        ({
            let after = g.chars_deleted(count);
            let row = g.cursor.row as int;
            let col = g.cursor.col as int;
            &&& after == (GridModel { lines: after.lines, ..g })
            &&& after.lines.len() == g.rows
            &&& !(row < g.rows && col < g.cols) ==> after == g
            &&& forall|r: int| 0 <= r < g.rows && r != row ==> #[trigger] after.lines[r] == g.lines[r]
            &&& row < g.rows && col < g.cols ==> {
                &&& after.lines[row] == (RowModel {
                    cells: after.lines[row].cells,
                    dirty: true,
                    ..g.lines[row]
                })
                &&& after.lines[row].cells.len() == g.cols
                &&& forall|c: int|
                    0 <= c < col ==> #[trigger] after.lines[row].cells[c] == g.lines[row].cells[c]
                &&& forall|c: int|
                    col <= c < g.cols && c >= g.cols - count ==> is_blank(
                        #[trigger] after.lines[row].cells[c],
                    )
                &&& forall|c: int|
                    col + count <= c < g.cols ==> after.lines[row].cells[c - count]
                        == #[trigger] g.lines[row].cells[c]
            }
        }),
{
}

/// Deleting as many characters as were inserted brings back every cell but those that were pushed
/// out at the end of the row.
pub proof fn law_deleting_characters_undoes_inserting_them(g: GridModel, count: usize)
    requires
        g.wf(),
        g.cursor.row < g.rows,
        g.cursor.col < g.cols,
    ensures
        ({
            let back = g.chars_inserted(count).chars_deleted(count);
            let row = g.cursor.row as int;
            forall|c: int|
                0 <= c < g.cols && (c < g.cursor.col || c + count < g.cols)
                    ==> #[trigger] back.lines[row].cells[c] == g.lines[row].cells[c]
        }),
{
}

/// Scrolling up moves the rows of the region up: each shows what the one `count` rows below it
/// showed, and blank rows come in at the bottom. Rows outside the region and the cursors stay, and
/// every row of the region is drawn again.
pub proof fn law_scrolling_up_moves_the_region(g: GridModel, count: usize)
    requires
        g.wf(),
    ensures
        ({
            let after = g.scrolled_up(count);
            let top = g.scroll_region_top as int;
            let bottom = g.scroll_region_bottom as int;
            &&& after.lines.len() == g.rows
            &&& forall|i: int|
                0 <= i < g.rows && (i < top || i > bottom) ==> shows_same(
                    #[trigger] after.lines[i],
                    g.lines[i],
                )
            &&& forall|i: int|
                top + count <= i <= bottom ==> shows_same(
                    after.lines[i - count],
                    #[trigger] g.lines[i],
                )
            &&& forall|i: int|
                top <= i <= bottom && i > bottom - count ==> is_fresh(
                    #[trigger] after.lines[i],
                    g.cols as int,
                )
            &&& forall|i: int|
                top <= i <= bottom && count > 0 ==> (#[trigger] after.lines[i]).dirty
            &&& after.cursor == g.cursor
            &&& after.saved_cursor == g.saved_cursor
            &&& after.rows == g.rows && after.cols == g.cols
            &&& after.scroll_region_top == top && after.scroll_region_bottom == bottom
            &&& after.images == g.images && after.virtual_placements == g.virtual_placements
        }),
{
}

/// Scrolling down moves the rows of the region down: each shows what the one `count` rows above it
/// showed, and blank rows come in at the top; every row of the region is drawn again. Nothing else
/// changes, the history in particular.
pub proof fn law_scrolling_down_moves_the_region(g: GridModel, count: usize)
    requires
        g.wf(),
    ensures
        ({
            let after = g.scrolled_down(count);
            let top = g.scroll_region_top as int;
            let bottom = g.scroll_region_bottom as int;
            &&& after == (GridModel { lines: after.lines, ..g })
            &&& after.lines.len() == g.rows
            &&& forall|i: int|
                0 <= i < g.rows && (i < top || i > bottom) ==> #[trigger] after.lines[i] == g.lines[i]
            &&& forall|i: int|
                top <= i && i + count <= bottom ==> shows_same(
                    after.lines[i + count],
                    #[trigger] g.lines[i],
                )
            &&& forall|i: int|
                top <= i <= bottom && i < top + count ==> is_fresh(
                    #[trigger] after.lines[i],
                    g.cols as int,
                )
            &&& forall|i: int|
                top <= i <= bottom && count > 0 ==> (#[trigger] after.lines[i]).dirty
        }),
{
}

/// Scrolling the whole primary screen up hands the rows that leave at the top to the history, newest
/// last, and the history keeps its newest rows up to its limit. Scrolling any other region, or the
/// alternate screen, leaves the history alone.
pub proof fn law_scrolled_rows_enter_the_history(g: GridModel, count: usize)
    requires
        g.wf(),
        g.scrollback.len() <= g.max_scrollback,
    ensures
        ({
            let after = g.scrolled_up(count);
            let n = if count < g.scroll_region_bottom - g.scroll_region_top + 1 {
                count as int
            } else {
                g.scroll_region_bottom - g.scroll_region_top + 1
            };
            let whole = g.scroll_region_top == 0 && g.scroll_region_bottom == g.rows - 1;
            if whole && g.alt_lines is None && g.max_scrollback > 0 {
                let all = g.scrollback + g.lines.take(n);
                let lost = all.len() - after.scrollback.len();
                &&& lost == (if all.len() > g.max_scrollback {
                    all.len() - g.max_scrollback
                } else {
                    0
                })
                &&& forall|i: int|
                    0 <= i < after.scrollback.len() ==> shows_same(
                        #[trigger] after.scrollback[i],
                        all[lost + i],
                    )
            } else {
                &&& after == (GridModel { lines: after.lines, ..g })
            }
        }),
{
}

/// A tab, a return or a step back changes the column of the cursor and nothing else.
pub proof fn law_moving_in_a_row_changes_the_column_only(g: GridModel, col: usize)
    ensures
        g.at_column(col) == (GridModel {
            cursor: Cursor {
                row: g.cursor.row,
                col,
                visible: g.cursor.visible,
                shape: g.cursor.shape,
            },
            ..g
        }),
{
}

/// Entering the alternate screen shows a fresh one with the cursor in its corner, and leaves the
/// history, the images and the scroll region as they are. Entering it twice is entering it once.
pub proof fn law_the_alternate_screen_starts_fresh(g: GridModel)
    requires
        g.wf(),
    ensures
        ({
            let after = g.alt_entered();
            &&& g.alt_lines is Some ==> after == g
            &&& g.alt_lines is None ==> {
                &&& after.lines.len() == g.rows
                &&& forall|r: int|
                    0 <= r < g.rows ==> is_fresh(#[trigger] after.lines[r], g.cols as int)
                &&& after.cursor.row == 0 && after.cursor.col == 0 && after.cursor.visible
                &&& after.saved_cursor.row == 0 && after.saved_cursor.col == 0
                &&& after.placements.len() == 0
                &&& after.alt_lines == Some(g.lines)
                &&& after.alt_cursor == Some(g.cursor)
                &&& after.alt_saved_cursor == Some(g.saved_cursor)
                &&& after.alt_placements == g.placements
                &&& after.viewport_offset == 0
                &&& after.scrollback == g.scrollback
                &&& after.images == g.images
                &&& after.rows == g.rows && after.cols == g.cols
                &&& after.scroll_region_top == g.scroll_region_top
                &&& after.scroll_region_bottom == g.scroll_region_bottom
            }
            &&& after.alt_entered() == after
        }),
{
}

/// Leaving the alternate screen shows the primary one from its screen on, with the cursors and the
/// placements that it had, and draws all of it; the history and the images stay. Without an alternate
/// screen nothing changes.
pub proof fn law_leaving_the_alternate_screen(g: GridModel)
    ensures
        ({
            let after = g.alt_left();
            &&& g.alt_lines is None ==> after == g
            &&& g.alt_lines matches Some(primary) ==> {
                &&& after.lines.len() == primary.len()
                &&& forall|r: int|
                    0 <= r < primary.len() ==> shows_same(#[trigger] after.lines[r], primary[r])
                        && after.lines[r].dirty
                &&& g.alt_cursor matches Some(c) ==> after.cursor == c
                &&& g.alt_saved_cursor matches Some(c) ==> after.saved_cursor == c
                &&& after.placements == g.alt_placements
                &&& after.alt_lines is None && after.alt_cursor is None
                &&& after.alt_saved_cursor is None && after.alt_placements.len() == 0
                &&& after.viewport_offset == 0
                &&& after.scrollback.len() == g.scrollback.len()
                &&& after.images == g.images && after.virtual_placements == g.virtual_placements
                &&& after.prompt_marks == g.prompt_marks
                &&& after.rows == g.rows && after.cols == g.cols
            }
        }),
{
}

/// Detaching all hyperlinks changes nothing else of a cell, on either screen or in the history.
pub proof fn law_detaching_hyperlinks_keeps_the_text(g: GridModel, r: int, c: int)
    ensures
        ({
            let after = g.unlinked();
            &&& after == (GridModel {
                lines: after.lines,
                scrollback: after.scrollback,
                alt_lines: after.alt_lines,
                ..g
            })
            &&& after.lines.len() == g.lines.len()
            &&& after.scrollback.len() == g.scrollback.len()
            &&& 0 <= r < g.lines.len() && 0 <= c < g.lines[r].cells.len() ==> after.lines[r].cells[c]
                == (Cell { hyperlink: 0, ..g.lines[r].cells[c] }) && after.lines[r].wrapped
                == g.lines[r].wrapped && after.lines[r].placeholders == g.lines[r].placeholders
            &&& 0 <= r < g.scrollback.len() && 0 <= c < g.scrollback[r].cells.len()
                ==> after.scrollback[r].cells[c] == (Cell {
                hyperlink: 0,
                ..g.scrollback[r].cells[c]
            })
            &&& g.alt_lines matches Some(alt) ==> {
                &&& after.alt_lines is Some && after.alt_lines->0.len() == alt.len()
                &&& 0 <= r < alt.len() && 0 <= c < alt[r].cells.len()
                    ==> after.alt_lines->0[r].cells[c] == (Cell { hyperlink: 0, ..alt[r].cells[c] })
            }
        }),
{
}

/// A new grid is blank, without a history, images or prompts, with the cursor in its corner and the
/// scroll region over the whole screen.
pub proof fn law_new_grids_are_blank(cols: usize, rows: usize, max: usize)
    ensures
        ({
            let g = GridModel::fresh(cols, rows, max);
            &&& g.cols == (if cols == 0 {
                1
            } else {
                cols
            })
            &&& g.rows == (if rows == 0 {
                1
            } else {
                rows
            })
            &&& g.max_scrollback == max
            &&& g.lines.len() == g.rows
            &&& forall|r: int| 0 <= r < g.rows ==> is_fresh(#[trigger] g.lines[r], g.cols as int)
            &&& g.scrollback.len() == 0 && g.viewport_offset == 0
            &&& g.placements.len() == 0 && g.alt_placements.len() == 0
            &&& forall|id: u32| !#[trigger] g.images.contains_key(id)
            &&& forall|id: u32| !#[trigger] g.virtual_placements.contains_key(id)
            &&& forall|m: usize| !#[trigger] g.prompt_marks.contains(m)
            &&& g.cursor.row == 0 && g.cursor.col == 0 && g.cursor.visible
            &&& g.saved_cursor == g.cursor
            &&& g.scroll_region_top == 0 && g.scroll_region_bottom == g.rows - 1
            &&& g.alt_lines is None && g.total_evicted_rows == 0
        }),
{
}

/// Marking everything for redrawing changes no text.
pub proof fn law_redrawing_changes_no_text(g: GridModel)
    ensures
        ({
            let after = g.redrawn();
            &&& after == (GridModel {
                lines: after.lines,
                scrollback: after.scrollback,
                alt_lines: after.alt_lines,
                ..g
            })
            &&& show_same(after.lines, g.lines)
            &&& show_same(after.scrollback, g.scrollback)
            &&& after.alt_lines is Some == g.alt_lines is Some
            &&& after.alt_lines matches Some(alt) ==> show_same(alt, g.alt_lines->0)
            &&& forall|i: int| 0 <= i < after.lines.len() ==> (#[trigger] after.lines[i]).dirty
            &&& forall|i: int|
                0 <= i < after.scrollback.len() ==> (#[trigger] after.scrollback[i]).dirty
            &&& after.alt_lines matches Some(alt) ==> forall|i: int|
                0 <= i < alt.len() ==> (#[trigger] alt[i]).dirty
        }),
{
}

} // verus!
