//! What writing does to the screen, and how rows pass into the history and out of it.

use crate::color::Color;
use crate::grid::diacritics::{diacritic_number, KITTY_PLACEHOLDER};
use crate::grid::edit::{cell_width, display_width, styled_cell};
use crate::grid::edit_laws::{show_same, shows_same};
use crate::grid::model::{
    capped_sum, clamped, floored_difference, least, moved_up, most, rebased, GridModel,
};
use crate::grid::row::{Cell, CellFlags, Cursor};
use crate::grid::scroll::{is_first_mark, is_last_mark};
use crate::kitty::ImagePlacement;
use vstd::prelude::*;

verus! {

/// Sums and differences that stop at the ends of their range, and the smaller and the larger of two
/// numbers.
pub proof fn law_bounded_numbers(a: int, b: int)
    requires
        0 <= a <= usize::MAX,
        0 <= b <= usize::MAX,
    ensures
        least(a, b) <= a && least(a, b) <= b && (least(a, b) == a || least(a, b) == b),
        most(a, b) >= a && most(a, b) >= b && (most(a, b) == a || most(a, b) == b),
        capped_sum(a, b) == a + b || capped_sum(a, b) == usize::MAX && a + b > usize::MAX,
        floored_difference(a, b) == a - b || floored_difference(a, b) == 0 && a < b,
{
}

/// Every attribute of a cell has a bit of its own, and a cell has an attribute where that bit is set;
/// the underlines are the five of them together.
pub proof fn law_attributes_have_bits(flags: CellFlags, other: CellFlags)
    ensures
        CellFlags::empty().bits == 0,
        CellFlags::bold().bits == 0x1,
        CellFlags::dim().bits == 0x2,
        CellFlags::italic().bits == 0x4,
        CellFlags::underline().bits == 0x8,
        CellFlags::reverse().bits == 0x10,
        CellFlags::hidden().bits == 0x20,
        CellFlags::strikethrough().bits == 0x40,
        CellFlags::wide_char().bits == 0x80,
        CellFlags::wide_char_spacer().bits == 0x100,
        CellFlags::underline_double().bits == 0x200,
        CellFlags::underline_curly().bits == 0x400,
        CellFlags::underline_dotted().bits == 0x800,
        CellFlags::underline_dashed().bits == 0x1000,
        CellFlags::wrap_spacer().bits == 0x2000,
        CellFlags::all_underlines().bits == 0x8 + 0x200 + 0x400 + 0x800 + 0x1000,
        flags.has(other) <==> flags.bits & other.bits == other.bits,
{
}

/// A cursor brought back onto a screen stands on a cell of it, moves no further than it must and
/// keeps its looks.
pub proof fn law_cursors_come_back_onto_the_screen(c: Cursor, rows: usize, cols: usize)
    requires
        rows >= 1,
        cols >= 1,
    ensures
        ({
            let r = clamped(c, rows, cols);
            &&& r.row < rows && r.col < cols
            &&& c.row < rows ==> r.row == c.row
            &&& c.row >= rows ==> r.row == rows - 1
            &&& c.col < cols ==> r.col == c.col
            &&& c.col >= cols ==> r.col == cols - 1
            &&& r.visible == c.visible && r.shape == c.shape
        }),
{
}

/// A written cell has the character, the colors and the attributes that were asked for; printable
/// ASCII takes one column and other characters take what they are wide.
pub proof fn law_cells_keep_their_style(
    c: char,
    fg: Color,
    bg: Color,
    flags: CellFlags,
    line: Color,
    link: Option<u32>,
)
    ensures
        ({
            let cell = styled_cell(c, fg, bg, flags, line, link);
            &&& cell.c == c
            &&& cell.fg == fg
            &&& cell.bg == bg
            &&& cell.flags == flags
            &&& cell.underline_color == line
            &&& link matches Some(n) ==> cell.hyperlink == n
            &&& link is None ==> cell.hyperlink == 0
        }),
        ' ' <= c <= '~' ==> cell_width(c) == 1,
        c > '~' && c != '\u{7f}' && display_width(c) is Some ==> cell_width(c) == display_width(
            c,
        )->0,
{
}

/// A character that has room on the cursor's row is written there: its first cell shows it in its
/// style, a second one is its right half, and the cursor stands behind it. Every other cell, the
/// other rows, and everything but the screen and the cursor's column stay.
pub proof fn law_characters_are_written_at_the_cursor(g: GridModel, cell: Cell, w: int)
    requires
        g.wf(),
        g.cursor.row < g.rows,
        1 <= w <= 2,
        g.cursor.col + w <= g.cols,
    ensures
        ({
            let after = g.typed(cell, w);
            let row = g.cursor.row as int;
            let col = g.cursor.col as int;
            let line = after.lines[row];
            &&& after == (GridModel { lines: after.lines, cursor: after.cursor, ..g })
            &&& after.cursor == (Cursor { col: (col + w) as usize, ..g.cursor })
            &&& after.lines.len() == g.rows
            &&& forall|r: int| 0 <= r < g.rows && r != row ==> #[trigger] after.lines[r] == g.lines[r]
            &&& line.cells.len() == g.cols
            &&& forall|c: int|
                0 <= c < g.cols && !(col <= c < col + w) ==> #[trigger] line.cells[c]
                    == g.lines[row].cells[c]
            &&& line.cells[col] == (Cell { flags: line.cells[col].flags, ..cell })
            &&& w == 1 ==> line.cells[col].flags == cell.flags
            &&& w == 2 ==> {
                &&& line.cells[col].flags.bits == cell.flags.bits | 0x80
                &&& line.cells[col + 1] == (Cell {
                    c: ' ',
                    flags: line.cells[col + 1].flags,
                    ..cell
                })
                &&& line.cells[col + 1].flags.bits == cell.flags.bits | 0x100
            }
            &&& line.wrapped == g.lines[row].wrapped
            &&& line.dirty
            &&& forall|k: usize|
                k != col ==> #[trigger] line.placeholders.contains_key(k)
                    == g.lines[row].placeholders.contains_key(k)
            &&& forall|k: usize|
                k != col && #[trigger] line.placeholders.contains_key(k) ==> line.placeholders[k]
                    == g.lines[row].placeholders[k]
            &&& line.placeholders.contains_key(col as usize) == (cell.c == KITTY_PLACEHOLDER)
        }),
{
}

/// An image placeholder without numbers of its own shows the image column right of the placeholder
/// on its left, where that belongs to the same image, and otherwise the corner of the image.
pub proof fn law_placeholders_continue_their_neighbours(g: GridModel, cell: Cell)
    requires
        g.wf(),
        g.cursor.row < g.rows,
        g.cursor.col < g.cols,
        cell.c == KITTY_PLACEHOLDER,
        g.placeholder_fits(cell.c, cell.fg),
    ensures
        ({
            let after = g.typed(cell, 1);
            let before = g.lines[g.cursor.row as int];
            let now = after.lines[g.cursor.row as int].placeholders[g.cursor.col];
            let (row, col, read) = now;
            &&& read == 0
            &&& g.cursor.col == 0 ==> row == 0 && col == 0
            &&& g.cursor.col > 0 ==> {
                let left = (g.cursor.col - 1) as usize;
                if before.placeholders.contains_key(left) && before.cells[left as int].fg
                    == cell.fg {
                    let (r, c, _) = before.placeholders[left];
                    row == r && col == c + 1
                } else {
                    row == 0 && col == 0
                }
            }
        }),
{
}

/// A character without room goes to the start of the next row, and the row it did not fit on is
/// marked as continued. At the bottom of the region the screen scrolls first, and the last row of the
/// screen is written over where it lies below the region.
pub proof fn law_text_wraps_to_the_next_row(g: GridModel, cell: Cell, w: int)
    requires
        g.wf(),
        g.cursor.row < g.rows,
        1 <= w <= 2,
        w <= g.cols,
        g.cursor.col + w > g.cols,
    ensures
        ({
            let after = g.typed(cell, w);
            let row = g.cursor.row as int;
            let to = if row == g.scroll_region_bottom || row == g.rows - 1 {
                row
            } else {
                row + 1
            };
            &&& after.cursor == (Cursor { row: to as usize, col: w as usize, ..g.cursor })
            &&& after.lines[to].cells[0].c == cell.c
            &&& after.lines[to].cells[0].fg == cell.fg && after.lines[to].cells[0].bg == cell.bg
            &&& after.lines[to].cells[0].hyperlink == cell.hyperlink
            &&& w == 1 ==> after.lines[to].cells[0] == cell
            &&& to > row ==> {
                &&& after.lines[row].cells == g.lines[row].cells
                &&& after.lines[row].wrapped
                &&& after == (GridModel { lines: after.lines, cursor: after.cursor, ..g })
                &&& forall|r: int|
                    0 <= r < g.rows && r != row && r != to ==> #[trigger] after.lines[r]
                        == g.lines[r]
                &&& forall|c: int|
                    w <= c < g.cols ==> #[trigger] after.lines[to].cells[c] == g.lines[to].cells[c]
                &&& after.lines[to].wrapped == g.lines[to].wrapped
            }
            &&& row == g.scroll_region_bottom && g.scroll_region_top < row ==> {
                &&& after.lines[row - 1].cells == g.lines[row].cells
                &&& after.lines[row - 1].wrapped
                &&& !after.lines[row].wrapped
                &&& forall|r: int|
                    g.scroll_region_top <= r < row - 1 ==> shows_same(
                        #[trigger] after.lines[r],
                        g.lines[r + 1],
                    )
            }
        }),
{
}

/// A character without columns never moves the cursor or changes a cell. On a placeholder left of the
/// cursor its number is the image row at first and the image column after that; elsewhere it is
/// dropped.
pub proof fn law_combining_characters_number_placeholders(g: GridModel, cell: Cell)
    requires
        g.wf(),
    ensures
        ({
            let after = g.typed(cell, 0);
            let row = g.cursor.row as int;
            let left = (g.cursor.col - 1) as usize;
            let named = g.cursor.row < g.rows && 0 < g.cursor.col <= g.cols
                && g.lines[row].cells[left as int].c == KITTY_PLACEHOLDER
                && g.lines[row].placeholders.contains_key(left);
            match diacritic_number(cell.c) {
                Some(n) if named => {
                    let (r, c, read) = g.lines[row].placeholders[left];
                    let (r2, c2, read2) = after.lines[row].placeholders[left];
                    &&& after == (GridModel { lines: after.lines, ..g })
                    &&& forall|i: int|
                        0 <= i < g.rows && i != row ==> #[trigger] after.lines[i] == g.lines[i]
                    &&& after.lines[row].cells == g.lines[row].cells
                    &&& after.lines[row].wrapped == g.lines[row].wrapped
                    &&& after.lines[row].placeholders.dom() =~= g.lines[row].placeholders.dom()
                    &&& forall|k: usize|
                        k != left && #[trigger] g.lines[row].placeholders.contains_key(k)
                            ==> after.lines[row].placeholders[k] == g.lines[row].placeholders[k]
                    &&& read == 0 ==> r2 == n && c2 == c && read2 == 1
                    &&& read == 1 ==> r2 == r && c2 == n && read2 == 2
                    &&& read >= 2 ==> r2 == r && c2 == c
                },
                _ => after == g,
            }
        }),
{
}

/// With the cursor below the screen nothing is written.
pub proof fn law_nothing_is_written_below_the_screen(g: GridModel, cell: Cell, w: int)
    requires
        g.cursor.row >= g.rows,
        w >= 1,
    ensures
        g.typed(cell, w) == g,
{
}

/// What is anchored to rows moves up with them when rows above are forgotten, in the same order, and
/// what is anchored to a forgotten row goes: placement by placement.
pub proof fn law_placements_move_with_their_rows(ps: Seq<ImagePlacement>, p: ImagePlacement, n: usize)
    ensures
        rebased(Seq::empty(), n).len() == 0,
        p.line < n ==> rebased(ps.push(p), n) == rebased(ps, n),
        p.line >= n ==> rebased(ps.push(p), n) == rebased(ps, n).push(
            ImagePlacement { line: (p.line - n) as usize, ..p },
        ),
{
    reveal(Seq::filter);
    let keep = |x: ImagePlacement| x.line >= n;
    let all = ps.push(p);
    assert(all.drop_last() =~= ps);
    assert(Seq::<ImagePlacement>::empty().filter(keep) =~= Seq::<ImagePlacement>::empty());
    if p.line >= n {
        assert(all.filter(keep) == ps.filter(keep).push(p));
        assert(rebased(all, n) =~= rebased(ps, n).push(moved_up(p, n)));
    }
}

/// Rows that enter the history come behind those it holds, and it forgets its oldest rows past its
/// limit. Whatever was anchored to a row keeps to it: the prompts by a number that does not change,
/// the placements by one that follows. A viewport in the history stays on what it shows.
pub proof fn law_the_history_forgets_its_oldest_rows(g: GridModel, rows: Seq<crate::grid::row::RowModel>)
    requires
        g.scrollback.len() <= g.max_scrollback,
        g.viewport_offset <= g.scrollback.len(),
        g.scrollback.len() + rows.len() <= usize::MAX,
        g.total_evicted_rows + g.scrollback.len() + rows.len() <= usize::MAX,
    ensures
        ({
            let after = g.with_history(rows);
            let all = g.scrollback + rows;
            let lost = if all.len() > g.max_scrollback {
                all.len() - g.max_scrollback
            } else {
                0
            };
            &&& after.scrollback.len() == all.len() - lost
            &&& forall|i: int|
                0 <= i < after.scrollback.len() ==> shows_same(
                    #[trigger] after.scrollback[i],
                    all[lost + i],
                )
            &&& after.total_evicted_rows == g.total_evicted_rows + lost
            &&& lost == 0 ==> after.placements == g.placements && after.prompt_marks
                == g.prompt_marks
            &&& lost > 0 ==> after.placements == rebased(g.placements, lost as usize)
            &&& lost > 0 ==> forall|m: usize|
                #![trigger after.prompt_marks.contains(m)]
                after.prompt_marks.contains(m) <==> g.prompt_marks.contains(m) && m
                    >= g.total_evicted_rows + lost
            &&& g.viewport_offset == 0 ==> after.viewport_offset == 0
            &&& g.viewport_offset > 0 ==> after.viewport_offset == (if g.viewport_offset + rows.len()
                <= after.scrollback.len() {
                g.viewport_offset + rows.len()
            } else {
                after.scrollback.len() as int
            })
            &&& show_same(after.lines, g.lines)
            &&& after.cursor == g.cursor
        }),
{
    let after = g.with_history(rows);
    let all = g.scrollback + rows;
    if rows.len() > 0 {
        let lost = g.overflow(rows.len() as int);
        assert(after.scrollback.len() == all.len() - lost);
    } else {
        assert(all =~= g.scrollback);
    }
}

/// The viewport shows consecutive rows of the history and the screen, from as many rows above the
/// screen on as it is scrolled up; the alternate screen is always shown itself.
pub proof fn law_the_viewport_shows_consecutive_rows(g: GridModel, row: int)
    requires
        g.wf(),
        0 <= row < g.rows,
    ensures
        g.alt_lines is Some ==> g.shown(row) == g.lines[row],
        g.alt_lines is None ==> g.shown(row) == (g.scrollback + g.lines)[g.scrollback.len()
            - g.viewport_offset + row],
{
}

/// Moving the viewport moves nothing else, and moving it nowhere does nothing.
pub proof fn law_moving_the_viewport_moves_nothing_else(g: GridModel, offset: usize)
    ensures
        ({
            let after = g.viewing(offset);
            &&& after.viewport_offset == offset
            &&& after == (GridModel {
                viewport_offset: offset,
                lines: after.lines,
                scrollback: after.scrollback,
                alt_lines: after.alt_lines,
                ..g
            })
            &&& show_same(after.lines, g.lines)
            &&& show_same(after.scrollback, g.scrollback)
            &&& offset == g.viewport_offset ==> after == g
            &&& offset != g.viewport_offset ==> forall|i: int|
                0 <= i < after.lines.len() ==> (#[trigger] after.lines[i]).dirty
        }),
{
}

/// A prompt starts on a row exactly where the mark with that row's number is set, counted from the
/// first row that was ever forgotten.
pub proof fn law_marks_count_forgotten_rows(g: GridModel, row: int)
    requires
        0 <= row,
        g.total_evicted_rows + row <= usize::MAX,
    ensures
        g.has_mark(row) <==> g.prompt_marks.contains((g.total_evicted_rows + row) as usize),
{
}

/// Going to the previous prompt shows the nearest one above the top of the viewport at the top, and
/// there is none above where it does not move.
pub proof fn law_the_previous_prompt_is_the_nearest_above(g: GridModel)
    requires
        g.wf(),
        g.total_evicted_rows + g.scrollback.len() <= usize::MAX,
    ensures
        ({
            let top = g.total_evicted_rows + g.scrollback.len() - g.viewport_offset;
            match g.prompt_above() {
                Some(m) => {
                    &&& g.prompt_marks.contains(m)
                    &&& g.total_evicted_rows <= m < top
                    &&& forall|x: usize|
                        #![trigger g.prompt_marks.contains(x)]
                        g.prompt_marks.contains(x) && g.total_evicted_rows <= x < top ==> x <= m
                    &&& g.total_evicted_rows + g.scrollback.len() - g.offset_of_mark(m) == m
                },
                None => forall|x: usize|
                    #![trigger g.prompt_marks.contains(x)]
                    g.prompt_marks.contains(x) ==> !(g.total_evicted_rows <= x < top),
            }
        }),
{
    let low = g.total_evicted_rows as int;
    let top = g.total_evicted_rows + g.scrollback.len() - g.viewport_offset;
    if let Some(m) = g.prompt_above() {
        assert(is_last_mark(g.prompt_marks, low, g.view_top_mark(), m));
    } else {
        assert forall|x: usize| #[trigger] g.prompt_marks.contains(x) implies !(low <= x < top) by {
            if low <= x < top {
                let y = lemma_last_mark(g.prompt_marks, low, top, x);
                assert(is_last_mark(g.prompt_marks, low, g.view_top_mark(), y));
            }
        }
    }
}

/// Where a mark lies in a range, a last one does.
proof fn lemma_last_mark(marks: Set<usize>, low: int, high: int, x: usize) -> (m: usize)
    requires
        marks.contains(x),
        low <= x < high,
    ensures
        is_last_mark(marks, low, high, m),
    decreases high - x,
{
    if exists|y: usize| #[trigger] marks.contains(y) && x < y < high {
        let y = choose|y: usize| #[trigger] marks.contains(y) && x < y < high;
        lemma_last_mark(marks, low, high, y)
    } else {
        x
    }
}

/// Where a mark lies above a bound, a first one does.
proof fn lemma_first_mark(marks: Set<usize>, low: int, x: usize) -> (m: usize)
    requires
        marks.contains(x),
        low < x,
    ensures
        is_first_mark(marks, low, m),
    decreases x,
{
    if exists|y: usize| #[trigger] marks.contains(y) && low < y < x {
        let y = choose|y: usize| #[trigger] marks.contains(y) && low < y < x;
        lemma_first_mark(marks, low, y)
    } else {
        x
    }
}

/// Going to the next prompt shows the nearest one below the top of the viewport: at the top where it
/// lies in the history, and with the viewport on the screen where it lies there.
pub proof fn law_the_next_prompt_is_the_nearest_below(g: GridModel)
    requires
        g.wf(),
        g.total_evicted_rows + g.scrollback.len() <= usize::MAX,
    ensures
        ({
            let top = g.total_evicted_rows + g.scrollback.len() - g.viewport_offset;
            match g.prompt_below() {
                Some(m) => {
                    &&& g.prompt_marks.contains(m)
                    &&& top < m
                    &&& forall|x: usize|
                        #![trigger g.prompt_marks.contains(x)]
                        g.prompt_marks.contains(x) && top < x ==> m <= x
                    &&& m <= g.total_evicted_rows + g.scrollback.len() ==> g.total_evicted_rows
                        + g.scrollback.len() - g.offset_of_mark(m) == m
                    &&& m > g.total_evicted_rows + g.scrollback.len() ==> g.offset_of_mark(m) == 0
                },
                None => forall|x: usize|
                    #![trigger g.prompt_marks.contains(x)]
                    g.prompt_marks.contains(x) ==> x <= top,
            }
        }),
{
    let top = g.total_evicted_rows + g.scrollback.len() - g.viewport_offset;
    if let Some(m) = g.prompt_below() {
        assert(is_first_mark(g.prompt_marks, g.view_top_mark(), m));
    } else {
        assert forall|x: usize| #[trigger] g.prompt_marks.contains(x) implies x <= top by {
            if x > top {
                let y = lemma_first_mark(g.prompt_marks, top, x);
                assert(is_first_mark(g.prompt_marks, g.view_top_mark(), y));
            }
        }
    }
}

} // verus!
