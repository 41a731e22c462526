//! Where text and cursors go when the width changes, read off the rows themselves.

use crate::grid::edit_laws::shows_same;
use crate::grid::laws::no_fillers;
use crate::grid::model::{least, GridModel};
use crate::grid::reflow::{
    coord_at, filler, is_filler, lemma_piece_len, locate, piece_len, piece_row, row_items, sheet_of,
    text_len, wrapped_rows, Item, LineModel,
};
use crate::grid::row::{blank_cell, Cell, CellFlags, RowModel};
use vstd::prelude::*;

verus! {

/// Whether a cell is text of its line: not one that only fills the end of a row whose wide character
/// moved on.
pub open spec fn is_text(c: Cell) -> bool {
    c.flags.bits & 0x2000 != 0x2000
}

/// The text in the first `n` cells of a row, with the image coordinates of each cell.
pub open spec fn row_text(row: RowModel, n: int) -> Seq<Item>
    decreases n,
{
    if n <= 0 {
        Seq::empty()
    } else if is_text(row.cells[n - 1]) {
        let at = (n - 1) as usize;
        row_text(row, n - 1).push(
            (
                row.cells[n - 1],
                if row.placeholders.contains_key(at) {
                    Some(row.placeholders[at])
                } else {
                    None
                },
            ),
        )
    } else {
        row_text(row, n - 1)
    }
}

/// The text of a line before a place on one of its rows: that of the rows above, as long as they are
/// continued, and that of the cells left of the place.
pub open spec fn text_before(rows: Seq<RowModel>, row: int, col: int) -> Seq<Item>
    decreases row,
{
    if row > 0 && rows[row - 1].wrapped {
        text_before(rows, row - 1, rows[row - 1].cells.len() as int) + row_text(rows[row], col)
    } else {
        row_text(rows[row], col)
    }
}

/// How many lines end above a row.
pub open spec fn lines_above(rows: Seq<RowModel>, row: int) -> int
    decreases row,
{
    if row <= 0 {
        0
    } else {
        lines_above(rows, row - 1) + (if rows[row - 1].wrapped {
            0int
        } else {
            1int
        })
    }
}

/// What the cells of a row contribute to its line is their text.
pub proof fn law_rows_contribute_their_text(row: RowModel, n: int)
    requires
        n <= usize::MAX,
    ensures
        row_items(row, n) == row_text(row, n),
    decreases n,
{
    if n > 0 {
        law_rows_contribute_their_text(row, n - 1);
    }
}

/// The text of a row ends behind its last cell that is not blank.
pub proof fn law_text_ends_behind_the_last_cell(cells: Seq<Cell>)
    ensures
        0 <= text_len(cells) <= cells.len(),
        forall|i: int|
            text_len(cells) <= i < cells.len() ==> crate::grid::edit_laws::is_blank(
                #[trigger] cells[i],
            ),
        text_len(cells) > 0 ==> !crate::grid::edit_laws::is_blank(cells[text_len(cells) - 1]),
    decreases cells.len(),
{
    if cells.len() > 0 && cells.last() == blank_cell() {
        law_text_ends_behind_the_last_cell(cells.drop_last());
        assert forall|i: int| text_len(cells) <= i < cells.len() implies
            crate::grid::edit_laws::is_blank(#[trigger] cells[i]) by {
            if i < cells.len() - 1 {
                assert(cells.drop_last()[i] == cells[i]);
            }
        }
    }
}

proof fn lemma_flags()
    ensures
        is_filler(filler()),
        !is_filler(blank_cell()),
{
    assert((0u16 | 0x2000u16) & 0x2000u16 == 0x2000u16) by (bit_vector);
    assert(0u16 & 0x2000u16 != 0x2000u16) by (bit_vector);
}

/// The text of the first cells of a row that is made of items.
proof fn lemma_piece_text(items: Seq<Item>, from: int, cols: int, i: int)
    requires
        0 <= from <= items.len(),
        1 <= cols <= usize::MAX,
        no_fillers(items),
        0 <= i <= cols,
        i <= least(items.len() - from, cols),
    ensures
        row_text(piece_row(items, from, cols), i) == items.subrange(
            from,
            from + least(i, piece_len(items, from, cols)),
        ),
    decreases i,
{
    lemma_piece_len(items, from, cols);
    lemma_flags();
    let n = piece_len(items, from, cols);
    let row = piece_row(items, from, cols);
    if i > 0 {
        lemma_piece_text(items, from, cols, i - 1);
        if i <= n {
            assert(row.cells[i - 1] == items[from + i - 1].0);
            assert(!is_filler(items[from + i - 1].0));
            assert(((i - 1) as usize) == i - 1);
            assert(items.subrange(from, from + i) =~= items.subrange(from, from + i - 1).push(
                items[from + i - 1],
            ));
        } else {
            assert(row.cells[i - 1] == filler());
        }
    } else {
        assert(items.subrange(from, from) =~= Seq::<Item>::empty());
    }
}

proof fn lemma_row_text_same(a: RowModel, b: RowModel, n: int)
    requires
        shows_same(a, b),
    ensures
        row_text(a, n) == row_text(b, n),
    decreases n,
{
    if n > 0 {
        lemma_row_text_same(a, b, n - 1);
    }
}

/// Rows that show the same up to a row have the same text before a place on it.
proof fn lemma_text_before_same(a: Seq<RowModel>, b: Seq<RowModel>, row: int, col: int)
    requires
        0 <= row < a.len(),
        row < b.len(),
        forall|i: int| 0 <= i <= row ==> shows_same(#[trigger] a[i], b[i]),
    ensures
        text_before(a, row, col) == text_before(b, row, col),
        lines_above(a, row) == lines_above(b, row),
    decreases row,
{
    assert(shows_same(a[row], b[row]));
    lemma_row_text_same(a[row], b[row], col);
    if row > 0 {
        assert(shows_same(a[row - 1], b[row - 1]));
        lemma_text_before_same(a, b, row - 1, a[row - 1].cells.len() as int);
    }
}

proof fn lemma_lines_above_same(a: Seq<RowModel>, b: Seq<RowModel>, n: int)
    requires
        n <= a.len(),
        n <= b.len(),
        forall|i: int| 0 <= i < n ==> #[trigger] a[i] == b[i],
    ensures
        lines_above(a, n) == lines_above(b, n),
    decreases n,
{
    if n > 0 {
        assert(a[n - 1] == b[n - 1]);
        lemma_lines_above_same(a, b, n - 1);
    }
}

/// A line that starts behind other rows has the same text there.
proof fn lemma_text_behind(pre: Seq<RowModel>, x: Seq<RowModel>, row: int, col: int)
    requires
        0 <= row < x.len(),
        pre.len() == 0 || !pre.last().wrapped,
    ensures
        text_before(pre + x, pre.len() + row, col) == text_before(x, row, col),
        lines_above(pre + x, pre.len() + row) == lines_above(pre, pre.len() as int) + lines_above(
            x,
            row,
        ),
    decreases row,
{
    let all = pre + x;
    assert(all[pre.len() + row] == x[row]);
    if row > 0 {
        assert(all[pre.len() + row - 1] == x[row - 1]);
        lemma_text_behind(pre, x, row - 1, x[row - 1].cells.len() as int);
    } else {
        if pre.len() > 0 {
            assert(all[pre.len() - 1] == pre.last());
        }
        lemma_lines_above_same(all, pre, pre.len() as int);
    }
}

/// A continued row comes before the text of the rows below it that continue it.
proof fn lemma_text_continued(x: RowModel, rest: Seq<RowModel>, row: int, col: int)
    requires
        0 <= row < rest.len(),
        x.wrapped,
        forall|j: int| 0 <= j < row ==> (#[trigger] rest[j]).wrapped,
    ensures
        text_before(seq![x] + rest, row + 1, col) == row_text(x, x.cells.len() as int) + text_before(
            rest,
            row,
            col,
        ),
        lines_above(seq![x] + rest, row + 1) == lines_above(rest, row),
    decreases row,
{
    let all = seq![x] + rest;
    assert(all[row + 1] == rest[row]);
    if row > 0 {
        assert(all[row] == rest[row - 1]);
        lemma_text_continued(x, rest, row - 1, rest[row - 1].cells.len() as int);
        assert(rest[row - 1].wrapped);
        assert(text_before(all, row + 1, col) =~= row_text(x, x.cells.len() as int) + text_before(
            rest,
            row,
            col,
        ));
    } else {
        assert(all[0] == x);
        assert(text_before(all, 0, x.cells.len() as int) == row_text(x, x.cells.len() as int));
        assert(lines_above(all, 1) == lines_above(all, 0));
    }
}

/// The rows of a line end it once, at the last one.
proof fn lemma_wrapped_ends(items: Seq<Item>, from: int, cols: int)
    requires
        0 <= from <= items.len(),
        cols >= 1,
    ensures
        ({
            let w = wrapped_rows(items, from, cols);
            &&& w.len() >= 1
            &&& !w.last().wrapped
            &&& forall|j: int| 0 <= j < w.len() - 1 ==> (#[trigger] w[j]).wrapped
            &&& lines_above(w, w.len() as int) == 1
            &&& lines_above(w, w.len() - 1) == 0
        }),
    decreases items.len() - from,
{
    lemma_piece_len(items, from, cols);
    let n = piece_len(items, from, cols);
    let w = wrapped_rows(items, from, cols);
    let piece = piece_row(items, from, cols);
    if n < 1 || from + n >= items.len() {
        assert(w[0] == piece);
        assert(lines_above(w, 0) == 0);
        assert(lines_above(w, 1) == 1);
    } else {
        lemma_wrapped_ends(items, from + n, cols);
        let rest = wrapped_rows(items, from + n, cols);
        assert forall|j: int| 0 <= j < w.len() - 1 implies (#[trigger] w[j]).wrapped by {
            if j > 0 {
                assert(w[j] == rest[j - 1]);
            }
        }
        assert(w.last() == rest.last());
        lemma_text_continued(piece, rest, rest.len() - 1, 0);
        assert(lines_above(w, w.len() - 1) == 0);
    }
}

/// Where an item of a line ends up on the rows of the line.
proof fn lemma_located(items: Seq<Item>, from: int, at: int, cols: int)
    requires
        0 <= from <= items.len(),
        from == 0 || from < items.len(),
        from <= at <= items.len(),
        1 <= cols <= usize::MAX,
        no_fillers(items),
    ensures
        ({
            let w = wrapped_rows(items, from, cols);
            let (r, c) = locate(items, from, at, cols);
            let text = text_before(w, r, c);
            &&& 0 <= r < w.len()
            &&& 0 <= c < cols
            &&& forall|j: int| 0 <= j < r ==> (#[trigger] w[j]).wrapped
            &&& lines_above(w, r) == 0
            &&& text == items.subrange(from, at) || at == items.len() && c == cols - 1 && at > from
                && text == items.subrange(from, at - 1)
            &&& at < items.len() ==> text == items.subrange(from, at) && w[r].cells[c]
                == items[at].0
        }),
    decreases items.len() - from,
{
    lemma_piece_len(items, from, cols);
    let n = piece_len(items, from, cols);
    let w = wrapped_rows(items, from, cols);
    let piece = piece_row(items, from, cols);
    let (r, c) = locate(items, from, at, cols);
    assert(w[0] == piece);
    if n < 1 || from + n >= items.len() || at < from + n {
        lemma_piece_text(items, from, cols, c);
        assert(text_before(w, 0, c) == row_text(piece, c));
    } else {
        let rest = wrapped_rows(items, from + n, cols);
        lemma_located(items, from + n, at, cols);
        lemma_piece_text(items, from, cols, cols);
        lemma_text_continued(piece, rest, r - 1, c);
        assert(w[r] == rest[r - 1]);
        assert forall|j: int| 0 <= j < r implies (#[trigger] w[j]).wrapped by {
            if j > 0 {
                assert(w[j] == rest[j - 1]);
            }
        }
        assert(piece.cells.len() == cols);
        let front = items.subrange(from, from + n);
        assert(front + items.subrange(from + n, at) =~= items.subrange(from, at));
        if at > from + n {
            assert(front + items.subrange(from + n, at - 1) =~= items.subrange(from, at - 1));
        }
    }
}

/// The rows of a sheet end as many lines as there are.
proof fn lemma_sheet_lines(lines: Seq<LineModel>, cols: int)
    requires
        cols >= 1,
    ensures
        ({
            let rows = sheet_of(lines, cols).rows;
            &&& lines_above(rows, rows.len() as int) == lines.len()
            &&& rows.len() == 0 || !rows.last().wrapped
            &&& lines.len() > 0 ==> rows.len() > 0
        }),
    decreases lines.len(),
{
    if lines.len() > 0 {
        let front = lines.drop_last();
        lemma_sheet_lines(front, cols);
        let pre = sheet_of(front, cols).rows;
        let w = wrapped_rows(lines.last().items, 0, cols);
        lemma_wrapped_ends(lines.last().items, 0, cols);
        let all = pre + w;
        lemma_text_behind(pre, w, w.len() - 1, 0);
        assert(all.last() == w.last());
        assert(all[all.len() - 1] == w.last());
        assert(lines_above(all, all.len() as int) == lines_above(all, all.len() - 1) + 1);
    }
}

/// Where an item of a line ends up on the sheet: on a row of that line, behind the same text.
proof fn lemma_on_sheet(lines: Seq<LineModel>, k: int, at: int, cols: int)
    requires
        0 <= k < lines.len(),
        forall|j: int| 0 <= j < lines.len() ==> no_fillers((#[trigger] lines[j]).items),
        0 <= at <= lines[k].items.len(),
        1 <= cols <= usize::MAX,
    ensures
        ({
            let rows = sheet_of(lines, cols).rows;
            let items = lines[k].items;
            let (r, c) = locate(items, 0, at, cols);
            let row = sheet_of(lines.take(k), cols).rows.len() + r;
            let text = text_before(rows, row, c);
            &&& 0 <= row < rows.len()
            &&& 0 <= c < cols
            &&& lines_above(rows, row) == k
            &&& text == items.take(at) || at == items.len() && c == cols - 1 && at > 0 && text
                == items.take(at - 1)
            &&& at < items.len() ==> text == items.take(at) && rows[row].cells[c] == items[at].0
        }),
    decreases lines.len(),
{
    let front = lines.drop_last();
    let pre = sheet_of(front, cols).rows;
    let w = wrapped_rows(lines.last().items, 0, cols);
    let rows = sheet_of(lines, cols).rows;
    let items = lines[k].items;
    let (r, c) = locate(items, 0, at, cols);
    lemma_sheet_lines(front, cols);
    if k == lines.len() - 1 {
        assert(lines.take(k) =~= front);
        assert(no_fillers(lines[k].items));
        lemma_located(items, 0, at, cols);
        lemma_text_behind(pre, w, r, c);
        assert(rows[pre.len() + r] == w[r]);
        assert(items.subrange(0, at) =~= items.take(at));
        if at > 0 {
            assert(items.subrange(0, at - 1) =~= items.take(at - 1));
        }
    } else {
        assert forall|j: int| 0 <= j < front.len() implies no_fillers(
            (#[trigger] front[j]).items,
        ) by {
            assert(front[j] == lines[j]);
        }
        assert(front[k] == lines[k]);
        lemma_on_sheet(front, k, at, cols);
        assert(front.take(k) =~= lines.take(k));
        let row = sheet_of(front.take(k), cols).rows.len() + r;
        lemma_text_before_same(rows, pre, row, c);
        assert(rows[row] == pre[row]);
    }
}

/// More cells of a row contribute more items behind the same ones.
proof fn lemma_items_prefix(row: RowModel, a: int, b: int)
    requires
        0 <= a <= b,
    ensures
        row_items(row, a).len() <= row_items(row, b).len(),
        row_items(row, b).take(row_items(row, a).len() as int) == row_items(row, a),
        a < b && !is_filler(row.cells[a]) ==> row_items(row, a).len() < row_items(row, b).len()
            && row_items(row, b)[row_items(row, a).len() as int] == (
            row.cells[a],
            coord_at(row.placeholders, a),
        ),
    decreases b - a,
{
    let first = row_items(row, a);
    let whole = row_items(row, b);
    if a == b {
        assert(first.take(first.len() as int) =~= first);
    } else {
        lemma_items_prefix(row, a, b - 1);
        let front = row_items(row, b - 1);
        assert(whole.take(first.len() as int) =~= front.take(first.len() as int));
    }
}

/// The row of one of the two cursors, counted from the oldest row.
pub open spec fn cursor_row(g: GridModel, saved: bool) -> int {
    g.scrollback.len() + (if saved {
        g.saved_cursor.row
    } else {
        g.cursor.row
    })
}

/// The column of one of the two cursors; one past the row counts as its end.
pub open spec fn cursor_col(g: GridModel, saved: bool) -> int {
    let col = if saved {
        g.saved_cursor.col
    } else {
        g.cursor.col
    };
    if col < g.cols {
        col as int
    } else {
        g.cols as int
    }
}

spec fn followed(line: LineModel, saved: bool) -> Option<int> {
    if saved {
        line.saved
    } else {
        line.cursor
    }
}

/// Up to the lower cursor the gathered lines are those of the rows.
proof fn lemma_gather_text(g: GridModel, n: int)
    requires
        g.wf(),
        0 <= n <= g.row_count(),
        n <= g.cursor_abs() + 1 || n <= g.saved_abs() + 1,
    ensures
        ({
            let rows = g.scrollback + g.lines;
            let (done, open) = g.lines_of_rows(n);
            &&& done.len() == lines_above(rows, n)
            &&& open.items == (if n > 0 && rows[n - 1].wrapped {
                text_before(rows, n - 1, rows[n - 1].cells.len() as int)
            } else {
                Seq::empty()
            })
        }),
    decreases n,
{
    if n > 0 {
        lemma_gather_text(g, n - 1);
        let rows = g.scrollback + g.lines;
        let row = g.row_at(n - 1);
        assert(rows[n - 1] == row);
        assert(row.cells.len() == g.cols);
        if n > 1 {
            assert(rows[n - 2] == g.row_at(n - 2));
        }
        law_rows_contribute_their_text(row, row.cells.len() as int);
        let (done, open) = g.lines_of_rows(n - 1);
        assert(open.items + row_text(row, row.cells.len() as int) =~= text_before(
            rows,
            n - 1,
            row.cells.len() as int,
        ));
    }
}

/// Whether one line of a list holds a cursor at a place behind a text, and no other line holds it.
spec fn holds(lines: Seq<LineModel>, k: int, saved: bool, text: Seq<Item>) -> bool {
    &&& 0 <= k < lines.len()
    &&& followed(lines[k], saved) == Some(text.len() as int)
    &&& text.len() <= lines[k].items.len()
    &&& lines[k].items.take(text.len() as int) == text
    &&& forall|j: int|
        0 <= j < lines.len() && j != k ==> followed(#[trigger] lines[j], saved) is None
}

/// Before its row no line holds a cursor.
proof fn lemma_not_yet(g: GridModel, saved: bool, n: int)
    requires
        0 <= n <= cursor_row(g, saved),
    ensures
        forall|j: int|
            0 <= j < g.lines_of_rows(n).0.len() ==> followed(
                #[trigger] g.lines_of_rows(n).0[j],
                saved,
            ) is None,
        followed(g.lines_of_rows(n).1, saved) is None,
    decreases n,
{
    if n > 0 {
        lemma_not_yet(g, saved, n - 1);
    }
}

/// From its row on one gathered line holds a cursor, behind the text that comes before it.
proof fn lemma_gather_place(g: GridModel, saved: bool, n: int)
    requires
        g.wf(),
        cursor_row(g, saved) < n <= g.row_count(),
        cursor_col(g, saved) < g.cols ==> is_text(
            (g.scrollback + g.lines)[cursor_row(g, saved)].cells[cursor_col(g, saved)],
        ),
    ensures
        ({
            let rows = g.scrollback + g.lines;
            let (done, open) = g.lines_of_rows(n);
            let all = done.push(open);
            let abs = cursor_row(g, saved);
            let col = cursor_col(g, saved);
            let k = lines_above(rows, abs);
            let text = text_before(rows, abs, col);
            &&& holds(all, k, saved, text)
            &&& col < g.cols ==> text.len() < all[k].items.len() && all[k].items[text.len() as int].0
                == rows[abs].cells[col]
        }),
    decreases n,
{
    let rows = g.scrollback + g.lines;
    let abs = cursor_row(g, saved);
    let col = cursor_col(g, saved);
    let k = lines_above(rows, abs);
    let text = text_before(rows, abs, col);
    let (done, open) = g.lines_of_rows(n - 1);
    let row = g.row_at(n - 1);
    assert(rows[n - 1] == row);
    let line = g.line_extended(open, n - 1);
    let before = done.push(open);
    let (done2, open2) = g.lines_of_rows(n);
    let all = done2.push(open2);
    if n == abs + 1 {
        lemma_gather_text(g, abs);
        lemma_not_yet(g, saved, abs);
        if abs > 0 {
            assert(rows[abs - 1] == g.row_at(abs - 1));
        }
        let used = g.used_len(abs);
        assert(row.cells.len() == g.cols);
        law_text_ends_behind_the_last_cell(row.cells);
        lemma_items_prefix(row, col, used);
        law_rows_contribute_their_text(row, col);
        assert(open.items + row_items(row, col) =~= text);
        assert(line.items.take(text.len() as int) =~= text);
        assert(followed(line, saved) == Some(text.len() as int));
        assert(all[k] == line);
        assert forall|j: int| 0 <= j < all.len() && j != k implies followed(
            #[trigger] all[j],
            saved,
        ) is None by {
            if j < done.len() {
                assert(all[j] == done[j]);
            }
        }
    } else {
        lemma_gather_place(g, saved, n - 1);
        assert(before[k].items.take(text.len() as int) == text);
        if !g.is_trailing_blank(open, n - 1) {
            if k == done.len() {
                assert(line.items.take(text.len() as int) =~= open.items.take(text.len() as int));
                assert(all[k] == line);
            } else {
                assert(all[k] == before[k]);
                assert(before[done.len() as int] == open);
            }
            assert forall|j: int| 0 <= j < all.len() && j != k implies followed(
                #[trigger] all[j],
                saved,
            ) is None by {
                if j < done.len() {
                    assert(all[j] == before[j]);
                } else if j == done.len() {
                    assert(before[j] == open);
                    assert(all[j] == line);
                }
            }
        }
    }
}

/// The spot of a cursor on a sheet whose only line with that cursor is known.
proof fn lemma_sheet_spot(lines: Seq<LineModel>, k: int, saved: bool, cols: int)
    requires
        0 <= k < lines.len(),
        followed(lines[k], saved) is Some,
        forall|j: int|
            0 <= j < lines.len() && j != k ==> followed(#[trigger] lines[j], saved) is None,
    ensures
        ({
            let sheet = sheet_of(lines, cols);
            let (r, c) = locate(lines[k].items, 0, followed(lines[k], saved)->0, cols);
            let spot = Some((sheet_of(lines.take(k), cols).rows.len() + r, c));
            if saved {
                sheet.saved == spot
            } else {
                sheet.cursor == spot
            }
        }),
    decreases lines.len(),
{
    let front = lines.drop_last();
    if k == lines.len() - 1 {
        assert(lines.take(k) =~= front);
    } else {
        assert(front[k] == lines[k]);
        assert forall|j: int| 0 <= j < front.len() && j != k implies followed(
            #[trigger] front[j],
            saved,
        ) is None by {
            assert(front[j] == lines[j]);
        }
        lemma_sheet_spot(front, k, saved, cols);
        assert(front.take(k) =~= lines.take(k));
        assert(followed(lines[lines.len() - 1], saved) is None);
    }
}

proof fn lemma_lines_no_fillers(g: GridModel, n: int)
    requires
        g.wf(),
        n <= g.row_count(),
    ensures
        forall|i: int|
            0 <= i < g.lines_of_rows(n).0.len() ==> no_fillers(
                (#[trigger] g.lines_of_rows(n).0[i]).items,
            ),
        no_fillers(g.lines_of_rows(n).1.items),
    decreases n,
{
    if n > 0 {
        lemma_lines_no_fillers(g, n - 1);
        let row = g.row_at(n - 1);
        let more = row_items(row, g.used_len(n - 1));
        lemma_items_no_fillers(row, g.used_len(n - 1));
        let (done, open) = g.lines_of_rows(n - 1);
        let line = g.line_extended(open, n - 1);
        assert forall|i: int| 0 <= i < line.items.len() implies !is_filler(
            (#[trigger] line.items[i]).0,
        ) by {
            if i < open.items.len() {
                assert(line.items[i] == open.items[i]);
            } else {
                assert(line.items[i] == more[i - open.items.len()]);
            }
        }
    }
}

proof fn lemma_items_no_fillers(row: RowModel, n: int)
    ensures
        no_fillers(row_items(row, n)),
    decreases n,
{
    if n > 0 {
        lemma_items_no_fillers(row, n - 1);
    }
}

/// Where a cursor goes on the rows of another width.
proof fn lemma_cursor_goes(g: GridModel, saved: bool, cols: usize) -> (spot: (int, int))
    requires
        g.wf(),
        cursor_row(g, saved) < g.row_count(),
        cursor_col(g, saved) < g.cols ==> is_text(
            (g.scrollback + g.lines)[cursor_row(g, saved)].cells[cursor_col(g, saved)],
        ),
        cols >= 1,
    ensures
        ({
            let rows = g.scrollback + g.lines;
            let sheet = sheet_of(g.logical_lines(), cols as int);
            let text = text_before(rows, cursor_row(g, saved), cursor_col(g, saved));
            let now = text_before(sheet.rows, spot.0, spot.1);
            &&& (if saved {
                sheet.saved
            } else {
                sheet.cursor
            }) == Some(spot)
            &&& 0 <= spot.0 < sheet.rows.len()
            &&& 0 <= spot.1 < cols
            &&& lines_above(sheet.rows, spot.0) == lines_above(rows, cursor_row(g, saved))
            &&& now == text || cursor_col(g, saved) == g.cols && spot.1 == cols - 1 && text.len() > 0
                && now == text.drop_last()
            &&& cursor_col(g, saved) < g.cols ==> now == text && sheet.rows[spot.0].cells[spot.1]
                == rows[cursor_row(g, saved)].cells[cursor_col(g, saved)]
        }),
{
    let rows = g.scrollback + g.lines;
    let n = g.row_count();
    let (done, open) = g.lines_of_rows(n);
    let all = done.push(open);
    let k = lines_above(rows, cursor_row(g, saved));
    let text = text_before(rows, cursor_row(g, saved), cursor_col(g, saved));
    let lines = g.logical_lines();
    lemma_gather_place(g, saved, n);
    lemma_lines_no_fillers(g, n);
    assert(k < lines.len() && lines[k] == all[k]) by {
        if k == done.len() {
            assert(all[k] == open);
        } else {
            assert(all[k] == done[k]);
        }
    }
    assert forall|j: int| 0 <= j < lines.len() implies no_fillers((#[trigger] lines[j]).items) by {
        if j < done.len() {
            assert(lines[j] == done[j]);
        }
    }
    assert forall|j: int| 0 <= j < lines.len() && j != k implies followed(
        #[trigger] lines[j],
        saved,
    ) is None by {
        assert(lines[j] == all[j]);
    }
    lemma_on_sheet(lines, k, text.len() as int, cols as int);
    lemma_sheet_spot(lines, k, saved, cols as int);
    let (r, c) = locate(lines[k].items, 0, text.len() as int, cols as int);
    if text.len() > 0 {
        assert(lines[k].items.take(text.len() - 1) =~= lines[k].items.take(
            text.len() as int,
        ).drop_last());
    }
    (sheet_of(lines.take(k), cols as int).rows.len() + r, c)
}

/// A change of width keeps the cursor at its place in the text: it stands in the same line, behind
/// the same text and on the same cell as before. Only where it stood behind a full row and the text
/// before it fills the rows of the new width too, it stands on the last cell of that text. This is
/// read off the rows of the history and the screen, as long as none of them is forgotten.
pub proof fn law_the_cursor_keeps_its_place_in_the_text(g: GridModel, cols: usize, rows: usize)
    requires
        g.wf(),
        g.alt_lines is None,
        g.cursor.row < g.rows,
        g.cursor.col < g.cols ==> is_text(g.lines[g.cursor.row as int].cells[g.cursor.col as int]),
        cols >= 1,
        cols != g.cols,
        rows >= 1,
        g.total_evicted_rows < usize::MAX,
        g.resized(cols, rows).total_evicted_rows == g.total_evicted_rows,
    ensures
        ({
            let after = g.resized(cols, rows);
            let old_rows = g.scrollback + g.lines;
            let new_rows = after.scrollback + after.lines;
            let col = if g.cursor.col < g.cols {
                g.cursor.col
            } else {
                g.cols
            };
            let text = text_before(old_rows, g.scrollback.len() + g.cursor.row, col as int);
            let now = text_before(
                new_rows,
                after.scrollback.len() + after.cursor.row,
                after.cursor.col as int,
            );
            &&& after.cursor.row < rows && after.cursor.col < cols
            &&& lines_above(new_rows, after.scrollback.len() + after.cursor.row) == lines_above(
                old_rows,
                g.scrollback.len() + g.cursor.row,
            )
            &&& now == text || g.cursor.col >= g.cols && after.cursor.col == cols - 1 && text.len()
                > 0 && now == text.drop_last()
            &&& g.cursor.col < g.cols ==> now == text
                && after.lines[after.cursor.row as int].cells[after.cursor.col as int]
                == g.lines[g.cursor.row as int].cells[g.cursor.col as int]
            &&& after.cursor.visible == g.cursor.visible && after.cursor.shape == g.cursor.shape
        }),
{
    let old_rows = g.scrollback + g.lines;
    let at = cursor_row(g, false);
    assert(old_rows[at] == g.lines[g.cursor.row as int]);
    let spot = lemma_cursor_goes(g, false, cols);
    let after = g.resized(cols, rows);
    let sheet = sheet_of(g.logical_lines(), cols as int);
    let all = g.reflow_rows(cols, rows);
    let new_rows = after.scrollback + after.lines;
    let cut = g.reflow_cut(cols, rows);
    let top = all.len() - rows - cut;
    assert(after.scrollback.len() == top);
    assert(top <= spot.0 < top + rows);
    assert(top + after.cursor.row == spot.0);
    assert forall|i: int| 0 <= i <= spot.0 implies shows_same(#[trigger] new_rows[i], sheet.rows[i]) by {
        assert(all[i] == sheet.rows[i]);
        if i < top {
            assert(new_rows[i] == after.scrollback[i]);
        } else {
            assert(new_rows[i] == after.lines[i - top]);
        }
    }
    lemma_text_before_same(new_rows, sheet.rows, spot.0, spot.1);
    assert(new_rows[spot.0] == after.lines[after.cursor.row as int]);
}

/// The line of a row is not above that of an earlier row.
proof fn lemma_lines_above_grows(rows: Seq<RowModel>, a: int, b: int)
    requires
        0 <= a <= b,
    ensures
        lines_above(rows, a) <= lines_above(rows, b),
    decreases b - a,
{
    if a < b {
        lemma_lines_above_grows(rows, a, b - 1);
    }
}

/// Up to the bottom of the screen, the rows after a change of width that forgot none are those of the
/// sheet.
proof fn lemma_rows_of_sheet(g: GridModel, cols: usize, rows: usize, n: int)
    requires
        g.wf(),
        g.alt_lines is None,
        cols >= 1,
        cols != g.cols,
        rows >= 1,
        g.total_evicted_rows < usize::MAX,
        g.resized(cols, rows).total_evicted_rows == g.total_evicted_rows,
        0 <= n < sheet_of(g.logical_lines(), cols as int).rows.len(),
        n < g.resized(cols, rows).scrollback.len() + rows,
    ensures
        ({
            let after = g.resized(cols, rows);
            let new_rows = after.scrollback + after.lines;
            let sheet = sheet_of(g.logical_lines(), cols as int);
            &&& after.lines.len() == rows
            &&& forall|i: int|
                0 <= i <= n ==> shows_same(#[trigger] new_rows[i], sheet.rows[i])
        }),
{
    let after = g.resized(cols, rows);
    let new_rows = after.scrollback + after.lines;
    let sheet = sheet_of(g.logical_lines(), cols as int);
    let all = g.reflow_rows(cols, rows);
    let cut = g.reflow_cut(cols, rows);
    let top = all.len() - rows - cut;
    assert(after.scrollback.len() == top);
    assert forall|i: int| 0 <= i <= n implies shows_same(#[trigger] new_rows[i], sheet.rows[i]) by {
        assert(all[i] == sheet.rows[i]);
        if i < top {
            assert(new_rows[i] == after.scrollback[i]);
        } else {
            assert(new_rows[i] == after.lines[i - top]);
        }
    }
}

/// Where the rows of the sheet go below the bottom of the screen, the last row of the screen belongs
/// to no later line than a row that went.
proof fn lemma_below_the_bottom(g: GridModel, cols: usize, rows: usize, row: int)
    requires
        g.wf(),
        g.alt_lines is None,
        cols >= 1,
        cols != g.cols,
        rows >= 1,
        g.total_evicted_rows < usize::MAX,
        g.resized(cols, rows).total_evicted_rows == g.total_evicted_rows,
        row < sheet_of(g.logical_lines(), cols as int).rows.len(),
        row >= g.resized(cols, rows).scrollback.len() + rows,
    ensures
        ({
            let after = g.resized(cols, rows);
            let new_rows = after.scrollback + after.lines;
            let sheet = sheet_of(g.logical_lines(), cols as int);
            lines_above(new_rows, new_rows.len() - 1) <= lines_above(sheet.rows, row)
        }),
{
    let after = g.resized(cols, rows);
    let new_rows = after.scrollback + after.lines;
    let sheet = sheet_of(g.logical_lines(), cols as int);
    let last = after.scrollback.len() + rows - 1;
    lemma_rows_of_sheet(g, cols, rows, last);
    lemma_text_before_same(new_rows, sheet.rows, last, 0);
    lemma_lines_above_grows(sheet.rows, last, row);
}

/// Whether a place of one list of rows is, in another one, at the same place of the text: in the same
/// line and behind the same text.
pub open spec fn same_place(
    a: Seq<RowModel>,
    row_a: int,
    col_a: int,
    b: Seq<RowModel>,
    row_b: int,
    col_b: int,
) -> bool {
    &&& lines_above(a, row_a) == lines_above(b, row_b)
    &&& text_before(a, row_a, col_a) == text_before(b, row_b, col_b)
}

/// A change of width keeps the saved cursor at its place in the text as well: on the first row where
/// that place is above the screen, and on the last one where it was cut off below it.
pub proof fn law_the_saved_cursor_keeps_its_place_in_the_text(g: GridModel, cols: usize, rows: usize)
    requires
        g.wf(),
        g.alt_lines is None,
        g.saved_cursor.row < g.rows,
        g.saved_cursor.col < g.cols,
        is_text(g.lines[g.saved_cursor.row as int].cells[g.saved_cursor.col as int]),
        cols >= 1,
        cols != g.cols,
        rows >= 1,
        g.total_evicted_rows < usize::MAX,
        g.resized(cols, rows).total_evicted_rows == g.total_evicted_rows,
    ensures
        ({
            let after = g.resized(cols, rows);
            let old_rows = g.scrollback + g.lines;
            let new_rows = after.scrollback + after.lines;
            let at = g.scrollback.len() + g.saved_cursor.row;
            let top = after.scrollback.len();
            ||| exists|r: int|
                #![trigger same_place(old_rows, at, g.saved_cursor.col as int, new_rows, r, after.saved_cursor.col as int)]
                {
                    &&& 0 <= r < new_rows.len()
                    &&& same_place(
                        old_rows,
                        at,
                        g.saved_cursor.col as int,
                        new_rows,
                        r,
                        after.saved_cursor.col as int,
                    )
                    &&& after.saved_cursor.row == (if r < top {
                        0
                    } else {
                        r - top
                    })
                }
            ||| after.saved_cursor.row == rows - 1 && lines_above(new_rows, new_rows.len() - 1)
                <= lines_above(old_rows, at)
        }),
{
    let old_rows = g.scrollback + g.lines;
    let at = cursor_row(g, true);
    assert(old_rows[at] == g.lines[g.saved_cursor.row as int]);
    let spot = lemma_cursor_goes(g, true, cols);
    let after = g.resized(cols, rows);
    let sheet = sheet_of(g.logical_lines(), cols as int);
    let new_rows = after.scrollback + after.lines;
    if spot.0 < after.scrollback.len() + rows {
        lemma_rows_of_sheet(g, cols, rows, spot.0);
        lemma_text_before_same(new_rows, sheet.rows, spot.0, spot.1);
        assert(same_place(
            old_rows,
            at,
            g.saved_cursor.col as int,
            new_rows,
            spot.0,
            after.saved_cursor.col as int,
        ));
    } else {
        lemma_below_the_bottom(g, cols, rows, spot.0);
    }
}

/// Where the start of a row goes on the rows of another width: the spot of the item it starts with.
spec fn start_spot(g: GridModel, i: int, cols: int) -> (int, int) {
    let rows = g.scrollback + g.lines;
    let lines = g.logical_lines();
    let k = lines_above(rows, i);
    let (r, c) = locate(lines[k].items, 0, text_before(rows, i, 0).len() as int, cols);
    (sheet_of(lines.take(k), cols).rows.len() + r, c)
}

/// Whether a gathered line goes on behind the text before a row, and holds what the row anchors.
spec fn anchors(g: GridModel, line: LineModel, i: int) -> bool {
    let text = text_before(g.scrollback + g.lines, i, 0);
    &&& text.len() <= line.items.len()
    &&& line.items.take(text.len() as int) == text
    &&& g.is_view_top(i) ==> line.view == Some(text.len() as int)
    &&& g.has_mark(i) ==> line.marked
    &&& forall|q: int|
        0 <= q < g.placements.len() && (#[trigger] g.placements[q]).line == i
            ==> line.placements.contains((text.len() as int, g.placements[q]))
}

proof fn lemma_anchored(ps: Seq<crate::kitty::ImagePlacement>, row: int, at: int, q: int)
    requires
        0 <= q < ps.len(),
        ps[q].line == row,
    ensures
        crate::grid::reflow::anchored(ps, row, at).contains((at, ps[q])),
    decreases ps.len(),
{
    let all = crate::grid::reflow::anchored(ps, row, at);
    let front = crate::grid::reflow::anchored(ps.drop_last(), row, at);
    if q == ps.len() - 1 {
        assert(all.last() == (at, ps[q]));
    } else {
        assert(ps.drop_last()[q] == ps[q]);
        lemma_anchored(ps.drop_last(), row, at, q);
        let j = choose|j: int| 0 <= j < front.len() && front[j] == (at, ps[q]);
        assert(all[j] == front[j]);
    }
}

/// The line of a row that is not below both cursors holds what the row anchors.
proof fn lemma_gather_anchors(g: GridModel, i: int, n: int)
    requires
        g.wf(),
        0 <= i < n <= g.row_count(),
        i <= g.cursor_abs() || i <= g.saved_abs(),
    ensures
        ({
            let (done, open) = g.lines_of_rows(n);
            let all = done.push(open);
            let k = lines_above(g.scrollback + g.lines, i);
            &&& 0 <= k < all.len()
            &&& anchors(g, all[k], i)
        }),
    decreases n,
{
    let rows = g.scrollback + g.lines;
    let k = lines_above(rows, i);
    let text = text_before(rows, i, 0);
    let (done, open) = g.lines_of_rows(n - 1);
    let row = g.row_at(n - 1);
    assert(rows[n - 1] == row);
    let line = g.line_extended(open, n - 1);
    let before = done.push(open);
    let (done2, open2) = g.lines_of_rows(n);
    let all = done2.push(open2);
    if n == i + 1 {
        lemma_gather_text(g, i);
        if i > 0 {
            assert(rows[i - 1] == g.row_at(i - 1));
        }
        assert(open.items =~= text);
        assert(line.items.take(text.len() as int) =~= text);
        assert forall|q: int|
            0 <= q < g.placements.len() && (#[trigger] g.placements[q]).line == i implies line.placements.contains(
            (text.len() as int, g.placements[q]),
        ) by {
            lemma_anchored(g.placements, i, text.len() as int, q);
            let more = crate::grid::reflow::anchored(g.placements, i, text.len() as int);
            let j = choose|j: int|
                0 <= j < more.len() && more[j] == (text.len() as int, g.placements[q]);
            assert(line.placements[open.placements.len() + j] == more[j]);
        }
        assert(all[k] == line);
    } else {
        lemma_gather_anchors(g, i, n - 1);
        if !g.is_trailing_blank(open, n - 1) {
            if k == done.len() {
                assert(before[k] == open);
                assert(line.items.take(text.len() as int) =~= open.items.take(text.len() as int));
                assert forall|q: int|
                    0 <= q < g.placements.len() && (#[trigger] g.placements[q]).line
                        == i implies line.placements.contains(
                    (text.len() as int, g.placements[q]),
                ) by {
                    let j = choose|j: int|
                        0 <= j < open.placements.len() && open.placements[j] == (
                            text.len() as int,
                            g.placements[q],
                        );
                    assert(line.placements[j] == open.placements[j]);
                }
                assert(all[k] == line);
            } else {
                assert(all[k] == before[k]);
            }
        }
    }
}

/// While the line of a cursor is open, it holds the cursor.
proof fn lemma_open_with_cursor(g: GridModel, saved: bool, n: int)
    requires
        g.wf(),
        cursor_row(g, saved) < n <= g.row_count(),
    ensures
        ({
            let (done, open) = g.lines_of_rows(n);
            let k = lines_above(g.scrollback + g.lines, cursor_row(g, saved));
            &&& k <= done.len()
            &&& k == done.len() ==> followed(open, saved) is Some
        }),
    decreases n,
{
    let rows = g.scrollback + g.lines;
    let at = cursor_row(g, saved);
    assert(rows[n - 1] == g.row_at(n - 1));
    if n == at + 1 {
        lemma_gather_text(g, at);
    } else {
        lemma_open_with_cursor(g, saved, n - 1);
    }
}

/// The line of a row that is not below both cursors is one of the lines that are distributed, and
/// holds what the row anchors.
proof fn lemma_line_of_row(g: GridModel, i: int)
    requires
        g.wf(),
        0 <= i,
        g.cursor_abs() < g.row_count() && i <= g.cursor_abs() || g.saved_abs() < g.row_count() && i
            <= g.saved_abs(),
    ensures
        ({
            let lines = g.logical_lines();
            let k = lines_above(g.scrollback + g.lines, i);
            &&& 0 <= k < lines.len()
            &&& anchors(g, lines[k], i)
            &&& forall|j: int| 0 <= j < lines.len() ==> no_fillers((#[trigger] lines[j]).items)
        }),
{
    let rows = g.scrollback + g.lines;
    let n = g.row_count();
    let saved = !(g.cursor_abs() < g.row_count() && i <= g.cursor_abs());
    let k = lines_above(rows, i);
    lemma_gather_anchors(g, i, n);
    lemma_open_with_cursor(g, saved, n);
    lemma_lines_above_grows(rows, i, cursor_row(g, saved));
    lemma_lines_no_fillers(g, n);
    let (done, open) = g.lines_of_rows(n);
    let all = done.push(open);
    let lines = g.logical_lines();
    if k == done.len() {
        assert(all[k] == open);
    } else {
        assert(all[k] == done[k]);
    }
    assert forall|j: int| 0 <= j < lines.len() implies no_fillers((#[trigger] lines[j]).items) by {
        if j < done.len() {
            assert(lines[j] == done[j]);
        }
    }
}

/// The spot where the start of a row goes is at the same place of the text.
proof fn lemma_start_spot(g: GridModel, i: int, cols: int)
    requires
        g.wf(),
        0 <= i,
        g.cursor_abs() < g.row_count() && i <= g.cursor_abs() || g.saved_abs() < g.row_count() && i
            <= g.saved_abs(),
        1 <= cols <= usize::MAX,
    ensures
        ({
            let rows = g.scrollback + g.lines;
            let sheet = sheet_of(g.logical_lines(), cols);
            let (r, c) = start_spot(g, i, cols);
            let text = text_before(rows, i, 0);
            let now = text_before(sheet.rows, r, c);
            &&& 0 <= r < sheet.rows.len()
            &&& 0 <= c < cols
            &&& lines_above(sheet.rows, r) == lines_above(rows, i)
            &&& now == text || text.len() > 0 && c == cols - 1 && now == text.drop_last()
        }),
{
    let rows = g.scrollback + g.lines;
    let lines = g.logical_lines();
    let k = lines_above(rows, i);
    let text = text_before(rows, i, 0);
    lemma_line_of_row(g, i);
    lemma_on_sheet(lines, k, text.len() as int, cols);
    if text.len() > 0 {
        assert(lines[k].items.take(text.len() - 1) =~= lines[k].items.take(
            text.len() as int,
        ).drop_last());
    }
}

/// Whether a row of another list holds the text that a row starts with: it belongs to the same line,
/// and before one of its cells stands the text that stands before the row; only where the line ends
/// there, that cell may be the last one of the text.
pub open spec fn row_goes(
    old_rows: Seq<RowModel>,
    i: int,
    new_rows: Seq<RowModel>,
    r: int,
    c: int,
) -> bool {
    let text = text_before(old_rows, i, 0);
    let now = text_before(new_rows, r, c);
    &&& 0 <= r < new_rows.len()
    &&& 0 <= c < new_rows[r].cells.len()
    &&& lines_above(new_rows, r) == lines_above(old_rows, i)
    &&& now == text || text.len() > 0 && now == text.drop_last()
}

proof fn lemma_row_goes(g: GridModel, cols: usize, rows: usize, i: int)
    requires
        g.wf(),
        g.alt_lines is None,
        0 <= i,
        g.cursor_abs() < g.row_count() && i <= g.cursor_abs() || g.saved_abs() < g.row_count() && i
            <= g.saved_abs(),
        cols >= 1,
        cols != g.cols,
        rows >= 1,
        g.total_evicted_rows < usize::MAX,
        g.resized(cols, rows).total_evicted_rows == g.total_evicted_rows,
        start_spot(g, i, cols as int).0 < g.resized(cols, rows).scrollback.len() + rows,
    ensures
        ({
            let after = g.resized(cols, rows);
            let spot = start_spot(g, i, cols as int);
            row_goes(
                g.scrollback + g.lines,
                i,
                after.scrollback + after.lines,
                spot.0,
                spot.1,
            )
        }),
{
    let after = g.resized(cols, rows);
    let new_rows = after.scrollback + after.lines;
    let sheet = sheet_of(g.logical_lines(), cols as int);
    let (r, c) = start_spot(g, i, cols as int);
    lemma_start_spot(g, i, cols as int);
    lemma_rows_of_sheet(g, cols, rows, r);
    lemma_text_before_same(new_rows, sheet.rows, r, c);
    crate::grid::resize::lemma_sheet_wide(g.logical_lines(), cols);
    assert(sheet.rows[r].cells.len() == cols);
    assert(shows_same(new_rows[r], sheet.rows[r]));
}

/// A line that holds what a row anchors puts it on the sheet.
proof fn lemma_sheet_anchors(
    lines: Seq<LineModel>,
    k: int,
    at: int,
    p: crate::kitty::ImagePlacement,
    cols: int,
)
    requires
        0 <= k < lines.len(),
    ensures
        ({
            let sheet = sheet_of(lines, cols);
            let start = sheet_of(lines.take(k), cols).rows.len();
            let r = start + locate(lines[k].items, 0, at, cols).0;
            &&& lines[k].placements.contains((at, p)) ==> sheet.placements.contains(
                crate::kitty::ImagePlacement { line: r as usize, ..p },
            )
            &&& lines[k].marked ==> sheet.marks.contains(start as int)
        }),
    decreases lines.len(),
{
    let front = lines.drop_last();
    let before = sheet_of(front, cols);
    let line = lines.last();
    let start = before.rows.len() as int;
    let own = crate::grid::reflow::settled(line.items, start, line.placements, cols);
    let sheet = sheet_of(lines, cols);
    if k == lines.len() - 1 {
        assert(lines.take(k) =~= front);
        if line.placements.contains((at, p)) {
            let j = choose|j: int| 0 <= j < line.placements.len() && line.placements[j] == (at, p);
            assert(sheet.placements[before.placements.len() + j] == own[j]);
        }
    } else {
        assert(front[k] == lines[k]);
        lemma_sheet_anchors(front, k, at, p, cols);
        assert(front.take(k) =~= lines.take(k));
        let r = sheet_of(lines.take(k), cols).rows.len() + locate(lines[k].items, 0, at, cols).0;
        let moved = crate::kitty::ImagePlacement { line: r as usize, ..p };
        if lines[k].placements.contains((at, p)) {
            let j = choose|j: int|
                0 <= j < before.placements.len() && before.placements[j] == moved;
            assert(sheet.placements[j] == moved);
        }
    }
}

/// Placements that are kept above a row are those above it, wherever they stand in the list.
proof fn lemma_kept_above(ps: Seq<crate::kitty::ImagePlacement>, bound: int, p: crate::kitty::ImagePlacement)
    requires
        ps.contains(p),
        p.line < bound,
    ensures
        crate::grid::resize::placements_above(
            crate::grid::model::rebased(ps, 0),
            bound,
        ).contains(p),
{
    let all = crate::grid::model::rebased(ps, 0);
    let keep = |x: crate::kitty::ImagePlacement| x.line >= 0usize;
    let j = choose|j: int| 0 <= j < ps.len() && ps[j] == p;
    ps.filter_lemma(keep);
    assert(ps.filter(keep).contains(ps[j]));
    let a = choose|a: int| 0 <= a < ps.filter(keep).len() && ps.filter(keep)[a] == p;
    assert(all[a] == p);
    let below = |x: crate::kitty::ImagePlacement| x.line < bound;
    all.filter_lemma(below);
    assert(all.filter(below).contains(all[a]));
}

/// A change of width keeps images with their text: each placement stays, unchanged but for its row,
/// on the row that holds the text its row started with, unless that row is cut off below the screen.
/// This is said of placements that do not lie below both cursors.
pub proof fn law_images_keep_their_place_in_the_text(
    g: GridModel,
    cols: usize,
    rows: usize,
    q: int,
)
    requires
        g.wf(),
        g.alt_lines is None,
        g.cursor.row < g.rows,
        0 <= q < g.placements.len(),
        g.placements[q].line <= g.scrollback.len() + g.cursor.row,
        cols >= 1,
        cols != g.cols,
        rows >= 1,
        g.total_evicted_rows < usize::MAX,
        g.resized(cols, rows).total_evicted_rows == g.total_evicted_rows,
        g.resized(cols, rows).scrollback.len() + rows <= usize::MAX,
    ensures
        ({
            let after = g.resized(cols, rows);
            let old_rows = g.scrollback + g.lines;
            let new_rows = after.scrollback + after.lines;
            let p = g.placements[q];
            ||| exists|r: usize, c: int|
                #![trigger row_goes(old_rows, p.line as int, new_rows, r as int, c)]
                row_goes(old_rows, p.line as int, new_rows, r as int, c)
                    && after.placements.contains(
                    crate::kitty::ImagePlacement { line: r, ..p },
                )
            ||| lines_above(new_rows, new_rows.len() - 1) <= lines_above(old_rows, p.line as int)
        }),
{
    let after = g.resized(cols, rows);
    let old_rows = g.scrollback + g.lines;
    let new_rows = after.scrollback + after.lines;
    let p = g.placements[q];
    let i = p.line as int;
    let lines = g.logical_lines();
    let k = lines_above(old_rows, i);
    let text = text_before(old_rows, i, 0);
    let sheet = sheet_of(lines, cols as int);
    lemma_line_of_row(g, i);
    lemma_start_spot(g, i, cols as int);
    lemma_sheet_anchors(lines, k, text.len() as int, p, cols as int);
    let (r, c) = start_spot(g, i, cols as int);
    if r < after.scrollback.len() + rows {
        lemma_row_goes(g, cols, rows, i);
        let moved = crate::kitty::ImagePlacement { line: r as usize, ..p };
        lemma_kept_above(sheet.placements, after.scrollback.len() + rows, moved);
        assert(row_goes(old_rows, i, new_rows, (r as usize) as int, c));
        assert(after.placements.contains(moved));
    } else {
        lemma_below_the_bottom(g, cols, rows, r);
    }
}

/// A change of width keeps prompts: the line of a row on which a prompt starts has a mark on the row
/// it starts with, unless that row is cut off below the screen.
pub proof fn law_prompts_keep_their_lines(g: GridModel, cols: usize, rows: usize, i: int)
    requires
        g.wf(),
        g.alt_lines is None,
        g.cursor.row < g.rows,
        0 <= i <= g.scrollback.len() + g.cursor.row,
        g.has_mark(i),
        cols >= 1,
        cols != g.cols,
        rows >= 1,
        g.total_evicted_rows < usize::MAX,
        g.resized(cols, rows).total_evicted_rows == g.total_evicted_rows,
        g.resized(cols, rows).scrollback.len() + rows + g.total_evicted_rows <= usize::MAX,
    ensures
        ({
            let after = g.resized(cols, rows);
            let old_rows = g.scrollback + g.lines;
            let new_rows = after.scrollback + after.lines;
            ||| exists|r: int|
                #![trigger after.has_mark(r)]
                {
                    &&& 0 <= r < new_rows.len()
                    &&& after.has_mark(r)
                    &&& lines_above(new_rows, r) == lines_above(old_rows, i)
                    &&& r == 0 || !new_rows[r - 1].wrapped
                }
            ||| lines_above(new_rows, new_rows.len() - 1) <= lines_above(old_rows, i)
        }),
{
    let after = g.resized(cols, rows);
    let old_rows = g.scrollback + g.lines;
    let new_rows = after.scrollback + after.lines;
    let lines = g.logical_lines();
    let k = lines_above(old_rows, i);
    let sheet = sheet_of(lines, cols as int);
    lemma_line_of_row(g, i);
    if g.placements.len() > 0 {
        lemma_sheet_anchors(lines, k, 0, g.placements[0], cols as int);
    } else {
        lemma_sheet_anchors(lines, k, 0, arbitrary(), cols as int);
    }
    let r = sheet_of(lines.take(k), cols as int).rows.len() as int;
    lemma_on_sheet(lines, k, 0, cols as int);
    assert(locate(lines[k].items, 0, 0, cols as int) == (0int, 0int)) by {
        lemma_piece_len(lines[k].items, 0, cols as int);
    }
    if r < after.scrollback.len() + rows {
        lemma_rows_of_sheet(g, cols, rows, r);
        lemma_text_before_same(new_rows, sheet.rows, r, 0);
        lemma_sheet_lines(lines.take(k), cols as int);
        if r > 0 {
            lemma_sheet_prefix(lines, k, cols as int);
            assert(sheet.rows[r - 1] == sheet_of(lines.take(k), cols as int).rows[r - 1]);
            assert(shows_same(new_rows[r - 1], sheet.rows[r - 1]));
        }
        assert(sheet.marks.contains(r));
        assert(after.prompt_marks.contains((g.total_evicted_rows + r) as usize));
        assert(after.has_mark(r));
    } else {
        lemma_below_the_bottom(g, cols, rows, r);
    }
}

/// The rows of the first lines come first on the sheet.
proof fn lemma_sheet_prefix(lines: Seq<LineModel>, k: int, cols: int)
    requires
        0 <= k <= lines.len(),
    ensures
        ({
            let rows = sheet_of(lines, cols).rows;
            let first = sheet_of(lines.take(k), cols).rows;
            &&& first.len() <= rows.len()
            &&& forall|i: int| 0 <= i < first.len() ==> #[trigger] rows[i] == first[i]
        }),
    decreases lines.len(),
{
    if k == lines.len() {
        assert(lines.take(k) =~= lines);
    } else {
        let front = lines.drop_last();
        lemma_sheet_prefix(front, k, cols);
        assert(front.take(k) =~= lines.take(k));
        let rows = sheet_of(lines, cols).rows;
        let first = sheet_of(lines.take(k), cols).rows;
        assert forall|i: int| 0 <= i < first.len() implies #[trigger] rows[i] == first[i] by {
            assert(rows[i] == sheet_of(front, cols).rows[i]);
        }
    }
}

/// No line but that of the row at the top of the viewport is noted as such.
proof fn lemma_view_lines(g: GridModel, n: int)
    requires
        g.wf(),
        g.viewport_offset > 0,
        0 <= n <= g.row_count(),
    ensures
        ({
            let top = g.scrollback.len() - g.viewport_offset;
            let (done, open) = g.lines_of_rows(n);
            let all = done.push(open);
            let k = lines_above(g.scrollback + g.lines, top);
            forall|j: int|
                0 <= j < all.len() && (n <= top || j != k) ==> (#[trigger] all[j]).view is None
        }),
    decreases n,
{
    let rows = g.scrollback + g.lines;
    let top = g.scrollback.len() - g.viewport_offset;
    let k = lines_above(rows, top);
    if n > 0 {
        lemma_view_lines(g, n - 1);
        let (done, open) = g.lines_of_rows(n - 1);
        let before = done.push(open);
        let line = g.line_extended(open, n - 1);
        let (done2, open2) = g.lines_of_rows(n);
        let all = done2.push(open2);
        if n == top + 1 {
            lemma_gather_text(g, top);
        }
        assert forall|j: int| 0 <= j < all.len() && (n <= top || j != k) implies (
        #[trigger] all[j]).view is None by {
            assert(before[done.len() as int] == open);
            if j < done.len() {
                assert(all[j] == before[j]);
            }
        }
    }
}

/// The row of the viewport on a sheet whose only line with it is known.
proof fn lemma_sheet_view(lines: Seq<LineModel>, k: int, cols: int)
    requires
        0 <= k < lines.len(),
        lines[k].view is Some,
        forall|j: int| 0 <= j < lines.len() && j != k ==> (#[trigger] lines[j]).view is None,
    ensures
        sheet_of(lines, cols).view == Some(
            sheet_of(lines.take(k), cols).rows.len() + locate(
                lines[k].items,
                0,
                lines[k].view->0,
                cols,
            ).0,
        ),
    decreases lines.len(),
{
    let front = lines.drop_last();
    if k == lines.len() - 1 {
        assert(lines.take(k) =~= front);
        lemma_no_view(front, cols);
    } else {
        assert(front[k] == lines[k]);
        assert forall|j: int| 0 <= j < front.len() && j != k implies (#[trigger] front[j]).view
            is None by {
            assert(front[j] == lines[j]);
        }
        lemma_sheet_view(front, k, cols);
        assert(front.take(k) =~= lines.take(k));
    }
}

proof fn lemma_no_view(lines: Seq<LineModel>, cols: int)
    requires
        forall|j: int| 0 <= j < lines.len() ==> (#[trigger] lines[j]).view is None,
    ensures
        sheet_of(lines, cols).view is None,
    decreases lines.len(),
{
    if lines.len() > 0 {
        let front = lines.drop_last();
        assert forall|j: int| 0 <= j < front.len() implies (#[trigger] front[j]).view is None by {
            assert(front[j] == lines[j]);
        }
        lemma_no_view(front, cols);
        assert(lines[lines.len() - 1].view is None);
    }
}

/// A change of width keeps a viewport in the history on its text: the row at its top is the one that
/// holds the text that stood at the top. Where that text is on the screen afterwards, so is the
/// viewport, and a viewport on the screen stays there.
pub proof fn law_the_viewport_keeps_its_place_in_the_text(g: GridModel, cols: usize, rows: usize)
    requires
        g.wf(),
        g.alt_lines is None,
        g.cursor.row < g.rows,
        cols >= 1,
        cols != g.cols,
        rows >= 1,
        g.total_evicted_rows < usize::MAX,
        g.resized(cols, rows).total_evicted_rows == g.total_evicted_rows,
    ensures
        ({
            let after = g.resized(cols, rows);
            let old_rows = g.scrollback + g.lines;
            let new_rows = after.scrollback + after.lines;
            let top = g.scrollback.len() - g.viewport_offset;
            &&& g.viewport_offset == 0 ==> after.viewport_offset == 0
            &&& g.viewport_offset > 0 && after.viewport_offset > 0 ==> exists|c: int| #[trigger]
                row_goes(
                    old_rows,
                    top,
                    new_rows,
                    after.scrollback.len() - after.viewport_offset,
                    c,
                )
            &&& g.viewport_offset > 0 && after.viewport_offset == 0 ==> lines_above(
                new_rows,
                after.scrollback.len() as int,
            ) <= lines_above(old_rows, top)
        }),
{
    let after = g.resized(cols, rows);
    let old_rows = g.scrollback + g.lines;
    let new_rows = after.scrollback + after.lines;
    let top = g.scrollback.len() - g.viewport_offset;
    let lines = g.logical_lines();
    let sheet = sheet_of(lines, cols as int);
    let n = g.row_count();
    let (done, open) = g.lines_of_rows(n);
    let all = done.push(open);
    if g.viewport_offset > 0 {
        let k = lines_above(old_rows, top);
        lemma_line_of_row(g, top);
        lemma_view_lines(g, n);
        assert(g.is_view_top(top));
        assert forall|j: int| 0 <= j < lines.len() && j != k implies (#[trigger] lines[j]).view
            is None by {
            assert(lines[j] == all[j]);
        }
        lemma_sheet_view(lines, k, cols as int);
        lemma_start_spot(g, top, cols as int);
        let (r, c) = start_spot(g, top, cols as int);
        assert(sheet.view == Some(r));
        if after.viewport_offset > 0 {
            assert(after.scrollback.len() - after.viewport_offset == r);
            lemma_row_goes(g, cols, rows, top);
            assert(row_goes(old_rows, top, new_rows, r, c));
        } else {
            assert(r >= after.scrollback.len());
            let h = after.scrollback.len() as int;
            lemma_lines_above_grows(sheet.rows, h, r);
            lemma_rows_of_sheet(g, cols, rows, h);
            lemma_text_before_same(new_rows, sheet.rows, h, 0);
        }
    } else {
        lemma_gather_no_view(g, n);
        assert forall|j: int| 0 <= j < lines.len() implies (#[trigger] lines[j]).view is None by {
            assert(lines[j] == all[j]);
        }
        lemma_no_view(lines, cols as int);
    }
}

proof fn lemma_gather_no_view(g: GridModel, n: int)
    requires
        g.viewport_offset == 0,
    ensures
        ({
            let (done, open) = g.lines_of_rows(n);
            let all = done.push(open);
            forall|j: int| 0 <= j < all.len() ==> (#[trigger] all[j]).view is None
        }),
    decreases n,
{
    if n > 0 {
        lemma_gather_no_view(g, n - 1);
        let (done, open) = g.lines_of_rows(n - 1);
        let before = done.push(open);
        let (done2, open2) = g.lines_of_rows(n);
        let all = done2.push(open2);
        assert(before[done.len() as int] == open);
        assert forall|j: int| 0 <= j < all.len() implies (#[trigger] all[j]).view is None by {
            if j < done.len() {
                assert(all[j] == before[j]);
            }
        }
    }
}

/// The rows of a line are filled: a row that is continued shows one item per cell, in order, but for
/// a filler in its last cell where the item there would be the left half of a wide character.
pub proof fn law_continued_rows_are_full(items: Seq<Item>, from: int, cols: int)
    requires
        0 <= from <= items.len(),
        cols >= 1,
        piece_row(items, from, cols).wrapped,
    ensures
        ({
            let row = piece_row(items, from, cols);
            &&& row.cells.len() == cols
            &&& items.len() - from >= cols
            &&& forall|j: int| 0 <= j < cols - 1 ==> #[trigger] row.cells[j] == items[from + j].0
            &&& row.cells[cols - 1] == items[from + cols - 1].0 || cols > 1 && !is_text(
                row.cells[cols - 1],
            ) && items[from + cols - 1].0.flags.has(CellFlags::wide_char())
        }),
{
    lemma_piece_len(items, from, cols);
    lemma_flags();
}

} // verus!
