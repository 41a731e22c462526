//! What holds of the grid as a whole.

use crate::grid::edit::cell_width;
use crate::grid::model::{
    all_wide, blank_rows, clamped, least, most, touched_rows, GridModel,
};
use crate::grid::reflow::{
    coord_at, filler, is_filler, lemma_piece_len, locate, piece_len, piece_row, row_items, sheet_of,
    text_len, wrapped_rows, Item, LineModel,
};
use crate::grid::row::{blank_cell, Cell, CellFlags, ClearMode, Cursor, RowModel};
use crate::kitty::ImagePlacement;
use vstd::prelude::*;

verus! {

/// A line of text without the blank cells at its end.
pub open spec fn trimmed_items(items: Seq<Item>) -> Seq<Item>
    decreases items.len(),
{
    if items.len() > 0 && items.last().0 == blank_cell() {
        trimmed_items(items.drop_last())
    } else {
        items
    }
}

/// The lines of text that rows complete, and the text of the line still open behind them: a row
/// that is not continued ends its line.
pub open spec fn read_rows(rows: Seq<RowModel>) -> (Seq<Seq<Item>>, Seq<Item>)
    decreases rows.len(),
{
    if rows.len() == 0 {
        (Seq::empty(), Seq::empty())
    } else {
        let (done, open) = read_rows(rows.drop_last());
        let row = rows.last();
        if row.wrapped {
            (done, open + row_items(row, row.cells.len() as int))
        } else {
            (
                done.push(trimmed_items(open + row_items(row, text_len(row.cells)))),
                Seq::empty(),
            )
        }
    }
}

/// The text of logical lines.
pub open spec fn texts(lines: Seq<LineModel>) -> Seq<Seq<Item>> {
    lines.map_values(|l: LineModel| trimmed_items(l.items))
}

/// Whether no item is a filler.
pub open spec fn no_fillers(items: Seq<Item>) -> bool {
    forall|i: int| 0 <= i < items.len() ==> !is_filler((#[trigger] items[i]).0)
}

proof fn lemma_filler_flags()
    ensures
        is_filler(filler()),
        !is_filler(blank_cell()),
{
    assert((0u16 | 0x2000u16) & 0x2000u16 == 0x2000u16) by (bit_vector);
    assert(0u16 & 0x2000u16 != 0x2000u16) by (bit_vector);
}

/// Cells behind the last text are blank, and no more text than cells.
proof fn lemma_text_len(cells: Seq<Cell>)
    ensures
        0 <= text_len(cells) <= cells.len(),
        forall|i: int| text_len(cells) <= i < cells.len() ==> (#[trigger] cells[i]) == blank_cell(),
        text_len(cells) > 0 ==> cells[text_len(cells) - 1] != blank_cell(),
    decreases cells.len(),
{
    if cells.len() > 0 && cells.last() == blank_cell() {
        lemma_text_len(cells.drop_last());
        assert forall|i: int| text_len(cells) <= i < cells.len() implies (#[trigger] cells[i])
            == blank_cell() by {
            if i < cells.len() - 1 {
                assert(cells.drop_last()[i] == cells[i]);
            }
        }
    }
}

/// Blank items at the end do not change the trimmed text.
proof fn lemma_trim_tail(items: Seq<Item>, k: int)
    requires
        0 <= k <= items.len(),
        forall|i: int| k <= i < items.len() ==> (#[trigger] items[i]).0 == blank_cell(),
    ensures
        trimmed_items(items) == trimmed_items(items.take(k)),
    decreases items.len() - k,
{
    if k == items.len() {
        assert(items.take(k) =~= items);
    } else {
        let front = items.drop_last();
        assert forall|i: int| k <= i < front.len() implies (#[trigger] front[i]).0
            == blank_cell() by {
            assert(front[i] == items[i]);
        }
        assert(items[items.len() - 1].0 == blank_cell());
        lemma_trim_tail(front, k);
        assert(front.take(k) =~= items.take(k));
    }
}

/// What the first cells of a row made of items contribute.
proof fn lemma_piece_items(items: Seq<Item>, from: int, cols: int, i: int)
    requires
        0 <= from <= items.len(),
        1 <= cols <= usize::MAX,
        no_fillers(items),
        0 <= i <= cols,
        i <= piece_len(items, from, cols) || items.len() - from > cols || i <= items.len() - from,
    ensures
        row_items(piece_row(items, from, cols), i) == items.subrange(
            from,
            from + least(i, piece_len(items, from, cols)),
        ),
    decreases i,
{
    lemma_piece_len(items, from, cols);
    lemma_filler_flags();
    let n = piece_len(items, from, cols);
    let row = piece_row(items, from, cols);
    if i > 0 {
        lemma_piece_items(items, from, cols, i - 1);
        if i <= n {
            let k = (i - 1) as usize;
            assert(row.cells[i - 1] == items[from + i - 1].0);
            assert(!is_filler(items[from + i - 1].0));
            assert(k == i - 1);
            assert(coord_at(row.placeholders, i - 1) == items[from + i - 1].1);
            assert(items.subrange(from, from + i) =~= items.subrange(from, from + i - 1).push(
                items[from + i - 1],
            ));
        } else {
            assert(row.cells[i - 1] == filler());
        }
    } else {
        assert(items.subrange(from, from) =~= Seq::<Item>::empty());
    }
}

/// Reading the rows of a line behind other rows gives the line's text.
proof fn lemma_read_wrapped(
    rows: Seq<RowModel>,
    done: Seq<Seq<Item>>,
    items: Seq<Item>,
    from: int,
    cols: int,
)
    requires
        0 <= from <= items.len(),
        from == 0 || from < items.len(),
        1 <= cols <= usize::MAX,
        no_fillers(items),
        read_rows(rows) == (done, items.take(from)),
    ensures
        read_rows(rows + wrapped_rows(items, from, cols)) == (
            done.push(trimmed_items(items)),
            Seq::<Item>::empty(),
        ),
    decreases items.len() - from,
{
    lemma_piece_len(items, from, cols);
    let n = piece_len(items, from, cols);
    let row = piece_row(items, from, cols);
    let more = rows.push(row);
    assert(more.drop_last() =~= rows);
    if n < 1 || from + n >= items.len() {
        assert(rows + wrapped_rows(items, from, cols) =~= more);
        lemma_text_len(row.cells);
        let t = text_len(row.cells);
        assert(t <= n) by {
            if t > n {
                assert(row.cells[t - 1] == blank_cell());
            }
        }
        lemma_piece_items(items, from, cols, t);
        let read = items.take(from) + row_items(row, t);
        assert(read =~= items.take(from + t));
        assert forall|i: int| from + t <= i < items.len() implies (#[trigger] items[i]).0
            == blank_cell() by {
            assert(row.cells[i - from] == items[i].0);
        }
        lemma_trim_tail(items, from + t);
    } else {
        lemma_piece_items(items, from, cols, cols);
        assert(items.take(from) + items.subrange(from, from + n) =~= items.take(from + n));
        lemma_read_wrapped(more, done, items, from + n, cols);
        assert(rows + wrapped_rows(items, from, cols) =~= more + wrapped_rows(
            items,
            from + n,
            cols,
        ));
    }
}

/// Lines distributed over rows of any width read back as the same text: no cell is lost, none is
/// added, and lines are neither joined nor split.
pub proof fn law_wrapping_keeps_text(lines: Seq<LineModel>, cols: usize)
    requires
        cols >= 1,
        forall|i: int| 0 <= i < lines.len() ==> no_fillers((#[trigger] lines[i]).items),
    ensures
        read_rows(sheet_of(lines, cols as int).rows) == (texts(lines), Seq::<Item>::empty()),
    decreases lines.len(),
{
    if lines.len() == 0 {
        assert(texts(lines) =~= Seq::<Seq<Item>>::empty());
    } else {
        let front = lines.drop_last();
        assert forall|i: int| 0 <= i < front.len() implies no_fillers(
            (#[trigger] front[i]).items,
        ) by {
            assert(front[i] == lines[i]);
        }
        law_wrapping_keeps_text(front, cols);
        let rows = sheet_of(front, cols as int).rows;
        let items = lines.last().items;
        assert(no_fillers(lines[lines.len() - 1].items));
        assert(items.take(0) =~= Seq::<Item>::empty());
        lemma_read_wrapped(rows, texts(front), items, 0, cols as int);
        assert(texts(lines) =~= texts(front).push(trimmed_items(items)));
    }
}

proof fn lemma_row_items_no_fillers(row: RowModel, n: int)
    ensures
        no_fillers(row_items(row, n)),
    decreases n,
{
    if n > 0 {
        lemma_row_items_no_fillers(row, n - 1);
    }
}

proof fn lemma_gathered_no_fillers(g: GridModel, n: int)
    ensures
        forall|i: int|
            0 <= i < g.lines_of_rows(n).0.len() ==> no_fillers(
                (#[trigger] g.lines_of_rows(n).0[i]).items,
            ),
        no_fillers(g.lines_of_rows(n).1.items),
    decreases n,
{
    if n > 0 {
        lemma_gathered_no_fillers(g, n - 1);
        let row = g.row_at(n - 1);
        lemma_row_items_no_fillers(row, g.used_len(n - 1));
        let (done, open) = g.lines_of_rows(n - 1);
        let line = g.line_extended(open, n - 1);
        assert(no_fillers(line.items)) by {
            assert forall|i: int| 0 <= i < line.items.len() implies !is_filler(
                (#[trigger] line.items[i]).0,
            ) by {
                if i < open.items.len() {
                    assert(line.items[i] == open.items[i]);
                } else {
                    assert(line.items[i] == row_items(row, g.used_len(n - 1))[i
                        - open.items.len()]);
                }
            }
        }
    }
}

/// Lines of text without the empty ones at their end.
pub open spec fn without_empty_end(lines: Seq<Seq<Item>>) -> Seq<Seq<Item>>
    decreases lines.len(),
{
    if lines.len() > 0 && lines.last().len() == 0 {
        without_empty_end(lines.drop_last())
    } else {
        lines
    }
}

/// The lines of text that rows hold: continued rows are joined, fillers and the blank cells at the
/// end of a line do not count, and neither do the empty lines at the end.
pub open spec fn text_of_rows(rows: Seq<RowModel>) -> Seq<Seq<Item>> {
    let (done, open) = read_rows(rows);
    without_empty_end(done.push(trimmed_items(open)))
}

impl GridModel {
    /// Whether the cursor stands at the last text of the screen or behind it.
    pub open spec fn cursor_behind_text(self) -> bool {
        &&& text_len(self.row_at(self.cursor_abs()).cells) <= self.cursor.col + 1
        &&& forall|i: int|
            self.cursor_abs() < i < self.row_count() ==> text_len(
                (#[trigger] self.row_at(i)).cells,
            ) == 0
    }

    /// How many rows of the text in another width lie above the screen.
    pub open spec fn reflow_above(self, cols: usize, rows: usize) -> int {
        self.reflow_rows(cols, rows).len() - rows - self.reflow_cut(cols, rows)
    }
}

/// Whether the items behind a place are blank.
spec fn blank_after(items: Seq<Item>, p: int) -> bool {
    forall|i: int| p < i < items.len() ==> (#[trigger] items[i]).0 == blank_cell()
}

/// Whether a line holds the cursor, and nothing but blanks comes after it.
spec fn then_blank(lines: Seq<LineModel>, k: int) -> bool {
    &&& lines[k].cursor matches Some(p) && 0 <= p && blank_after(lines[k].items, p)
    &&& forall|j: int|
        k < j < lines.len() ==> (#[trigger] lines[j]).cursor is None && blank_after(
            lines[j].items,
            -1,
        )
}

/// Whether the cursor has been passed, and nothing but blanks came after it.
spec fn passed_cursor(done: Seq<LineModel>, open: LineModel) -> bool {
    match open.cursor {
        Some(p) => 0 <= p && blank_after(open.items, p),
        None => blank_after(open.items, -1) && exists|k: int|
            0 <= k < done.len() && #[trigger] then_blank(done, k),
    }
}

/// What blank cells contribute to a line: as many blank items.
proof fn lemma_blank_items(row: RowModel, k: int, m: int)
    requires
        0 <= k <= m <= row.cells.len(),
        forall|i: int| k <= i < m ==> (#[trigger] row.cells[i]) == blank_cell(),
    ensures
        row_items(row, m).len() == row_items(row, k).len() + (m - k),
        row_items(row, m).take(row_items(row, k).len() as int) == row_items(row, k),
        blank_after(row_items(row, m), row_items(row, k).len() - 1),
    decreases m - k,
{
    let first = row_items(row, k);
    if k == m {
        assert(first.take(first.len() as int) =~= first);
    } else {
        lemma_blank_items(row, k, m - 1);
        lemma_filler_flags();
        assert(row.cells[m - 1] == blank_cell());
        let front = row_items(row, m - 1);
        let whole = row_items(row, m);
        assert(whole == front.push((blank_cell(), coord_at(row.placeholders, m - 1))));
        assert(whole.take(first.len() as int) =~= front.take(first.len() as int));
        assert forall|i: int| first.len() - 1 < i < whole.len() implies (#[trigger] whole[i]).0
            == blank_cell() by {
            if i < front.len() {
                assert(whole[i] == front[i]);
            }
        }
    }
}

/// A line that goes on with blanks has the same text.
proof fn lemma_trim_more(open: Seq<Item>, more: Seq<Item>)
    requires
        blank_after(more, -1),
    ensures
        trimmed_items(open + more) == trimmed_items(open),
{
    let all = open + more;
    assert forall|i: int| open.len() <= i < all.len() implies (#[trigger] all[i]).0
        == blank_cell() by {
        assert(all[i] == more[i - open.len()]);
    }
    lemma_trim_tail(all, open.len() as int);
    assert(all.take(open.len() as int) =~= open);
}

/// An empty line at the end does not count.
proof fn lemma_drop_empty(lines: Seq<Seq<Item>>)
    ensures
        without_empty_end(lines.push(Seq::empty())) == without_empty_end(lines),
{
    let more = lines.push(Seq::<Item>::empty());
    assert(more.last().len() == 0);
    assert(more.drop_last() =~= lines);
}

/// A row without text contributes blanks only.
proof fn lemma_blank_row(row: RowModel, n: int)
    requires
        text_len(row.cells) == 0,
        0 <= n <= row.cells.len(),
    ensures
        blank_after(row_items(row, n), -1),
{
    lemma_text_len(row.cells);
    lemma_blank_items(row, 0, n);
}

/// Rows without text at the end do not change the text.
proof fn lemma_blank_end(rows: Seq<RowModel>, k: int)
    requires
        0 <= k <= rows.len(),
        forall|i: int| k <= i < rows.len() ==> text_len((#[trigger] rows[i]).cells) == 0,
    ensures
        text_of_rows(rows) == text_of_rows(rows.take(k)),
    decreases rows.len(),
{
    if k == rows.len() {
        assert(rows.take(k) =~= rows);
    } else {
        let front = rows.drop_last();
        let row = rows.last();
        assert forall|i: int| k <= i < front.len() implies text_len((#[trigger] front[i]).cells)
            == 0 by {
            assert(front[i] == rows[i]);
        }
        lemma_blank_end(front, k);
        assert(front.take(k) =~= rows.take(k));
        assert(text_len(rows[rows.len() - 1].cells) == 0);
        let (done, open) = read_rows(front);
        if row.wrapped {
            lemma_blank_row(row, row.cells.len() as int);
            lemma_trim_more(open, row_items(row, row.cells.len() as int));
        } else {
            assert(open + row_items(row, 0) =~= open);
            let nothing = Seq::<Item>::empty();
            assert(trimmed_items(nothing) == nothing);
            lemma_drop_empty(done.push(trimmed_items(open)));
        }
    }
}

/// All rows of the history and the screen.
spec fn all_rows(g: GridModel) -> Seq<RowModel> {
    g.scrollback + g.lines
}

/// Up to the cursor's row the lines that are gathered are the lines that the rows hold.
proof fn lemma_gathered(g: GridModel, n: int)
    requires
        0 <= n <= g.row_count(),
        n <= g.cursor_abs() + 1,
    ensures
        texts(g.lines_of_rows(n).0) == read_rows(all_rows(g).take(n)).0,
        g.lines_of_rows(n).1.items == read_rows(all_rows(g).take(n)).1,
    decreases n,
{
    let rows = all_rows(g).take(n);
    if n == 0 {
        assert(texts(g.lines_of_rows(n).0) =~= Seq::<Seq<Item>>::empty());
    } else {
        lemma_gathered(g, n - 1);
        let row = g.row_at(n - 1);
        assert(rows.drop_last() =~= all_rows(g).take(n - 1));
        assert(rows.last() == row);
        let (done, open) = g.lines_of_rows(n - 1);
        let line = g.line_extended(open, n - 1);
        let used = g.used_len(n - 1);
        let t = text_len(row.cells);
        lemma_text_len(row.cells);
        if !row.wrapped {
            lemma_blank_items(row, t, used);
            let short = row_items(row, t);
            let long = row_items(row, used);
            let more = long.skip(short.len() as int);
            assert(long =~= short + more);
            assert forall|i: int| -1 < i < more.len() implies (#[trigger] more[i]).0
                == blank_cell() by {
                assert(more[i] == long[i + short.len()]);
            }
            assert(open.items + long =~= (open.items + short) + more);
            lemma_trim_more(open.items + short, more);
            assert(texts(done.push(line)) =~= texts(done).push(trimmed_items(line.items)));
        }
    }
}

/// The text of lines that are gathered, with the one still open.
spec fn gathered_text(g: GridModel, n: int) -> Seq<Seq<Item>> {
    let (done, open) = g.lines_of_rows(n);
    without_empty_end(texts(done).push(trimmed_items(open.items)))
}

/// Below the cursor rows without text add nothing.
proof fn lemma_gathered_below(g: GridModel, n: int)
    requires
        g.cursor_behind_text(),
        0 <= g.cursor_abs() < n <= g.row_count(),
    ensures
        gathered_text(g, n) == text_of_rows(all_rows(g).take(g.cursor_abs() + 1)),
    decreases n,
{
    if n == g.cursor_abs() + 1 {
        lemma_gathered(g, n);
    } else {
        lemma_gathered_below(g, n - 1);
        let row = g.row_at(n - 1);
        let (done, open) = g.lines_of_rows(n - 1);
        if !g.is_trailing_blank(open, n - 1) {
            let line = g.line_extended(open, n - 1);
            lemma_text_len(row.cells);
            lemma_blank_row(row, g.used_len(n - 1));
            lemma_trim_more(open.items, row_items(row, g.used_len(n - 1)));
            if !row.wrapped {
                assert(texts(done.push(line)) =~= texts(done).push(trimmed_items(line.items)));
                let nothing = Seq::<Item>::empty();
                assert(trimmed_items(nothing) == nothing);
                lemma_drop_empty(texts(done.push(line)));
            }
        }
    }
}

/// The lines that are gathered for a change of width are the lines of the text.
proof fn lemma_gathered_all(g: GridModel)
    requires
        g.wf(),
        g.cursor.row < g.rows,
        g.cursor_behind_text(),
    ensures
        without_empty_end(texts(g.logical_lines())) == text_of_rows(all_rows(g)),
{
    let n = g.row_count();
    let c = g.cursor_abs();
    lemma_gathered_below(g, n);
    assert forall|i: int| c + 1 <= i < all_rows(g).len() implies text_len(
        (#[trigger] all_rows(g)[i]).cells,
    ) == 0 by {
        assert(all_rows(g)[i] == g.row_at(i));
    }
    lemma_blank_end(all_rows(g), c + 1);
    let (done, open) = g.lines_of_rows(n);
    if open.items.len() > 0 || open.cursor is Some || open.saved is Some || open.placements.len()
        > 0 {
        assert(texts(done.push(open)) =~= texts(done).push(trimmed_items(open.items)));
    } else {
        assert(trimmed_items(open.items) =~= Seq::<Item>::empty());
        lemma_drop_empty(texts(done));
    }
}

/// From the cursor's row on, the cursor has been passed and nothing but blanks came after it.
proof fn lemma_cursor_passed(g: GridModel, n: int)
    requires
        g.cursor_behind_text(),
        0 <= g.cursor_abs() < n <= g.row_count(),
    ensures
        passed_cursor(g.lines_of_rows(n).0, g.lines_of_rows(n).1),
    decreases n,
{
    let row = g.row_at(n - 1);
    let (done, open) = g.lines_of_rows(n - 1);
    let line = g.line_extended(open, n - 1);
    let used = g.used_len(n - 1);
    let at = open.items.len() as int;
    lemma_text_len(row.cells);
    if n == g.cursor_abs() + 1 {
        let col = g.cursor.col as int;
        let p = line.cursor->0;
        let items = row_items(row, used);
        assert(blank_after(line.items, p)) by {
            if col < used && !is_filler(row.cells[col]) {
                lemma_blank_items(row, col + 1, used);
                assert(row_items(row, col + 1).len() == row_items(row, col).len() + 1);
                assert forall|i: int| p < i < line.items.len() implies (#[trigger] line.items[i]).0
                    == blank_cell() by {
                    assert(line.items[i] == items[i - at]);
                }
            }
        }
        if !row.wrapped {
            assert(done.push(line)[done.len() as int] == line);
            assert(then_blank(done.push(line), done.len() as int));
        }
    } else {
        lemma_cursor_passed(g, n - 1);
        if !g.is_trailing_blank(open, n - 1) {
            lemma_blank_row(row, used);
            let items = row_items(row, used);
            let p = match open.cursor {
                Some(p) => p,
                None => -1,
            };
            assert forall|i: int| p < i < line.items.len() implies (#[trigger] line.items[i]).0
                == blank_cell() by {
                if i < at {
                    assert(line.items[i] == open.items[i]);
                } else {
                    assert(line.items[i] == items[i - at]);
                }
            }
            if !row.wrapped {
                let more = done.push(line);
                assert(more[done.len() as int] == line);
                if open.cursor is Some {
                    assert(then_blank(more, done.len() as int));
                } else {
                    let k = choose|k: int| 0 <= k < done.len() && #[trigger] then_blank(done, k);
                    lemma_then_blank_more(done, line, k);
                }
            }
        }
    }
}

/// A blank line behind others keeps them.
proof fn lemma_then_blank_more(lines: Seq<LineModel>, line: LineModel, k: int)
    requires
        0 <= k < lines.len(),
        then_blank(lines, k),
        line.cursor is None,
        blank_after(line.items, -1),
    ensures
        then_blank(lines.push(line), k),
{
    let more = lines.push(line);
    assert(more[k] == lines[k]);
    assert forall|j: int| k < j < more.len() implies (#[trigger] more[j]).cursor is None
        && blank_after(more[j].items, -1) by {
        if j < lines.len() {
            assert(more[j] == lines[j]);
        }
    }
}

/// One of the gathered lines holds the cursor, and nothing but blanks comes after it.
proof fn lemma_cursor_line(g: GridModel) -> (k: int)
    requires
        g.wf(),
        g.cursor.row < g.rows,
        g.cursor_behind_text(),
    ensures
        0 <= k < g.logical_lines().len(),
        then_blank(g.logical_lines(), k),
{
    lemma_cursor_passed(g, g.row_count());
    let (done, open) = g.lines_of_rows(g.row_count());
    if open.cursor is Some {
        assert(done.push(open)[done.len() as int] == open);
        done.len() as int
    } else {
        let k = choose|k: int| 0 <= k < done.len() && #[trigger] then_blank(done, k);
        lemma_then_blank_more(done, open, k);
        k
    }
}

/// Cells that are all blank hold no text.
proof fn lemma_no_text(cells: Seq<Cell>)
    requires
        forall|i: int| 0 <= i < cells.len() ==> (#[trigger] cells[i]) == blank_cell(),
    ensures
        text_len(cells) == 0,
{
    lemma_text_len(cells);
}

/// Blank items fill rows without text.
proof fn lemma_blank_wrapped(items: Seq<Item>, from: int, cols: int)
    requires
        0 <= from <= items.len(),
        from == 0 || from < items.len(),
        1 <= cols <= usize::MAX,
        blank_after(items, from - 1),
    ensures
        forall|j: int|
            0 <= j < wrapped_rows(items, from, cols).len() ==> text_len(
                (#[trigger] wrapped_rows(items, from, cols)[j]).cells,
            ) == 0,
    decreases items.len() - from,
{
    lemma_piece_len(items, from, cols);
    let n = piece_len(items, from, cols);
    let row = piece_row(items, from, cols);
    let rows = wrapped_rows(items, from, cols);
    let full = least(items.len() - from, cols);
    assert(0u16 & 0x80u16 != 0x80u16) by (bit_vector);
    assert(!blank_cell().flags.has(CellFlags::wide_char()));
    assert(n == full) by {
        if full > 0 {
            assert(items[from + full - 1].0 == blank_cell());
        }
    }
    assert forall|i: int| 0 <= i < row.cells.len() implies (#[trigger] row.cells[i])
        == blank_cell() by {
        if i < n {
            assert(items[from + i].0 == blank_cell());
        }
    }
    lemma_no_text(row.cells);
    if !(n < 1 || from + n >= items.len()) {
        lemma_blank_wrapped(items, from + n, cols);
        let rest = wrapped_rows(items, from + n, cols);
        assert forall|j: int| 0 <= j < rows.len() implies text_len((#[trigger] rows[j]).cells)
            == 0 by {
            if j > 0 {
                assert(rows[j] == rest[j - 1]);
            }
        }
    }
}

/// The rows of a line behind the row of a place hold no text where nothing but blanks follows it.
proof fn lemma_blank_behind(items: Seq<Item>, from: int, p: int, cols: int)
    requires
        0 <= from <= items.len(),
        from == 0 || from < items.len(),
        1 <= cols <= usize::MAX,
        from <= p,
        blank_after(items, p),
    ensures
        ({
            let rows = wrapped_rows(items, from, cols);
            let r = locate(items, from, p, cols).0;
            &&& 0 <= r < rows.len()
            &&& forall|j: int| r < j < rows.len() ==> text_len((#[trigger] rows[j]).cells) == 0
        }),
    decreases items.len() - from,
{
    lemma_piece_len(items, from, cols);
    let n = piece_len(items, from, cols);
    let rows = wrapped_rows(items, from, cols);
    if !(n < 1 || from + n >= items.len()) {
        let rest = wrapped_rows(items, from + n, cols);
        let r = locate(items, from, p, cols).0;
        if p < from + n {
            lemma_blank_wrapped(items, from + n, cols);
        } else {
            lemma_blank_behind(items, from + n, p, cols);
        }
        assert forall|j: int| r < j < rows.len() implies text_len((#[trigger] rows[j]).cells)
            == 0 by {
            assert(rows[j] == rest[j - 1]);
        }
    }
}

/// The rows of a sheet behind the cursor's row hold no text where nothing but blanks follows it.
proof fn lemma_sheet_behind(lines: Seq<LineModel>, k: int, cols: int)
    requires
        0 <= k < lines.len(),
        then_blank(lines, k),
        1 <= cols <= usize::MAX,
    ensures
        ({
            let sheet = sheet_of(lines, cols);
            &&& sheet.cursor matches Some((t, _)) && 0 <= t < sheet.rows.len() && (forall|i: int|
                t < i < sheet.rows.len() ==> text_len((#[trigger] sheet.rows[i]).cells) == 0)
        }),
    decreases lines.len(),
{
    let front = lines.drop_last();
    let line = lines.last();
    let before = sheet_of(front, cols);
    let sheet = sheet_of(lines, cols);
    let start = before.rows.len() as int;
    let own = wrapped_rows(line.items, 0, cols);
    assert(line == lines[lines.len() - 1]);
    if k == lines.len() - 1 {
        let p = line.cursor->0;
        lemma_blank_behind(line.items, 0, p, cols);
        let t = start + locate(line.items, 0, p, cols).0;
        assert forall|i: int| t < i < sheet.rows.len() implies text_len(
            (#[trigger] sheet.rows[i]).cells,
        ) == 0 by {
            assert(sheet.rows[i] == own[i - start]);
        }
    } else {
        assert(front[k] == lines[k]);
        assert(then_blank(front, k)) by {
            assert forall|j: int| k < j < front.len() implies (#[trigger] front[j]).cursor is None
                && blank_after(front[j].items, -1) by {
                assert(front[j] == lines[j]);
            }
        }
        lemma_sheet_behind(front, k, cols);
        lemma_blank_wrapped(line.items, 0, cols);
        let (t, _) = before.cursor->0;
        assert forall|i: int| t < i < sheet.rows.len() implies text_len(
            (#[trigger] sheet.rows[i]).cells,
        ) == 0 by {
            if i < start {
                assert(sheet.rows[i] == before.rows[i]);
            } else {
                assert(sheet.rows[i] == own[i - start]);
            }
        }
    }
}

/// The rows that a change of width cuts below the cursor hold no text where the cursor stands
/// behind all text.
proof fn lemma_cut_is_blank(g: GridModel, cols: usize, rows: usize)
    requires
        g.wf(),
        g.cursor.row < g.rows,
        g.cursor_behind_text(),
        cols >= 1,
        rows >= 1,
    ensures
        ({
            let all = g.reflow_rows(cols, rows);
            let keep = all.len() - g.reflow_cut(cols, rows);
            &&& rows <= keep <= all.len()
            &&& forall|i: int| keep <= i < all.len() ==> text_len((#[trigger] all[i]).cells) == 0
        }),
{
    let lines = g.logical_lines();
    let k = lemma_cursor_line(g);
    lemma_sheet_behind(lines, k, cols as int);
    let sheet = sheet_of(lines, cols as int);
    let all = g.reflow_rows(cols, rows);
    let keep = all.len() - g.reflow_cut(cols, rows);
    let blank = RowModel::blank(cols as nat);
    lemma_no_text(blank.cells);
    assert forall|i: int| keep <= i < all.len() implies text_len((#[trigger] all[i]).cells)
        == 0 by {
        if i < sheet.rows.len() {
            assert(all[i] == sheet.rows[i]);
        } else {
            assert(all[i] == blank);
        }
    }
}

/// Lines distributed over rows read back as they are.
proof fn lemma_reflow_rows_text(g: GridModel, cols: usize, rows: usize)
    requires
        cols >= 1,
    ensures
        text_of_rows(g.reflow_rows(cols, rows)) == without_empty_end(texts(g.logical_lines())),
{
    let lines = g.logical_lines();
    lemma_gathered_no_fillers(g, g.row_count());
    assert forall|i: int| 0 <= i < lines.len() implies no_fillers((#[trigger] lines[i]).items) by {
        let (done, open) = g.lines_of_rows(g.row_count());
        if i < done.len() {
            assert(lines[i] == done[i]);
        }
    }
    law_wrapping_keeps_text(lines, cols);
    let sheet = sheet_of(lines, cols as int);
    let all = g.reflow_rows(cols, rows);
    let blank = RowModel::blank(cols as nat);
    lemma_no_text(blank.cells);
    assert forall|i: int| sheet.rows.len() <= i < all.len() implies text_len(
        (#[trigger] all[i]).cells,
    ) == 0 by {
        assert(all[i] == blank);
    }
    lemma_blank_end(all, sheet.rows.len() as int);
    assert(all.take(sheet.rows.len() as int) =~= sheet.rows);
    let nothing = Seq::<Item>::empty();
    assert(trimmed_items(nothing) == nothing);
    lemma_drop_empty(texts(lines));
}

/// A change of width keeps the text: with the cursor at the last text or behind it, and a history
/// that has room for the rows above the screen, the history and the screen hold the same lines
/// before and after, whatever the new dimensions. No cell is lost, doubled, moved to another line or
/// changed.
pub proof fn law_reflow_keeps_text(g: GridModel, cols: usize, rows: usize)
    requires
        g.wf(),
        g.alt_lines is None,
        g.cursor.row < g.rows,
        g.cursor_behind_text(),
        cols >= 1,
        rows >= 1,
        g.reflow_above(cols, rows) <= g.max_scrollback,
    ensures
        ({
            let after = g.reflowed(cols, rows);
            text_of_rows(after.scrollback + after.lines) == text_of_rows(g.scrollback + g.lines)
        }),
{
    lemma_gathered_all(g);
    lemma_reflow_rows_text(g, cols, rows);
    lemma_cut_is_blank(g, cols, rows);
    let all = g.reflow_rows(cols, rows);
    let keep = all.len() - g.reflow_cut(cols, rows);
    lemma_blank_end(all, keep);
    let kept = all.take(keep);
    let after = g.reflowed(cols, rows);
    assert(after.scrollback.len() == keep - rows);
    assert(after.lines.len() == rows);
    assert forall|i: int| 0 <= i < kept.len() implies same_text(
        (after.scrollback + after.lines)[i],
        #[trigger] kept[i],
    ) by {}
    lemma_marks_do_not_read(after.scrollback + after.lines, kept);
}

/// Whether a place is known and not negative.
spec fn is_place(at: Option<int>) -> bool {
    at matches Some(p) && 0 <= p
}

/// Once its row has been passed, one of the gathered lines holds the cursor.
proof fn lemma_cursor_gathered(g: GridModel, n: int)
    requires
        0 <= g.cursor_abs() < n <= g.row_count(),
    ensures
        is_place(g.lines_of_rows(n).1.cursor) || exists|k: int|
            0 <= k < g.lines_of_rows(n).0.len() && is_place(
                (#[trigger] g.lines_of_rows(n).0[k]).cursor,
            ),
    decreases n,
{
    let (done, open) = g.lines_of_rows(n - 1);
    let line = g.line_extended(open, n - 1);
    let (now, _) = g.lines_of_rows(n);
    if n > g.cursor_abs() + 1 {
        lemma_cursor_gathered(g, n - 1);
        if !is_place(open.cursor) {
            let k = choose|k: int| 0 <= k < done.len() && is_place((#[trigger] done[k]).cursor);
            assert(now[k] == done[k]);
        }
    }
    if !g.is_trailing_blank(open, n - 1) && !g.row_at(n - 1).wrapped {
        assert(now[done.len() as int] == line);
    }
}

/// A sheet on which a line holds the cursor has a row for it.
proof fn lemma_sheet_cursor(lines: Seq<LineModel>, k: int, cols: int)
    requires
        0 <= k < lines.len(),
        is_place(lines[k].cursor),
        forall|j: int| 0 <= j < lines.len() ==> ((#[trigger] lines[j]).cursor is None || is_place(
            lines[j].cursor,
        )),
        cols >= 1,
    ensures
        sheet_of(lines, cols).cursor matches Some((t, k)) && 0 <= t < sheet_of(
            lines,
            cols,
        ).rows.len() && 0 <= k < cols,
    decreases lines.len(),
{
    let front = lines.drop_last();
    let line = lines.last();
    assert(line == lines[lines.len() - 1]);
    if line.cursor is Some {
        crate::grid::reflow::lemma_locate_row(line.items, 0, line.cursor->0, cols);
    } else {
        assert(front[k] == lines[k]);
        assert forall|j: int| 0 <= j < front.len() implies ((#[trigger] front[j]).cursor is None
            || is_place(front[j].cursor)) by {
            assert(front[j] == lines[j]);
        }
        lemma_sheet_cursor(front, k, cols);
    }
}

/// Places that are gathered are not negative.
proof fn lemma_places(g: GridModel, n: int)
    ensures
        forall|j: int|
            0 <= j < g.lines_of_rows(n).0.len() ==> ((#[trigger] g.lines_of_rows(n).0[j]).cursor
                is None || is_place(g.lines_of_rows(n).0[j].cursor)),
        g.lines_of_rows(n).1.cursor is None || is_place(g.lines_of_rows(n).1.cursor),
    decreases n,
{
    if n > 0 {
        lemma_places(g, n - 1);
    }
}

/// A change of width keeps the cursor on its line: the screen shows, in the cursor's row, the row
/// of the text that the cursor belongs to.
pub proof fn law_reflow_keeps_cursor_line(g: GridModel, cols: usize, rows: usize)
    requires
        g.wf(),
        g.cursor.row < g.rows,
        cols >= 1,
        rows >= 1,
    ensures
        ({
            let after = g.reflowed(cols, rows);
            &&& sheet_of(g.logical_lines(), cols as int).cursor matches Some((r, k))
            &&& after.lines[after.cursor.row as int] == g.reflow_rows(cols, rows)[r].touched()
            &&& after.cursor.col == least(k, cols - 1)
        }),
{
    let n = g.row_count();
    let lines = g.logical_lines();
    let (done, open) = g.lines_of_rows(n);
    lemma_cursor_gathered(g, n);
    lemma_places(g, n);
    assert forall|j: int| 0 <= j < lines.len() implies ((#[trigger] lines[j]).cursor is None
        || is_place(lines[j].cursor)) by {
        if j < done.len() {
            assert(lines[j] == done[j]);
        }
    }
    let k = if is_place(open.cursor) {
        done.len() as int
    } else {
        choose|k: int| 0 <= k < done.len() && is_place((#[trigger] done[k]).cursor)
    };
    assert(is_place(lines[k].cursor));
    lemma_sheet_cursor(lines, k, cols as int);
    let all = g.reflow_rows(cols, rows);
    let sheet = sheet_of(lines, cols as int);
    let (r, _) = sheet.cursor->0;
    let after = g.reflowed(cols, rows);
    let top = g.reflow_above(cols, rows);
    assert(top <= r < top + rows);
    assert(after.cursor.row == r - top);
    assert(after.lines[r - top] == all[r].touched());
}

/// Whether two rows differ at most in whether they are marked for redrawing.
spec fn same_text(a: RowModel, b: RowModel) -> bool {
    a.touched() == b.touched()
}

proof fn lemma_items_of_touched(a: RowModel, b: RowModel, n: int)
    requires
        same_text(a, b),
    ensures
        row_items(a, n) == row_items(b, n),
    decreases n,
{
    assert(a.cells == a.touched().cells && b.cells == b.touched().cells);
    assert(a.placeholders == a.touched().placeholders && b.placeholders
        == b.touched().placeholders);
    if n > 0 {
        lemma_items_of_touched(a, b, n - 1);
    }
}

proof fn lemma_marks_do_not_read(a: Seq<RowModel>, b: Seq<RowModel>)
    requires
        a.len() == b.len(),
        forall|i: int| 0 <= i < a.len() ==> same_text(a[i], #[trigger] b[i]),
    ensures
        read_rows(a) == read_rows(b),
    decreases a.len(),
{
    if a.len() > 0 {
        assert forall|i: int| 0 <= i < a.drop_last().len() implies same_text(
            a.drop_last()[i],
            #[trigger] b.drop_last()[i],
        ) by {
            assert(b.drop_last()[i] == b[i]);
        }
        lemma_marks_do_not_read(a.drop_last(), b.drop_last());
        let x = a.last();
        let y = b.last();
        assert(same_text(a[a.len() - 1], b[b.len() - 1]));
        assert(x.cells == x.touched().cells && y.cells == y.touched().cells);
        assert(x.wrapped == x.touched().wrapped && y.wrapped == y.touched().wrapped);
        lemma_items_of_touched(x, y, x.cells.len() as int);
        lemma_items_of_touched(x, y, text_len(x.cells));
    }
}

/// A continued row never ends with the left half of a wide character: the character moves to the
/// next row as a whole, unless the rows have only one column.
pub proof fn law_wide_characters_stay_whole(items: Seq<Item>, from: int, cols: int)
    requires
        0 <= from <= items.len(),
        cols >= 2,
    ensures
        ({
            let row = piece_row(items, from, cols);
            row.wrapped ==> !row.cells[cols - 1].flags.has(CellFlags::wide_char())
        }),
{
    lemma_piece_len(items, from, cols);
    let n = piece_len(items, from, cols);
    let row = piece_row(items, from, cols);
    if row.wrapped {
        assert((0u16 | 0x2000u16) & 0x80u16 != 0x80u16) by (bit_vector);
        if n < cols {
            assert(row.cells[cols - 1] == filler());
        } else {
            assert(row.cells[cols - 1] == items[from + cols - 1].0);
        }
    }
}

/// New output does not move a viewport in the history: as long as the rows it shows exist, it
/// keeps showing them.
pub proof fn law_history_view_is_anchored(g: GridModel, count: usize, row: int)
    requires
        g.wf(),
        g.feeds_history(),
        g.viewport_offset > 0,
        g.room_for(least(count as int, g.region_len())),
        0 <= row < g.rows,
        ({
            let n = least(count as int, g.region_len());
            g.viewport_offset + n <= g.scrollback.len() + n - g.overflow(n)
        }),
    ensures
        g.scrolled_up(count).shown(row).touched() == g.shown(row).touched(),
{
    let n = least(count as int, g.region_len());
    if n > 0 {
        let d = g.overflow(n);
        let h = g.with_history(g.lines.take(n));
        assert(h.scrollback.len() == g.scrollback.len() + n - d);
        assert(h.viewport_offset == g.viewport_offset + n);
        let after = g.scrolled_up(count);
        let old_index = g.scrollback.len() + row - g.viewport_offset;
        let all = g.scrollback + g.lines.take(n);
        if row < g.viewport_offset {
            assert(after.shown(row) == after.scrollback[old_index - d]);
            assert(after.scrollback[old_index - d].touched() == all[old_index].touched());
        } else if row < g.viewport_offset + n {
            assert(after.shown(row) == after.scrollback[old_index - d]);
            assert(after.scrollback[old_index - d].touched() == all[old_index].touched());
            assert(all[old_index] == g.lines[row - g.viewport_offset]);
        } else {
            assert(after.shown(row) == after.lines[row - g.viewport_offset - n]);
        }
    }
}

/// The history never holds more rows than its capacity, or than it already held.
pub proof fn law_history_is_bounded(g: GridModel, rows: Seq<RowModel>)
    requires
        g.max_scrollback > 0,
        g.scrollback.len() + rows.len() <= usize::MAX,
    ensures
        g.with_history(rows).scrollback.len() <= most(
            g.scrollback.len() as int,
            g.max_scrollback as int,
        ),
{
}

/// Leaving the alternate screen brings the primary screen back as it was: its text, both cursors
/// and its placements. Only the viewport returns to the screen, and everything is redrawn.
pub proof fn law_alt_screen_round_trip(g: GridModel)
    requires
        g.alt_lines is None,
        g.alt_cursor is None,
        g.alt_saved_cursor is None,
        g.alt_placements.len() == 0,
    ensures
        g.alt_entered().alt_left() == (GridModel { viewport_offset: 0, ..g }).redrawn(),
{
    assert(g.alt_placements =~= Seq::empty());
    assert(g.alt_entered().alt_left() =~= (GridModel { viewport_offset: 0, ..g }).redrawn());
}

/// Something done to the screen that is in use.
pub enum ScreenStep {
    Write(Cell, int),
    WriteRun(Seq<u8>, Cell),
    NextRow,
    MoveTo(Cursor),
    SaveCursor,
    RestoreCursor,
    ScrollUp(usize),
    ScrollDown(usize),
    SetRegion(usize, usize),
    ClearScreen(ClearMode),
    ClearLine(ClearMode),
    InsertChars(usize),
    DeleteChars(usize),
    InsertLines(usize),
    DeleteLines(usize),
    AddPlacement(ImagePlacement),
    Redraw,
}

impl GridModel {
    /// The grid after a step.
    pub open spec fn stepped(self, step: ScreenStep) -> GridModel {
        match step {
            ScreenStep::Write(cell, w) => self.typed(cell, w),
            ScreenStep::WriteRun(text, cell) => self.run_written(text, cell),
            ScreenStep::NextRow => self.on_next_row(),
            ScreenStep::MoveTo(cursor) => GridModel { cursor, ..self },
            ScreenStep::SaveCursor => GridModel { saved_cursor: self.cursor, ..self },
            ScreenStep::RestoreCursor => GridModel {
                cursor: clamped(self.saved_cursor, self.rows, self.cols),
                ..self
            },
            ScreenStep::ScrollUp(n) => self.scrolled_up(n),
            ScreenStep::ScrollDown(n) => self.scrolled_down(n),
            ScreenStep::SetRegion(top, bottom) => GridModel {
                scroll_region_top: top,
                scroll_region_bottom: bottom,
                ..self
            },
            ScreenStep::ClearScreen(mode) => self.cleared(mode),
            ScreenStep::ClearLine(mode) => self.line_cleared(mode),
            ScreenStep::InsertChars(n) => self.chars_inserted(n),
            ScreenStep::DeleteChars(n) => self.chars_deleted(n),
            ScreenStep::InsertLines(n) => self.lines_inserted(n),
            ScreenStep::DeleteLines(n) => self.lines_deleted(n),
            ScreenStep::AddPlacement(p) => self.placement_added(p),
            ScreenStep::Redraw => self.redrawn(),
        }
    }

    /// The grid after steps in order.
    pub open spec fn stepped_through(self, steps: Seq<ScreenStep>) -> GridModel
        decreases steps.len(),
    {
        if steps.len() == 0 {
            self
        } else {
            self.stepped_through(steps.drop_last()).stepped(steps.last())
        }
    }
}

/// Whether a grid keeps the primary screen and the history of another one aside, up to what is
/// marked for redrawing.
spec fn keeps_aside(g: GridModel, primary: GridModel) -> bool {
    &&& g.alt_lines is Some
    &&& touched_rows(g.alt_lines->0) == touched_rows(primary.lines)
    &&& g.alt_cursor == Some(primary.cursor)
    &&& g.alt_saved_cursor == Some(primary.saved_cursor)
    &&& g.alt_placements == primary.placements
    &&& touched_rows(g.scrollback) == touched_rows(primary.scrollback)
    &&& g.rows == primary.rows
    &&& g.cols == primary.cols
    &&& g.max_scrollback == primary.max_scrollback
    &&& g.total_evicted_rows == primary.total_evicted_rows
}

/// Rows that are marked already are not changed by marking them.
proof fn lemma_touched_twice(rows: Seq<RowModel>)
    ensures
        touched_rows(touched_rows(rows)) == touched_rows(rows),
{
    assert(touched_rows(touched_rows(rows)) =~= touched_rows(rows));
}

/// A run of text on the alternate screen leaves what is kept aside alone.
proof fn lemma_run_keeps_aside(g: GridModel, primary: GridModel, text: Seq<u8>, cell: Cell)
    requires
        keeps_aside(g, primary),
    ensures
        keeps_aside(g.run_written(text, cell), primary),
    decreases text.len(),
{
    if text.len() > 0 {
        lemma_run_keeps_aside(g, primary, text.drop_last(), cell);
    }
}

/// A step on the alternate screen leaves what is kept aside alone.
proof fn lemma_step_keeps_aside(g: GridModel, primary: GridModel, step: ScreenStep)
    requires
        keeps_aside(g, primary),
        step != ScreenStep::ClearScreen(ClearMode::Saved),
    ensures
        keeps_aside(g.stepped(step), primary),
{
    lemma_touched_twice(g.scrollback);
    lemma_touched_twice(g.alt_lines->0);
    if let ScreenStep::WriteRun(text, cell) = step {
        lemma_run_keeps_aside(g, primary, text, cell);
    }
}

proof fn lemma_steps_keep_aside(g: GridModel, primary: GridModel, steps: Seq<ScreenStep>)
    requires
        keeps_aside(g, primary),
        forall|i: int|
            0 <= i < steps.len() ==> #[trigger] steps[i] != ScreenStep::ClearScreen(
                ClearMode::Saved,
            ),
    ensures
        keeps_aside(g.stepped_through(steps), primary),
    decreases steps.len(),
{
    if steps.len() > 0 {
        let front = steps.drop_last();
        assert forall|i: int| 0 <= i < front.len() implies #[trigger] front[i]
            != ScreenStep::ClearScreen(ClearMode::Saved) by {
            assert(front[i] == steps[i]);
        }
        lemma_steps_keep_aside(g, primary, front);
        assert(steps[steps.len() - 1] != ScreenStep::ClearScreen(ClearMode::Saved));
        lemma_step_keeps_aside(g.stepped_through(front), primary, steps.last());
    }
}

/// Whatever is done on the alternate screen, leaving it brings the primary screen back: its text,
/// both cursors and its placements, with the history as it was. Only clearing the history itself
/// is left out. On the primary screen leaving changes nothing.
pub proof fn law_primary_screen_survives(g: GridModel, steps: Seq<ScreenStep>)
    requires
        g.alt_lines is None,
        forall|i: int|
            0 <= i < steps.len() ==> #[trigger] steps[i] != ScreenStep::ClearScreen(
                ClearMode::Saved,
            ),
    ensures
        ({
            let back = g.alt_entered().stepped_through(steps).alt_left();
            &&& back.alt_lines is None
            &&& back.lines == touched_rows(g.lines)
            &&& back.scrollback == touched_rows(g.scrollback)
            &&& back.cursor == g.cursor
            &&& back.saved_cursor == g.saved_cursor
            &&& back.placements == g.placements
            &&& back.viewport_offset == 0
            &&& back.rows == g.rows
            &&& back.cols == g.cols
        }),
        g.alt_left() == g,
{
    lemma_steps_keep_aside(g.alt_entered(), g, steps);
}

/// A run of text leaves the saved cursor and the dimensions alone.
proof fn lemma_run_keeps_saved(g: GridModel, text: Seq<u8>, cell: Cell)
    ensures
        ({
            let after = g.run_written(text, cell);
            after.saved_cursor == g.saved_cursor && after.rows == g.rows && after.cols == g.cols
        }),
    decreases text.len(),
{
    if text.len() > 0 {
        lemma_run_keeps_saved(g, text.drop_last(), cell);
    }
}

/// Only saving the cursor changes the saved one.
proof fn lemma_steps_keep_saved(g: GridModel, steps: Seq<ScreenStep>)
    requires
        forall|i: int| 0 <= i < steps.len() ==> #[trigger] steps[i] != ScreenStep::SaveCursor,
    ensures
        ({
            let after = g.stepped_through(steps);
            after.saved_cursor == g.saved_cursor && after.rows == g.rows && after.cols == g.cols
        }),
    decreases steps.len(),
{
    if steps.len() > 0 {
        let front = steps.drop_last();
        assert forall|i: int| 0 <= i < front.len() implies #[trigger] front[i]
            != ScreenStep::SaveCursor by {
            assert(front[i] == steps[i]);
        }
        lemma_steps_keep_saved(g, front);
        assert(steps[steps.len() - 1] != ScreenStep::SaveCursor);
        if let ScreenStep::WriteRun(text, cell) = steps.last() {
            lemma_run_keeps_saved(g.stepped_through(front), text, cell);
        }
    }
}

/// Whatever is written and wherever the cursor goes after it was saved, restoring it brings it
/// back, onto the screen, with its shape and its visibility. It stays saved, so restoring it once
/// more gives the same cursor.
pub proof fn law_restoring_undoes_moves(g: GridModel, steps: Seq<ScreenStep>)
    requires
        forall|i: int| 0 <= i < steps.len() ==> #[trigger] steps[i] != ScreenStep::SaveCursor,
    ensures
        ({
            let saved = g.stepped(ScreenStep::SaveCursor);
            let back = saved.stepped_through(steps).stepped(ScreenStep::RestoreCursor);
            &&& back.cursor == clamped(g.cursor, g.rows, g.cols)
            &&& back.saved_cursor == g.cursor
            &&& back.stepped(ScreenStep::RestoreCursor).cursor == back.cursor
        }),
{
    lemma_steps_keep_saved(g.stepped(ScreenStep::SaveCursor), steps);
}

/// The steps that write the characters of a run one by one.
pub open spec fn typed_one_by_one(text: Seq<u8>, cell: Cell) -> Seq<ScreenStep> {
    text.map_values(
        |b: u8| ScreenStep::Write(Cell { c: b as char, ..cell }, cell_width(b as char)),
    )
}

/// Writing a run of printable ASCII is writing its characters one by one, wrapping and scrolling
/// included.
pub proof fn law_runs_are_their_characters(g: GridModel, text: Seq<u8>, cell: Cell)
    requires
        forall|i: int| 0 <= i < text.len() ==> 0x20 <= #[trigger] text[i] <= 0x7e,
    ensures
        g.run_written(text, cell) == g.stepped_through(typed_one_by_one(text, cell)),
    decreases text.len(),
{
    let steps = typed_one_by_one(text, cell);
    if text.len() > 0 {
        let front = text.drop_last();
        assert forall|i: int| 0 <= i < front.len() implies 0x20 <= #[trigger] front[i] <= 0x7e by {
            assert(front[i] == text[i]);
        }
        law_runs_are_their_characters(g, front, cell);
        assert(steps.drop_last() =~= typed_one_by_one(front, cell));
        assert(0x20 <= text[text.len() - 1] <= 0x7e);
    }
}

/// A newline at the bottom of the scroll region scrolls it by one row and leaves the cursor where
/// it is; elsewhere it moves the cursor down, but not off the screen, and changes nothing else.
pub proof fn law_newlines_scroll_at_the_bottom(g: GridModel)
    requires
        g.wf(),
        g.cursor.row < g.rows,
    ensures
        ({
            let after = g.on_next_row();
            if g.cursor.row == g.scroll_region_bottom {
                after == g.scrolled_up(1) && after.cursor == g.cursor
            } else {
                after == (GridModel {
                    cursor: Cursor {
                        row: least(g.cursor.row + 1, g.rows - 1) as usize,
                        ..g.cursor
                    },
                    ..g
                })
            }
        }),
{
}

/// The places of both cursors among lines that are gathered are not negative.
spec fn sound_places(line: LineModel) -> bool {
    (line.cursor is None || is_place(line.cursor)) && (line.saved is None || is_place(line.saved))
}

proof fn lemma_sound_places(g: GridModel, n: int)
    ensures
        forall|j: int|
            0 <= j < g.lines_of_rows(n).0.len() ==> sound_places(
                #[trigger] g.lines_of_rows(n).0[j],
            ),
        sound_places(g.lines_of_rows(n).1),
    decreases n,
{
    if n > 0 {
        lemma_sound_places(g, n - 1);
    }
}

/// Whether a spot on a sheet has a column of it.
spec fn in_columns(spot: Option<(int, int)>, cols: int) -> bool {
    match spot {
        Some((_, k)) => 0 <= k < cols,
        None => true,
    }
}

proof fn lemma_sheet_columns(lines: Seq<LineModel>, cols: int)
    requires
        forall|j: int| 0 <= j < lines.len() ==> sound_places(#[trigger] lines[j]),
        cols >= 1,
    ensures
        in_columns(sheet_of(lines, cols).cursor, cols),
        in_columns(sheet_of(lines, cols).saved, cols),
    decreases lines.len(),
{
    if lines.len() > 0 {
        let front = lines.drop_last();
        let line = lines.last();
        assert(sound_places(lines[lines.len() - 1]));
        assert forall|j: int| 0 <= j < front.len() implies sound_places(#[trigger] front[j]) by {
            assert(front[j] == lines[j]);
        }
        lemma_sheet_columns(front, cols);
        if line.cursor is Some {
            crate::grid::reflow::lemma_locate_row(line.items, 0, line.cursor->0, cols);
        }
        if line.saved is Some {
            crate::grid::reflow::lemma_locate_row(line.items, 0, line.saved->0, cols);
        }
    }
}

/// What every change of size establishes: the dimensions, rows and history of the new width, both
/// cursors on a cell, the scroll region over the whole screen, and a viewport and a history within
/// their limits.
pub open spec fn fits(g: GridModel, cols: int, rows: int) -> bool {
    &&& g.cols == cols
    &&& g.rows == rows
    &&& g.lines.len() == rows
    &&& all_wide(g.lines, g.cols)
    &&& all_wide(g.scrollback, g.cols)
    &&& g.alt_lines matches Some(alt) ==> alt.len() == rows && all_wide(alt, g.cols)
    &&& g.cursor.row < rows && g.cursor.col < cols
    &&& g.saved_cursor.row < rows && g.saved_cursor.col < cols
    &&& g.scroll_region_top == 0
    &&& g.scroll_region_bottom == rows - 1
    &&& g.viewport_offset <= g.scrollback.len() <= g.max_scrollback
}

proof fn lemma_reflowed_fits(g: GridModel, cols: usize, rows: usize)
    requires
        g.wf(),
        g.alt_lines is None,
        cols >= 1,
        rows >= 1,
    ensures
        fits(g.reflowed(cols, rows), cols as int, rows as int),
{
    let lines = g.logical_lines();
    let (done, open) = g.lines_of_rows(g.row_count());
    lemma_sound_places(g, g.row_count());
    assert forall|j: int| 0 <= j < lines.len() implies sound_places(#[trigger] lines[j]) by {
        if j < done.len() {
            assert(lines[j] == done[j]);
        }
    }
    lemma_sheet_columns(lines, cols as int);
    crate::grid::resize::lemma_sheet_wide(lines, cols);
    let all = g.reflow_rows(cols, rows);
    assert(all_wide(all, cols));
    let after = g.reflowed(cols, rows);
    let top = g.reflow_above(cols, rows);
    assert(0 <= top <= all.len() - rows);
    assert(after.lines.len() == rows);
    assert(after.scrollback.len() <= g.max_scrollback);
}

/// Whatever size is asked for, a resized grid fits it: see `fits`. A dimension of zero counts as
/// one.
pub proof fn law_resized_grids_fit(g: GridModel, cols: usize, rows: usize)
    requires
        g.wf(),
        g.scrollback.len() <= g.max_scrollback,
        g.room_for(rows as int + 1),
        g.room_for(g.rows as int),
    ensures
        fits(g.resized(cols, rows), most(cols as int, 1), most(rows as int, 1)),
{
    let c = most(cols as int, 1) as usize;
    let r = most(rows as int, 1) as usize;
    if g.alt_lines is None && c != g.cols {
        lemma_reflowed_fits(g, c, r);
    } else {
        crate::grid::resize::lemma_resized_wf(g, c, r);
        if r < g.rows && g.alt_lines is None {
            crate::grid::resize::lemma_same_width(g, c);
            let top = crate::grid::resize::cut_at_top(
                g.lines.len() as int,
                g.rows - r,
                g.cursor.row as int,
            );
            if g.max_scrollback > 0 {
                law_history_is_bounded(g, g.lines.take(top));
            }
        }
    }
}

/// Neither switching screens nor resizing takes a cursor off its screen, and that goes for the
/// cursor of a hidden primary screen too. So the screen that comes back can be written to at once.
pub proof fn law_cursors_keep_their_screens(g: GridModel, cols: usize, rows: usize)
    requires
        g.wf(),
        g.cursor_on_screen(),
        g.hidden_cursor_on_screen(),
    ensures
        g.alt_entered().cursor_on_screen(),
        g.alt_entered().hidden_cursor_on_screen(),
        g.alt_left().cursor_on_screen(),
        g.alt_left().hidden_cursor_on_screen(),
        g.alt_lines is Some ==> g.resized(cols, rows).hidden_cursor_on_screen(),
        g.alt_lines is Some ==> g.resized(cols, rows).alt_left().cursor_on_screen(),
{
}

/// Writing a run of text in two pieces is writing it in one.
pub proof fn law_runs_concatenate(g: GridModel, a: Seq<u8>, b: Seq<u8>, cell: Cell)
    ensures
        g.run_written(a + b, cell) == g.run_written(a, cell).run_written(b, cell),
    decreases b.len(),
{
    if b.len() == 0 {
        assert(a + b =~= a);
    } else {
        law_runs_concatenate(g, a, b.drop_last(), cell);
        assert((a + b).drop_last() =~= a + b.drop_last());
        assert((a + b).last() == b.last());
    }
}

/// A primary screen that is made lower and taller again shows the rows it showed: those that the
/// lower screen pushed into the history come back. This holds with the cursor on the last row,
/// where no row is cut below it, a history with room and the viewport on the screen.
#[verifier::rlimit(60)]
pub proof fn law_shrink_and_grow_restores(g: GridModel, rows: usize)
    requires
        g.wf(),
        g.alt_lines is None,
        g.cursor.row == g.rows - 1,
        g.cursor.col < g.cols,
        g.viewport_offset == 0,
        1 <= rows < g.rows,
        g.room_for(g.rows as int),
        g.scrollback.len() + (g.rows - rows) <= g.max_scrollback,
    ensures
        ({
            let back = g.resized(g.cols, rows).resized(g.cols, g.rows);
            &&& back.lines == touched_rows(g.lines)
            &&& back.scrollback == touched_rows(g.scrollback)
            &&& back.cursor == g.cursor
        }),
{
    let n = g.rows - rows;
    let wide = g.all_widened(g.cols);
    crate::grid::resize::lemma_same_width(g, g.cols);
    let small = g.resized(g.cols, rows);
    let top = crate::grid::resize::cut_at_top(g.lines.len() as int, n, g.cursor.row as int);
    assert(top == n);
    assert(small.scrollback =~= touched_rows(g.scrollback + g.lines.take(n)));
    assert(small.lines =~= touched_rows(g.lines.skip(n).take(rows as int)));
    crate::grid::resize::lemma_resized_wf(g, g.cols, rows);
    crate::grid::resize::lemma_same_width(small, g.cols);
    let back = small.resized(g.cols, g.rows);
    assert(small.pulled(g.rows) == n);
    let h = small.scrollback.len() - n;
    assert(small.scrollback.skip(h) =~= touched_rows(g.lines.take(n)));
    assert(small.scrollback.take(h) =~= touched_rows(g.scrollback));
    let pulled = small.scrollback.skip(h) + small.lines + blank_rows(0, g.cols);
    assert(back.lines == touched_rows(pulled));
    assert(back.lines =~= touched_rows(g.lines));
    assert(back.scrollback =~= touched_rows(g.scrollback));
    assert(small.cursor.row == rows - 1);
    assert(back.cursor == g.cursor);
}

} // verus!
