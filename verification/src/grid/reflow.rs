//! Logical lines of text and their distribution over rows of a width.

use crate::grid::model::{least, most, GridModel};
use crate::grid::row::{blank_cell, Cell, CellFlags, Coords, Row, RowModel};
use crate::grid::{row_models, Grid};
use crate::kitty::ImagePlacement;
use std::collections::BTreeSet;
use std::collections::HashMap;
use vstd::prelude::*;

verus! {

broadcast use {
    vstd::std_specs::hash::group_hash_axioms,
    vstd::std_specs::btree::group_btree_axioms,
};

/// A cell of a logical line with the image coordinates it carries.
pub type Item = (Cell, Option<(u16, u16, u8)>);

/// Whether a cell only fills the end of a row whose wide character moved to the next one.
pub open spec fn is_filler(c: Cell) -> bool {
    c.flags.has(CellFlags::wrap_spacer())
}

/// The image coordinates at a column.
pub open spec fn coord_at(coords: Coords, col: int) -> Option<(u16, u16, u8)> {
    if coords.contains_key(col as usize) {
        Some(coords[col as usize])
    } else {
        None
    }
}

/// What the first `n` cells of a row contribute to its logical line: all but the fillers.
pub open spec fn row_items(row: RowModel, n: int) -> Seq<Item>
    decreases n,
{
    if n <= 0 {
        Seq::empty()
    } else if is_filler(row.cells[n - 1]) {
        row_items(row, n - 1)
    } else {
        row_items(row, n - 1).push((row.cells[n - 1], coord_at(row.placeholders, n - 1)))
    }
}

/// The number of cells up to the last one that is not blank.
pub open spec fn text_len(cells: Seq<Cell>) -> int
    decreases cells.len(),
{
    if cells.len() == 0 {
        0
    } else if cells.last() != blank_cell() {
        cells.len() as int
    } else {
        text_len(cells.drop_last())
    }
}

/// The place of a column among what a row contributes; past that, its end.
pub open spec fn place_in_row(row: RowModel, n: int, col: int) -> int {
    if col < n && !is_filler(row.cells[col]) {
        row_items(row, col).len() as int
    } else {
        row_items(row, n).len() as int
    }
}

/// A line of text before it is distributed over rows, with the places that are followed: those of
/// the cursor, the saved cursor, the top of the viewport and the image placements.
#[verifier::ext_equal]
pub struct LineModel {
    pub items: Seq<Item>,
    pub cursor: Option<int>,
    pub saved: Option<int>,
    pub view: Option<int>,
    pub placements: Seq<(int, ImagePlacement)>,
    pub marked: bool,
}

impl LineModel {
    /// A line without anything.
    pub open spec fn empty() -> LineModel {
        LineModel {
            items: Seq::empty(),
            cursor: None,
            saved: None,
            view: None,
            placements: Seq::empty(),
            marked: false,
        }
    }
}

/// The placements anchored to a row, each with the place of the row's start in its line.
pub open spec fn anchored(ps: Seq<ImagePlacement>, row: int, at: int) -> Seq<(int, ImagePlacement)>
    decreases ps.len(),
{
    if ps.len() == 0 {
        Seq::empty()
    } else {
        let front = anchored(ps.drop_last(), row, at);
        if ps.last().line == row {
            front.push((at, ps.last()))
        } else {
            front
        }
    }
}

impl GridModel {
    /// A row of the history and the screen, counted from the oldest one.
    pub open spec fn row_at(self, i: int) -> RowModel {
        if i < self.scrollback.len() {
            self.scrollback[i]
        } else {
            self.lines[i - self.scrollback.len()]
        }
    }

    /// The number of rows of the history and the screen.
    pub open spec fn row_count(self) -> int {
        (self.scrollback.len() + self.lines.len()) as int
    }

    /// The row of the cursor, counted from the oldest row.
    pub open spec fn cursor_abs(self) -> int {
        self.scrollback.len() + self.cursor.row
    }

    /// The row of the saved cursor, counted from the oldest row.
    pub open spec fn saved_abs(self) -> int {
        self.scrollback.len() + self.saved_cursor.row
    }

    /// Whether a row is at the top of a viewport in the history.
    pub open spec fn is_view_top(self, i: int) -> bool {
        self.viewport_offset > 0 && i == most(self.scrollback.len() - self.viewport_offset, 0)
    }

    /// How many cells of a row count: all of a continued row; of another those up to its last text
    /// and up to the cursors.
    pub open spec fn used_len(self, i: int) -> int {
        let row = self.row_at(i);
        let len = row.cells.len() as int;
        if row.wrapped {
            len
        } else {
            most(
                text_len(row.cells),
                most(
                    if i == self.cursor_abs() {
                        least(self.cursor.col + 1, len)
                    } else {
                        0
                    },
                    if i == self.saved_abs() {
                        least(self.saved_cursor.col + 1, len)
                    } else {
                        0
                    },
                ),
            )
        }
    }

    /// The line with what a row anchors to it, but not yet the row's cells.
    pub open spec fn line_noted(self, line: LineModel, i: int) -> LineModel {
        LineModel {
            placements: line.placements + anchored(self.placements, i, line.items.len() as int),
            marked: line.marked || self.has_mark(i),
            ..line
        }
    }

    /// Whether a row is an empty one below the cursors, which no line keeps.
    pub open spec fn is_trailing_blank(self, line: LineModel, i: int) -> bool {
        let row = self.row_at(i);
        let noted = self.line_noted(line, i);
        &&& i > self.cursor_abs()
        &&& i > self.saved_abs()
        &&& text_len(row.cells) == 0
        &&& !row.wrapped
        &&& !noted.marked
        &&& noted.placements.len() == 0
    }

    /// The line continued with a row.
    pub open spec fn line_extended(self, line: LineModel, i: int) -> LineModel {
        let row = self.row_at(i);
        let n = self.used_len(i);
        let at = line.items.len() as int;
        let noted = self.line_noted(line, i);
        LineModel {
            items: line.items + row_items(row, n),
            cursor: if i == self.cursor_abs() {
                Some(at + place_in_row(row, n, self.cursor.col as int))
            } else {
                line.cursor
            },
            saved: if i == self.saved_abs() {
                Some(at + place_in_row(row, n, self.saved_cursor.col as int))
            } else {
                line.saved
            },
            view: if self.is_view_top(i) {
                Some(at)
            } else {
                line.view
            },
            ..noted
        }
    }

    /// The lines that the first `n` rows complete, and the line that is still open behind them.
    pub open spec fn lines_of_rows(self, n: int) -> (Seq<LineModel>, LineModel)
        decreases n,
    {
        if n <= 0 {
            (Seq::empty(), LineModel::empty())
        } else {
            let (done, open) = self.lines_of_rows(n - 1);
            if self.is_trailing_blank(open, n - 1) {
                (done, open)
            } else {
                let line = self.line_extended(open, n - 1);
                if self.row_at(n - 1).wrapped {
                    (done, line)
                } else {
                    (done.push(line), LineModel::empty())
                }
            }
        }
    }

    /// The logical lines of the history and the screen.
    pub open spec fn logical_lines(self) -> Seq<LineModel> {
        let (done, open) = self.lines_of_rows(self.row_count());
        if open.items.len() > 0 || open.cursor is Some || open.saved is Some
            || open.placements.len() > 0 {
            done.push(open)
        } else {
            done
        }
    }
}

/// The number of items that the row starting at an item takes: as many as fit, but one less where
/// the last one would be the left half of a wide character whose other half does not fit.
pub open spec fn piece_len(items: Seq<Item>, from: int, cols: int) -> int {
    let n = least(items.len() - from, cols);
    if from + n < items.len() && n > 1 && items[from + n - 1].0.flags.has(CellFlags::wide_char()) {
        n - 1
    } else {
        n
    }
}

/// The cell that fills the end of a row whose wide character moved on.
pub open spec fn filler() -> Cell {
    Cell { flags: blank_cell().flags.with(CellFlags::wrap_spacer()), ..blank_cell() }
}

/// The row that starts at an item.
pub open spec fn piece_row(items: Seq<Item>, from: int, cols: int) -> RowModel {
    let n = piece_len(items, from, cols);
    let full = least(items.len() - from, cols);
    RowModel {
        cells: Seq::new(
            cols as nat,
            |i: int|
                if i < n {
                    items[from + i].0
                } else if i < full {
                    filler()
                } else {
                    blank_cell()
                },
        ),
        wrapped: from + n < items.len(),
        placeholders: Map::new(
            |k: usize| k < n && items[from + k].1 is Some,
            |k: usize| items[from + k].1->0,
        ),
        dirty: true,
    }
}

/// The rows of the items from one on. A line without items has one blank row.
pub open spec fn wrapped_rows(items: Seq<Item>, from: int, cols: int) -> Seq<RowModel>
    decreases items.len() - from,
{
    let n = piece_len(items, from, cols);
    if n < 1 || from + n >= items.len() {
        seq![piece_row(items, from, cols)]
    } else {
        seq![piece_row(items, from, cols)] + wrapped_rows(items, from + n, cols)
    }
}

/// The row and column of an item among the rows from one on. Past the end it is the last row.
pub open spec fn locate(items: Seq<Item>, from: int, at: int, cols: int) -> (int, int)
    decreases items.len() - from,
{
    let n = piece_len(items, from, cols);
    if n < 1 || from + n >= items.len() || at < from + n {
        (0, least(at - from, cols - 1))
    } else {
        let (r, c) = locate(items, from + n, at, cols);
        (r + 1, c)
    }
}

/// Rows distributed anew, with the places that are followed.
#[verifier::ext_equal]
pub struct SheetModel {
    pub rows: Seq<RowModel>,
    pub marks: Set<int>,
    pub placements: Seq<ImagePlacement>,
    pub cursor: Option<(int, int)>,
    pub saved: Option<(int, int)>,
    pub view: Option<int>,
}

/// A place of a line as a row and a column of the sheet on which the line starts at a row.
pub open spec fn spot(items: Seq<Item>, start: int, at: Option<int>, cols: int) -> Option<(int, int)> {
    match at {
        Some(o) => {
            let (r, c) = locate(items, 0, o, cols);
            Some((start + r, c))
        },
        None => None,
    }
}

/// The placements of a line on the sheet on which the line starts at a row.
pub open spec fn settled(
    items: Seq<Item>,
    start: int,
    ps: Seq<(int, ImagePlacement)>,
    cols: int,
) -> Seq<ImagePlacement> {
    ps.map_values(
        |x: (int, ImagePlacement)|
            ImagePlacement { line: (start + locate(items, 0, x.0, cols).0) as usize, ..x.1 },
    )
}

impl SheetModel {
    /// A sheet without rows.
    pub open spec fn empty() -> SheetModel {
        SheetModel {
            rows: Seq::empty(),
            marks: Set::empty(),
            placements: Seq::empty(),
            cursor: None,
            saved: None,
            view: None,
        }
    }

    /// The sheet with a line behind its rows.
    pub open spec fn with_line(self, line: LineModel, cols: int) -> SheetModel {
        let start = self.rows.len() as int;
        SheetModel {
            rows: self.rows + wrapped_rows(line.items, 0, cols),
            marks: if line.marked {
                self.marks.insert(start)
            } else {
                self.marks
            },
            placements: self.placements + settled(line.items, start, line.placements, cols),
            cursor: match spot(line.items, start, line.cursor, cols) {
                Some(s) => Some(s),
                None => self.cursor,
            },
            saved: match spot(line.items, start, line.saved, cols) {
                Some(s) => Some(s),
                None => self.saved,
            },
            view: match (self.view, spot(line.items, start, line.view, cols)) {
                (None, Some(s)) => Some(s.0),
                (v, _) => v,
            },
        }
    }
}

/// Lines distributed over rows of a width.
pub open spec fn sheet_of(lines: Seq<LineModel>, cols: int) -> SheetModel
    decreases lines.len(),
{
    if lines.len() == 0 {
        SheetModel::empty()
    } else {
        sheet_of(lines.drop_last(), cols).with_line(lines.last(), cols)
    }
}

/// A line of text before it is distributed over rows.
pub struct LogicalLine {
    pub items: Vec<Item>,
    pub cursor: Option<usize>,
    pub saved: Option<usize>,
    pub view: Option<usize>,
    pub placements: Vec<(usize, ImagePlacement)>,
    pub marked: bool,
}

/// An optional machine word as a number.
pub open spec fn as_place(o: Option<usize>) -> Option<int> {
    match o {
        Some(n) => Some(n as int),
        None => None,
    }
}

impl View for LogicalLine {
    type V = LineModel;

    open spec fn view(&self) -> LineModel {
        LineModel {
            items: self.items@,
            cursor: as_place(self.cursor),
            saved: as_place(self.saved),
            view: as_place(self.view),
            placements: self.placements@.map_values(
                |x: (usize, ImagePlacement)| (x.0 as int, x.1),
            ),
            marked: self.marked,
        }
    }
}

impl LogicalLine {
    fn new() -> (r: Self)
        ensures
            r@ == LineModel::empty(),
    {
        let r = LogicalLine {
            items: Vec::new(),
            cursor: None,
            saved: None,
            view: None,
            placements: Vec::new(),
            marked: false,
        };
        assert(r@ =~= LineModel::empty());
        r
    }
}

/// The number of cells up to the last one that is not blank.
fn text_length(cells: &Vec<Cell>) -> (n: usize)
    ensures
        n == text_len(cells@),
        n <= cells@.len(),
{
    let mut n: usize = cells.len();
    assert(cells@.take(n as int) =~= cells@);
    while n > 0 && cells[n - 1] == Cell::default()
        invariant
            n <= cells@.len(),
            text_len(cells@) == text_len(cells@.take(n as int)),
        decreases n,
    {
        assert(cells@.take(n as int).drop_last() =~= cells@.take(n - 1));
        n -= 1;
    }
    assert(text_len(cells@.take(n as int)) == n) by {
        if n > 0 {
            assert(cells@.take(n as int).last() == cells@[n - 1]);
        }
    }
    n
}

/// More cells of a row contribute at least as much, and each at most one item.
proof fn lemma_items_grow(row: RowModel, a: int, b: int)
    requires
        0 <= a <= b,
    ensures
        row_items(row, a).len() <= row_items(row, b).len(),
        row_items(row, b).len() <= b,
    decreases b,
{
    if a < b {
        lemma_items_grow(row, a, b - 1);
    } else if b > 0 {
        lemma_items_grow(row, a - 1, b - 1);
    }
}

fn is_fill(c: &Cell) -> (r: bool)
    ensures
        r == is_filler(*c),
{
    c.flags.contains(CellFlags::wrap_spacer())
}

/// Counts what the first `n` cells of a row contribute.
fn count_items(row: &Row, n: usize) -> (r: usize)
    requires
        n <= row.cells@.len(),
    ensures
        r == row_items(row@, n as int).len(),
        r <= n,
{
    let mut count: usize = 0;
    let mut i: usize = 0;
    while i < n
        invariant
            i <= n <= row.cells@.len(),
            count == row_items(row@, i as int).len(),
            count <= i,
        decreases n - i,
    {
        if !is_fill(&row.cells[i]) {
            count += 1;
        }
        i += 1;
    }
    count
}

/// Appends what the first `n` cells of a row contribute.
fn push_items(items: &mut Vec<Item>, row: &Row, n: usize)
    requires
        n <= row.cells@.len(),
    ensures
        final(items)@ == old(items)@ + row_items(row@, n as int),
{
    let ghost before = items@;
    let mut i: usize = 0;
    assert(before + row_items(row@, 0) =~= before);
    while i < n
        invariant
            i <= n <= row.cells@.len(),
            items@ == before + row_items(row@, i as int),
        decreases n - i,
    {
        let cell: Cell = row.cells[i];
        if !is_fill(&cell) {
            let coord: Option<(u16, u16, u8)> = match &row.placeholders {
                Some(coords) => match coords.get(&i) {
                    Some(c) => Some(*c),
                    None => None,
                },
                None => None,
            };
            assert(coord == coord_at(row@.placeholders, i as int));
            items.push((cell, coord));
            assert(items@ =~= before + row_items(row@, i + 1));
        }
        i += 1;
    }
}

/// The place of a column among what a row contributes.
fn place_of(row: &Row, n: usize, col: usize) -> (r: usize)
    requires
        n <= row.cells@.len(),
    ensures
        r == place_in_row(row@, n as int, col as int),
        r <= row_items(row@, n as int).len(),
{
    if col < n && !is_fill(&row.cells[col]) {
        proof {
            lemma_items_grow(row@, col as int, n as int);
        }
        count_items(row, col)
    } else {
        count_items(row, n)
    }
}

/// The longest prefix of a row that reaches a cursor column.
fn reach(len: usize, col: usize) -> (r: usize)
    ensures
        r == least(col + 1, len as int),
{
    if col < len {
        col + 1
    } else {
        len
    }
}

impl Grid {
    /// A row of the history and the screen, counted from the oldest one.
    fn row_ref(&self, i: usize) -> (r: &Row)
        requires
            i < self@.row_count(),
        ensures
            r@ == self@.row_at(i as int),
    {
        let h: usize = self.scrollback.len();
        if i < h {
            &self.scrollback[i]
        } else {
            &self.lines[i - h]
        }
    }

    /// How many cells of a row count.
    fn used_length(&self, i: usize) -> (n: usize)
        requires
            i < self@.row_count(),
        ensures
            n == self@.used_len(i as int),
            n <= self@.row_at(i as int).cells.len(),
    {
        let row: &Row = self.row_ref(i);
        let len: usize = row.cells.len();
        if row.wrapped {
            return len;
        }
        let h: usize = self.scrollback.len();
        let mut n: usize = text_length(&row.cells);
        if i >= h && i - h == self.cursor.row {
            let r: usize = reach(len, self.cursor.col);
            if r > n {
                n = r;
            }
        }
        if i >= h && i - h == self.saved_cursor.row {
            let r: usize = reach(len, self.saved_cursor.col);
            if r > n {
                n = r;
            }
        }
        n
    }

    /// Notes what a row anchors to its line.
    fn note_row(&self, line: &mut LogicalLine, i: usize)
        requires
            i < self@.row_count(),
        ensures
            final(line)@ == self@.line_noted(old(line)@, i as int),
    {
        let ghost before = line@;
        let at: usize = line.items.len();
        let mut k: usize = 0;
        assert(anchored(self@.placements.take(0), i as int, at as int) =~= Seq::<
            (int, ImagePlacement),
        >::empty());
        while k < self.placements.len()
            invariant
                k <= self.placements@.len(),
                at == before.items.len(),
                line@ == (LineModel { placements: line@.placements, ..before }),
                line@.placements == before.placements + anchored(
                    self.placements@.take(k as int),
                    i as int,
                    at as int,
                ),
            decreases self.placements@.len() - k,
        {
            let p: ImagePlacement = self.placements[k];
            let ghost held = line@.placements;
            let ghost front = self.placements@.take(k as int);
            assert(self.placements@.take(k + 1).drop_last() =~= front);
            assert(self.placements@.take(k + 1).last() == p);
            if p.line == i {
                line.placements.push((at, p));
                assert(line@.placements =~= held.push((at as int, p)));
                assert(line@.placements =~= before.placements + anchored(
                    front,
                    i as int,
                    at as int,
                ).push((at as int, p)));
            }
            k += 1;
        }
        assert(self.placements@.take(self.placements@.len() as int) =~= self.placements@);
        if self.has_prompt_mark_at(i) {
            line.marked = true;
        }
    }

    /// Tells whether a row below the cursors is empty, so that no line keeps it.
    fn skips_row(&self, line: &LogicalLine, i: usize, Ghost(before): Ghost<LineModel>) -> (r: bool)
        requires
            i < self@.row_count(),
            line@ == self@.line_noted(before, i as int),
        ensures
            r == self@.is_trailing_blank(before, i as int),
    {
        let h: usize = self.scrollback.len();
        let row: &Row = self.row_ref(i);
        let below: bool = i >= h && i - h > self.cursor.row && i - h > self.saved_cursor.row;
        assert(line.placements@.len() == line@.placements.len());
        below && text_length(&row.cells) == 0 && !row.wrapped && !line.marked
            && line.placements.len() == 0
    }

    /// Continues a line, already noted, with the cells of a row.
    fn extend_line(&self, line: &mut LogicalLine, i: usize, Ghost(before): Ghost<LineModel>)
        requires
            i < self@.row_count(),
            old(line)@ == self@.line_noted(before, i as int),
        ensures
            final(line)@ == self@.line_extended(before, i as int),
    {
        let h: usize = self.scrollback.len();
        let row: &Row = self.row_ref(i);
        let n: usize = self.used_length(i);
        let at: usize = line.items.len();
        push_items(&mut line.items, row, n);
        assert(line.items@.len() == at + row_items(row@, n as int).len());
        let end: usize = line.items.len();
        if i >= h && i - h == self.cursor.row {
            let place: usize = place_of(row, n, self.cursor.col);
            line.cursor = Some(at + place);
        }
        if i >= h && i - h == self.saved_cursor.row {
            let place: usize = place_of(row, n, self.saved_cursor.col);
            line.saved = Some(at + place);
        }
        if self.viewport_offset > 0 && i == h.saturating_sub(self.viewport_offset) {
            line.view = Some(at);
        }
        assert(line@ =~= self@.line_extended(before, i as int));
    }

    /// Reads the logical lines of the history and the screen.
    pub fn gather_lines(&self) -> (r: Vec<LogicalLine>)
        requires
            self@.row_count() <= usize::MAX,
        ensures
            line_models(r@) == self@.logical_lines(),
    {
        let total: usize = self.scrollback.len() + self.lines.len();
        let mut done: Vec<LogicalLine> = Vec::new();
        let mut open: LogicalLine = LogicalLine::new();
        let mut i: usize = 0;
        assert(line_models(done@) =~= Seq::<LineModel>::empty());
        while i < total
            invariant
                i <= total,
                total == self@.row_count(),
                (line_models(done@), open@) == self@.lines_of_rows(i as int),
            decreases total - i,
        {
            let ghost before = open@;
            self.note_row(&mut open, i);
            if self.skips_row(&open, i, Ghost(before)) {
                assert(open@ =~= before);
            } else {
                self.extend_line(&mut open, i, Ghost(before));
                if !self.row_ref(i).wrapped {
                    let mut closed: LogicalLine = LogicalLine::new();
                    std::mem::swap(&mut open, &mut closed);
                    let ghost held = done@;
                    done.push(closed);
                    assert(line_models(done@) =~= line_models(held).push(closed@));
                }
            }
            i += 1;
        }
        assert(open.placements@.len() == open@.placements.len());
        if open.items.len() > 0 || open.cursor.is_some() || open.saved.is_some()
            || open.placements.len() > 0 {
            let ghost held = done@;
            done.push(open);
            assert(line_models(done@) =~= line_models(held).push(open@));
        }
        done
    }
}

/// What logical lines hold.
pub open spec fn line_models(lines: Seq<LogicalLine>) -> Seq<LineModel> {
    lines.map_values(|l: LogicalLine| l@)
}

/// A row takes at least one item and at most as many as there are.
pub proof fn lemma_piece_len(items: Seq<Item>, from: int, cols: int)
    requires
        0 <= from <= items.len(),
        cols >= 1,
    ensures
        0 <= piece_len(items, from, cols) <= cols,
        from + piece_len(items, from, cols) <= items.len(),
        from < items.len() ==> piece_len(items, from, cols) >= 1,
{
}

/// A place lies on one of the rows of its line.
pub proof fn lemma_locate_row(items: Seq<Item>, from: int, at: int, cols: int)
    requires
        0 <= from <= items.len(),
        from <= at,
        cols >= 1,
    ensures
        0 <= locate(items, from, at, cols).0 < wrapped_rows(items, from, cols).len(),
        0 <= locate(items, from, at, cols).1 < cols,
    decreases items.len() - from,
{
    lemma_piece_len(items, from, cols);
    let n = piece_len(items, from, cols);
    if n < 1 || from + n >= items.len() {
    } else if at < from + n {
    } else {
        lemma_locate_row(items, from + n, at, cols);
    }
}

/// The number of items of the row that starts at an item.
fn piece_length(items: &Vec<Item>, from: usize, cols: usize) -> (n: usize)
    requires
        from <= items@.len(),
        cols >= 1,
    ensures
        n == piece_len(items@, from as int, cols as int),
{
    let left: usize = items.len() - from;
    let n: usize = if left <= cols {
        left
    } else {
        cols
    };
    if n < left && n > 1 && items[from + n - 1].0.flags.contains(CellFlags::wide_char()) {
        n - 1
    } else {
        n
    }
}

/// Makes the row that starts at an item.
fn make_piece(items: &Vec<Item>, from: usize, cols: usize) -> (row: Row)
    requires
        from <= items@.len(),
        cols >= 1,
    ensures
        row@ == piece_row(items@, from as int, cols as int),
{
    let n: usize = piece_length(items, from, cols);
    proof {
        lemma_piece_len(items@, from as int, cols as int);
    }
    let total: usize = items.len();
    let left: usize = total - from;
    let full: usize = if left <= cols {
        left
    } else {
        cols
    };
    let mut row: Row = Row::new(cols);
    let mut coords: HashMap<usize, (u16, u16, u8)> = HashMap::new();
    let ghost goal = piece_row(items@, from as int, cols as int);
    let mut i: usize = 0;
    while i < n
        invariant
            i <= n <= full <= cols,
            total == items@.len(),
            from + full <= total,
            row@ == (RowModel { cells: row.cells@, ..RowModel::blank(cols as nat) }),
            row.cells@.len() == cols,
            forall|j: int|
                0 <= j < cols ==> (#[trigger] row.cells@[j]) == (if j < i {
                    items@[from + j].0
                } else {
                    blank_cell()
                }),
            forall|k: usize| #[trigger]
                coords@.contains_key(k) <==> k < i && items@[from + k].1 is Some,
            forall|k: usize| coords@.contains_key(k) ==> #[trigger] coords@[k] == items@[from
                + k].1->0,
        decreases n - i,
    {
        let item: Item = items[from + i];
        row.cells[i] = item.0;
        if let Some(coord) = item.1 {
            coords.insert(i, coord);
        }
        i += 1;
    }
    while i < full
        invariant
            n <= i <= full <= cols,
            from + full <= items@.len(),
            row@ == (RowModel { cells: row.cells@, ..RowModel::blank(cols as nat) }),
            row.cells@.len() == cols,
            forall|j: int|
                0 <= j < cols ==> (#[trigger] row.cells@[j]) == (if j < n {
                    items@[from + j].0
                } else if j < i {
                    filler()
                } else {
                    blank_cell()
                }),
        decreases full - i,
    {
        row.cells[i].flags = row.cells[i].flags.union(CellFlags::wrap_spacer());
        i += 1;
    }
    row.wrapped = n < left;
    row.placeholders = Some(coords);
    assert(row.cells@ =~= goal.cells);
    assert(row@.placeholders =~= goal.placeholders);
    assert(row@ =~= goal);
    row
}

/// Appends the rows of a line.
fn push_wrapped(rows: &mut Vec<Row>, items: &Vec<Item>, cols: usize)
    requires
        cols >= 1,
    ensures
        row_models(final(rows)@) == row_models(old(rows)@) + wrapped_rows(items@, 0, cols as int),
{
    let ghost before = row_models(rows@);
    let ghost all = wrapped_rows(items@, 0, cols as int);
    let total: usize = items.len();
    let mut from: usize = 0;
    let mut more: bool = true;
    while more
        invariant
            cols >= 1,
            total == items@.len(),
            from <= total,
            all == wrapped_rows(items@, 0, cols as int),
            more ==> row_models(rows@) + wrapped_rows(items@, from as int, cols as int) == before
                + all,
            !more ==> row_models(rows@) == before + all,
        decreases items@.len() - from + (if more {
            1int
        } else {
            0int
        }),
    {
        let ghost held = row_models(rows@);
        let n: usize = piece_length(items, from, cols);
        proof {
            lemma_piece_len(items@, from as int, cols as int);
        }
        let row: Row = make_piece(items, from, cols);
        let ghost piece = row@;
        rows.push(row);
        assert(row_models(rows@) =~= held.push(piece));
        if n < 1 || from + n >= total {
            more = false;
            assert(row_models(rows@) =~= held + seq![piece]);
        } else {
            assert(row_models(rows@) + wrapped_rows(items@, from + n, cols as int) =~= held + (
            seq![piece] + wrapped_rows(items@, from + n, cols as int)));
            from += n;
        }
    }
}

/// Finds the row and the column of an item of a line.
fn locate_item(items: &Vec<Item>, at: usize, cols: usize) -> (r: (usize, usize))
    requires
        cols >= 1,
    ensures
        (r.0 as int, r.1 as int) == locate(items@, 0, at as int, cols as int),
{
    let total: usize = items.len();
    let mut from: usize = 0;
    let mut row: usize = 0;
    loop
        invariant
            cols >= 1,
            total == items@.len(),
            from <= total,
            row <= from <= at,
            ({
                let here = locate(items@, from as int, at as int, cols as int);
                (row + here.0, here.1) == locate(items@, 0, at as int, cols as int)
            }),
        decreases items@.len() - from,
    {
        let n: usize = piece_length(items, from, cols);
        proof {
            lemma_piece_len(items@, from as int, cols as int);
        }
        if n < 1 || from + n >= total || at < from + n {
            let col: usize = if at - from < cols {
                at - from
            } else {
                cols - 1
            };
            return (row, col);
        }
        from += n;
        row += 1;
    }
}

/// Rows distributed anew, with the places that are followed.
pub struct Sheet {
    pub rows: Vec<Row>,
    pub marks: BTreeSet<usize>,
    pub placements: Vec<ImagePlacement>,
    pub cursor: Option<(usize, usize)>,
    pub saved: Option<(usize, usize)>,
    pub view: Option<usize>,
}

/// An optional pair of machine words as numbers.
pub open spec fn as_spot(o: Option<(usize, usize)>) -> Option<(int, int)> {
    match o {
        Some((r, c)) => Some((r as int, c as int)),
        None => None,
    }
}

impl View for Sheet {
    type V = SheetModel;

    open spec fn view(&self) -> SheetModel {
        SheetModel {
            rows: row_models(self.rows@),
            marks: Set::new(|r: int| 0 <= r <= usize::MAX && self.marks@.contains(r as usize)),
            placements: self.placements@,
            cursor: as_spot(self.cursor),
            saved: as_spot(self.saved),
            view: as_place(self.view),
        }
    }
}

/// The place of a line on the sheet on which the line starts at a row.
fn find_spot(items: &Vec<Item>, start: usize, at: Option<usize>, cols: usize) -> (r: Option<
    (usize, usize),
>)
    requires
        cols >= 1,
        start + wrapped_rows(items@, 0, cols as int).len() <= usize::MAX,
    ensures
        as_spot(r) == spot(items@, start as int, as_place(at), cols as int),
{
    match at {
        Some(o) => {
            proof {
                lemma_locate_row(items@, 0, o as int, cols as int);
            }
            let (row, col): (usize, usize) = locate_item(items, o, cols);
            Some((start + row, col))
        },
        None => None,
    }
}

/// Appends the placements of a line on the sheet on which the line starts at a row.
fn push_settled(out: &mut Vec<ImagePlacement>, line: &LogicalLine, start: usize, cols: usize)
    requires
        cols >= 1,
        start + wrapped_rows(line.items@, 0, cols as int).len() <= usize::MAX,
    ensures
        final(out)@ == old(out)@ + settled(
            line@.items,
            start as int,
            line@.placements,
            cols as int,
        ),
{
    let ghost held = out@;
    let ghost goal = settled(line.items@, start as int, line@.placements, cols as int);
    let mut k: usize = 0;
    assert(held + goal.take(0) =~= held);
    while k < line.placements.len()
        invariant
            k <= line.placements@.len(),
            cols >= 1,
            start + wrapped_rows(line.items@, 0, cols as int).len() <= usize::MAX,
            goal == settled(line.items@, start as int, line@.placements, cols as int),
            line.placements@.len() == line@.placements.len(),
            out@ == held + goal.take(k as int),
        decreases line.placements@.len() - k,
    {
        let entry: (usize, ImagePlacement) = line.placements[k];
        proof {
            lemma_locate_row(line.items@, 0, entry.0 as int, cols as int);
        }
        let (row, col): (usize, usize) = locate_item(&line.items, entry.0, cols);
        let p: ImagePlacement = ImagePlacement { line: start + row, ..entry.1 };
        assert(line@.placements[k as int] == (entry.0 as int, entry.1));
        assert(goal[k as int] == p);
        out.push(p);
        assert(goal.take(k + 1) =~= goal.take(k as int).push(p));
        assert(out@ =~= held + goal.take(k + 1));
        k += 1;
    }
    assert(goal.take(goal.len() as int) =~= goal);
}

impl Sheet {
    fn new() -> (r: Self)
        ensures
            r@ == SheetModel::empty(),
    {
        let r = Sheet {
            rows: Vec::new(),
            marks: BTreeSet::new(),
            placements: Vec::new(),
            cursor: None,
            saved: None,
            view: None,
        };
        assert(r@ =~= SheetModel::empty());
        r
    }

    /// Puts a line behind the rows of the sheet.
    fn add_line(&mut self, line: &LogicalLine, cols: usize)
        requires
            cols >= 1,
        ensures
            final(self)@ == old(self)@.with_line(line@, cols as int),
    {
        let ghost before = self@;
        let start: usize = self.rows.len();
        let ghost more = wrapped_rows(line.items@, 0, cols as int);
        push_wrapped(&mut self.rows, &line.items, cols);
        assert(self.rows@.len() == row_models(self.rows@).len());
        assert(start + more.len() == self.rows.len());
        if line.marked {
            self.marks.insert(start);
        }
        let cursor = find_spot(&line.items, start, line.cursor, cols);
        if cursor.is_some() {
            self.cursor = cursor;
        }
        let saved = find_spot(&line.items, start, line.saved, cols);
        if saved.is_some() {
            self.saved = saved;
        }
        let view = find_spot(&line.items, start, line.view, cols);
        if let Some(v) = view {
            if self.view.is_none() {
                self.view = Some(v.0);
            }
        }
        push_settled(&mut self.placements, line, start, cols);
        assert(self@.marks =~= before.with_line(line@, cols as int).marks);
        assert(self@ =~= before.with_line(line@, cols as int));
    }
}

/// Distributes lines over rows of a width.
pub fn lay_out(lines: &Vec<LogicalLine>, cols: usize) -> (r: Sheet)
    requires
        cols >= 1,
    ensures
        r@ == sheet_of(line_models(lines@), cols as int),
{
    let ghost models = line_models(lines@);
    let mut sheet: Sheet = Sheet::new();
    let mut i: usize = 0;
    assert(sheet_of(models.take(0), cols as int) == SheetModel::empty());
    while i < lines.len()
        invariant
            i <= lines@.len(),
            cols >= 1,
            models == line_models(lines@),
            sheet@ == sheet_of(models.take(i as int), cols as int),
        decreases lines@.len() - i,
    {
        sheet.add_line(&lines[i], cols);
        assert(models.take(i + 1).drop_last() =~= models.take(i as int));
        assert(models.take(i + 1).last() == lines@[i as int]@);
        i += 1;
    }
    assert(models.take(models.len() as int) =~= models);
    sheet
}

} // verus!
