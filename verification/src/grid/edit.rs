//! Writing, erasing and shifting cells, and the two screens.

use crate::color::Color;
use crate::grid::diacritics::{diacritic_to_index, KITTY_PLACEHOLDER};
use crate::grid::model::{blank_rows, clamped, floored_difference, least, GridModel};
use crate::grid::row::{link_number, Cell, CellFlags, ClearMode, Cursor, Row, RowModel};
use crate::grid::scroll::{
    lemma_scrolled_up_wf, marks_of, shift_placements, shift_rows_down, shift_rows_up,
};
use crate::grid::{new_rows, row_models, Grid};
use std::collections::{BTreeSet, HashMap, VecDeque};
use unicode_width::UnicodeWidthChar;
use vstd::prelude::*;

verus! {

broadcast use {
    vstd::std_specs::hash::group_hash_axioms,
    vstd::std_specs::btree::group_btree_axioms,
};

/// The number of columns that `unicode_width` gives a character, `None` for control characters.
pub uninterp spec fn display_width(c: char) -> Option<usize>;

/// `UnicodeWidthChar::width`: the number of columns of a character. Control characters have none
/// (those below U+0020 and from U+007F up to U+009F), the other ASCII characters have one, and the
/// number always fits a byte.
#[verifier::external_body]
fn columns_of(c: char) -> (r: Option<usize>)
    ensures
        r == display_width(c),
        r is None <==> c < '\u{20}' || '\u{7f}' <= c < '\u{a0}',
        '\u{20}' <= c < '\u{7f}' ==> r == Some(1usize),
        r is Some ==> r->0 <= 255,
{
    c.width()
}

/// The number of columns that a character takes on the grid. A control character that gets here
/// takes one.
pub open spec fn cell_width(c: char) -> int {
    if '\u{20}' <= c <= '\u{7f}' {
        1
    } else {
        match display_width(c) {
            Some(w) => w as int,
            None => 1,
        }
    }
}

/// Detaches the cells of rows from their hyperlinks.
fn unlink_rows(rows: &mut Vec<Row>)
    ensures
        row_models(final(rows)@) == row_models(old(rows)@).map_values(|r: RowModel| r.unlinked()),
{
    let ghost before = row_models(rows@);
    let mut i: usize = 0;
    while i < rows.len()
        invariant
            i <= rows@.len(),
            rows@.len() == before.len(),
            forall|j: int| 0 <= j < rows@.len() ==> (#[trigger] rows@[j])@ == (if j < i {
                before[j].unlinked()
            } else {
                before[j]
            }),
        decreases rows@.len() - i,
    {
        rows[i].unlink();
        i += 1;
    }
    assert(row_models(rows@) =~= before.map_values(|r: RowModel| r.unlinked()));
}

/// Detaches the cells of a queue of rows from their hyperlinks.
fn unlink_queue(rows: &mut VecDeque<Row>)
    ensures
        row_models(final(rows)@) == row_models(old(rows)@).map_values(|r: RowModel| r.unlinked()),
{
    let ghost before = row_models(rows@);
    let ghost f = |r: RowModel| r.unlinked();
    let n: usize = rows.len();
    let mut i: usize = 0;
    while i < n
        invariant
            i <= n,
            n == before.len(),
            rows@.len() == n,
            f == (|r: RowModel| r.unlinked()),
            row_models(rows@) =~= before.skip(i as int) + before.take(i as int).map_values(f),
        decreases n - i,
    {
        let ghost turned = row_models(rows@);
        assert(turned[0] == before[i as int]);
        if let Some(mut row) = rows.pop_front() {
            assert(row@ == before[i as int]);
            row.unlink();
            rows.push_back(row);
        }
        assert(row_models(rows@) =~= turned.drop_first().push(before[i as int].unlinked()));
        i += 1;
        assert(before.take(i as int).map_values(f) =~= before.take(i - 1).map_values(f).push(
            before[i - 1].unlinked(),
        ));
        assert(turned.drop_first() =~= before.skip(i as int) + before.take(i - 1).map_values(f));
    }
    assert(before.take(n as int) =~= before);
    assert(row_models(rows@) =~= before.map_values(f));
}

/// The cell that a character and its attributes make.
pub open spec fn styled_cell(
    c: char,
    fg: Color,
    bg: Color,
    flags: CellFlags,
    underline_color: Color,
    hyperlink_id: Option<u32>,
) -> Cell {
    Cell { c, fg, bg, underline_color, flags, hyperlink: link_number(hyperlink_id) }
}

fn make_cell(
    c: char,
    fg: Color,
    bg: Color,
    flags: CellFlags,
    underline_color: Color,
    hyperlink_id: Option<u32>,
) -> (r: Cell)
    ensures
        r == styled_cell(c, fg, bg, flags, underline_color, hyperlink_id),
{
    Cell {
        c,
        fg,
        bg,
        underline_color,
        flags,
        hyperlink: match hyperlink_id {
            Some(n) => n,
            None => 0,
        },
    }
}

impl Grid {
    /// Writes a character with the given styling attributes at the current cursor position.
    pub fn write_char(&mut self, c: char, fg: Color, bg: Color, flags: CellFlags)
        requires
            old(self)@.wf(),
            old(self)@.room_for(1),
            old(self)@.placeholder_fits(c, fg),
        ensures
            final(self)@ == old(self)@.typed(
                styled_cell(c, fg, bg, flags, Color::DefaultForeground, None),
                cell_width(c),
            ),
            final(self)@.wf(),
            old(self)@.cursor_on_screen() ==> final(self)@.cursor_on_screen(),
    {
        self.write_char_styled(c, fg, bg, flags, Color::DefaultForeground, None);
    }

    /// Writes a character with extended styling attributes, such as underline color and hyperlink.
    pub fn write_char_styled(
        &mut self,
        c: char,
        fg: Color,
        bg: Color,
        flags: CellFlags,
        underline_color: Color,
        hyperlink_id: Option<u32>,
    )
        requires
            old(self)@.wf(),
            old(self)@.room_for(1),
            old(self)@.placeholder_fits(c, fg),
        ensures
            final(self)@ == old(self)@.typed(
                styled_cell(c, fg, bg, flags, underline_color, hyperlink_id),
                cell_width(c),
            ),
            final(self)@.wf(),
            old(self)@.cursor_on_screen() ==> final(self)@.cursor_on_screen(),
    {
        let width: usize = if ' ' <= c && c <= '\u{7f}' {
            1
        } else {
            match columns_of(c) {
                Some(w) => w,
                None => 1,
            }
        };
        self.write_cell(make_cell(c, fg, bg, flags, underline_color, hyperlink_id), width);
    }

    /// Writes a run of characters of one column each with the same styling attributes.
    pub fn write_ascii_run(
        &mut self,
        text: &[u8],
        fg: Color,
        bg: Color,
        flags: CellFlags,
        underline_color: Color,
        hyperlink_id: Option<u32>,
    )
        requires
            old(self)@.wf(),
            old(self)@.room_for(text@.len() as int),
        ensures
            final(self)@ == old(self)@.run_written(
                text@,
                styled_cell(' ', fg, bg, flags, underline_color, hyperlink_id),
            ),
            final(self)@.wf(),
            old(self)@.cursor_on_screen() ==> final(self)@.cursor_on_screen(),
    {
        let ghost before = self@;
        let blank: Cell = make_cell(' ', fg, bg, flags, underline_color, hyperlink_id);
        let mut i: usize = 0;
        assert(before.run_written(text@.take(0), blank) == before);
        while i < text.len()
            invariant
                i <= text@.len(),
                self@.wf(),
                before.cursor_on_screen() ==> self@.cursor_on_screen(),
                self@.scrollback.len() <= before.scrollback.len() + i,
                self@.rows == before.rows,
                before.room_for(text@.len() as int),
                self@ == before.run_written(text@.take(i as int), blank),
            decreases text@.len() - i,
        {
            self.write_cell(Cell { c: text[i] as char, ..blank }, 1);
            proof {
                assert(text@.take(i + 1).drop_last() =~= text@.take(i as int));
            }
            i += 1;
        }
        assert(text@.take(text@.len() as int) =~= text@);
    }

    /// Writes a character that takes the given number of columns at the cursor. A character
    /// without columns combines with the one before. With the cursor below the screen nothing is
    /// written.
    pub fn write_cell(&mut self, cell: Cell, width: usize)
        requires
            old(self)@.wf(),
            old(self)@.room_for(1),
            old(self)@.placeholder_fits(cell.c, cell.fg),
        ensures
            final(self)@ == old(self)@.typed(cell, width as int),
            final(self)@.wf(),
            old(self)@.cursor_on_screen() ==> final(self)@.cursor_on_screen(),
            final(self)@.scrollback.len() <= old(self)@.scrollback.len() + 1,
            final(self)@.rows == old(self)@.rows,
            final(self)@.cols == old(self)@.cols,
    {
        if width == 0 {
            self.combine(cell.c);
            return;
        }
        if self.cursor.row >= self.rows {
            return;
        }
        let ghost before = self@;
        if self.cursor.col > self.cols || width > self.cols - self.cursor.col {
            self.wrap();
            proof {
                lemma_wrapped(before);
            }
        }
        self.place(cell, width);
    }

    /// Marks the cursor's row as continued and moves the cursor to the start of the next row.
    fn wrap(&mut self)
        requires
            old(self)@.wf(),
            old(self)@.cursor.row < old(self)@.rows,
            old(self)@.room_for(1),
        ensures
            final(self)@ == old(self)@.wrapped(),
    {
        let ghost before = self@;
        let row: usize = self.cursor.row;
        self.lines[row].wrapped = true;
        proof {
            let marked = RowModel { wrapped: true, ..before.lines[row as int] };
            assert(self@.lines =~= before.lines.update(row as int, marked));
            assert(self@ =~= before.with_row(row as int, marked));
        }
        self.newline();
        self.cursor.col = 0;
    }

    /// Applies a combining character to the cell left of the cursor.
    fn combine(&mut self, c: char)
        requires
            old(self)@.wf(),
        ensures
            final(self)@ == old(self)@.combined(c),
            final(self)@.wf(),
            final(self)@.cursor == old(self)@.cursor,
            final(self)@.scrollback == old(self)@.scrollback,
            final(self)@.rows == old(self)@.rows,
            final(self)@.cols == old(self)@.cols,
    {
        let number = diacritic_to_index(c);
        if number.is_none() || self.cursor.row >= self.rows || self.cursor.col == 0
            || self.cursor.col > self.cols {
            return;
        }
        let idx: u16 = number.unwrap();
        let ghost before = self@;
        let row: usize = self.cursor.row;
        let target: usize = self.cursor.col - 1;
        assert(self.lines@[row as int]@ == before.lines[row as int]);
        if self.lines[row].cells[target].c != KITTY_PLACEHOLDER {
            return;
        }
        if let Some(coords) = &mut self.lines[row].placeholders {
            if let Some(coord) = coords.get(&target) {
                let (r, k, n): (u16, u16, u8) = *coord;
                let updated: (u16, u16, u8) = (
                    if n == 0 {
                        idx
                    } else {
                        r
                    },
                    if n == 1 {
                        idx
                    } else {
                        k
                    },
                    n.saturating_add(1),
                );
                coords.insert(target, updated);
            }
        }
        proof {
            assert(self@.lines =~= before.combined(c).lines);
            assert(self@ =~= before.combined(c));
        }
    }

    /// Writes a character at the cursor, whose row has room for it unless it is wider than the
    /// grid.
    fn place(&mut self, cell: Cell, width: usize)
        requires
            old(self)@.wf(),
            old(self)@.cursor_on_screen(),
            old(self)@.cursor.col < old(self)@.cols,
            width >= 1,
            old(self)@.placeholder_fits(cell.c, cell.fg),
        ensures
            final(self)@ == old(self)@.placed(cell, width as int),
            final(self)@.wf(),
            final(self)@.cursor_on_screen(),
            final(self)@.scrollback == old(self)@.scrollback,
            final(self)@.rows == old(self)@.rows,
            final(self)@.cols == old(self)@.cols,
    {
        let ghost before = self@;
        let row: usize = self.cursor.row;
        let col: usize = self.cursor.col;
        let ghost line = before.lines[row as int];
        assert(self.lines@[row as int]@ == line);
        let shown: CellFlags = if width == 2 {
            cell.flags.union(CellFlags::wide_char())
        } else {
            cell.flags
        };
        let mut coord: (u16, u16, u8) = (0, 0, 0);
        if col > 0 {
            let left: usize = col - 1;
            if let Some(coords) = &self.lines[row].placeholders {
                if let Some(at_left) = coords.get(&left) {
                    if cell.c == KITTY_PLACEHOLDER && self.lines[row].cells[left].fg == cell.fg {
                        coord = (at_left.0, at_left.1 + 1, 0);
                    }
                }
            }
        }
        assert(cell.c == KITTY_PLACEHOLDER ==> coord == GridModel::inherited(line, col, cell.fg));
        self.lines[row].cells[col] = Cell { flags: shown, ..cell };
        self.lines[row].dirty.set(true);
        if cell.c == KITTY_PLACEHOLDER {
            match &mut self.lines[row].placeholders {
                Some(coords) => {
                    coords.insert(col, coord);
                },
                None => {
                    let mut coords: HashMap<usize, (u16, u16, u8)> = HashMap::new();
                    coords.insert(col, coord);
                    self.lines[row].placeholders = Some(coords);
                },
            }
        } else {
            self.lines[row].forget_placeholder(col);
        }
        if width == 2 && col + 1 < self.cols {
            self.lines[row].cells[col + 1] = Cell {
                c: ' ',
                flags: cell.flags.union(CellFlags::wide_char_spacer()),
                ..cell
            };
        }
        self.cursor.col = if width < self.cols - col {
            col + width
        } else {
            self.cols
        };
        proof {
            assert(self@.lines[row as int] =~= before.placed(cell, width as int).lines[row as int]);
            assert(self@.lines =~= before.placed(cell, width as int).lines);
            assert(self@ =~= before.placed(cell, width as int));
        }
    }

    /// Performs a carriage return (CR): moves cursor to column 0.
    pub fn carriage_return(&mut self)
        ensures
            final(self)@ == old(self)@.at_column(0),
    {
        self.cursor.col = 0;
    }

    /// Performs a backspace (BS): moves cursor one position left.
    pub fn backspace(&mut self)
        ensures
            final(self)@ == old(self)@.at_column(
                floored_difference(old(self)@.cursor.col as int, 1),
            ),
    {
        self.cursor.col = self.cursor.col.saturating_sub(1);
    }

    /// Moves cursor to next tab stop (multiples of 8), but not past the last column.
    pub fn tab(&mut self)
        ensures
            final(self)@ == old(self)@.at_column(
                least(
                    8 * (old(self)@.cursor.col as int / 8 + 1),
                    floored_difference(old(self)@.cols as int, 1) as int,
                ) as usize,
            ),
    {
        let last: usize = self.cols.saturating_sub(1);
        let gap: usize = 8 - self.cursor.col % 8;
        self.cursor.col = if self.cursor.col < last && gap <= last - self.cursor.col {
            self.cursor.col + gap
        } else {
            last
        };
    }

    /// Remembers the cursor.
    pub fn save_cursor(&mut self)
        ensures
            final(self)@ == (GridModel { saved_cursor: old(self)@.cursor, ..old(self)@ }),
    {
        self.saved_cursor = self.cursor;
    }

    /// Brings the remembered cursor back, onto the screen.
    pub fn restore_cursor(&mut self)
        requires
            old(self)@.rows >= 1,
            old(self)@.cols >= 1,
        ensures
            final(self)@ == (GridModel {
                cursor: clamped(old(self)@.saved_cursor, old(self)@.rows, old(self)@.cols),
                ..old(self)@
            }),
            final(self)@.cursor_on_screen(),
    {
        self.cursor = clamp_cursor(self.saved_cursor, self.rows, self.cols);
    }

    /// Inserts blank characters at cursor, shifting remaining characters right.
    pub fn insert_blank_chars(&mut self, count: usize)
        requires
            old(self)@.wf(),
        ensures
            final(self)@ == old(self)@.chars_inserted(count),
            final(self)@.wf(),
    {
        if self.cursor.row >= self.rows || self.cursor.col >= self.cols {
            return;
        }
        let ghost before = self@;
        let row: usize = self.cursor.row;
        let col: usize = self.cursor.col;
        let cols: usize = self.cols;
        let n: usize = if count <= cols - col {
            count
        } else {
            cols - col
        };
        assert(self.lines@[row as int]@ == before.lines[row as int]);
        self.lines[row].insert_blanks(col, n);
        assert(self@.lines =~= before.chars_inserted(count).lines);
        assert(self@ =~= before.chars_inserted(count));
    }

    /// Deletes characters at cursor, shifting remaining characters left.
    pub fn delete_chars(&mut self, count: usize)
        requires
            old(self)@.wf(),
        ensures
            final(self)@ == old(self)@.chars_deleted(count),
            final(self)@.wf(),
    {
        if self.cursor.row >= self.rows || self.cursor.col >= self.cols {
            return;
        }
        let ghost before = self@;
        let row: usize = self.cursor.row;
        let col: usize = self.cursor.col;
        let cols: usize = self.cols;
        let n: usize = if count <= cols - col {
            count
        } else {
            cols - col
        };
        assert(self.lines@[row as int]@ == before.lines[row as int]);
        self.lines[row].delete_cells(col, n);
        assert(self@.lines =~= before.chars_deleted(count).lines);
        assert(self@ =~= before.chars_deleted(count));
    }

    /// Inserts lines at cursor row, shifting lines down.
    pub fn insert_lines(&mut self, count: usize)
        requires
            old(self)@.wf(),
        ensures
            final(self)@ == old(self)@.lines_inserted(count),
            final(self)@.wf(),
    {
        if self.cursor.row < self.scroll_region_top || self.cursor.row > self.scroll_region_bottom {
            return;
        }
        let ghost before = self@;
        let row: usize = self.cursor.row;
        let bottom: usize = self.scroll_region_bottom;
        let n: usize = if count <= bottom - row + 1 {
            count
        } else {
            bottom - row + 1
        };
        shift_rows_down(&mut self.lines, row, bottom, n, self.cols);
        self.mark_all_dirty();
        assert(self@.lines =~= before.lines_inserted(count).lines);
        assert(self@ =~= before.lines_inserted(count));
    }

    /// Deletes lines at cursor row, shifting lines up.
    pub fn delete_lines(&mut self, count: usize)
        requires
            old(self)@.wf(),
        ensures
            final(self)@ == old(self)@.lines_deleted(count),
            final(self)@.wf(),
    {
        if self.cursor.row < self.scroll_region_top || self.cursor.row > self.scroll_region_bottom {
            return;
        }
        let ghost before = self@;
        let row: usize = self.cursor.row;
        let bottom: usize = self.scroll_region_bottom;
        let n: usize = if count <= bottom - row + 1 {
            count
        } else {
            bottom - row + 1
        };
        shift_rows_up(&mut self.lines, row, bottom, n, self.cols);
        self.mark_all_dirty();
        assert(self@.lines =~= before.lines_deleted(count).lines);
        assert(self@ =~= before.lines_deleted(count));
    }

    /// Clears part or all of the current cursor line.
    pub fn clear_line(&mut self, mode: ClearMode)
        requires
            old(self)@.wf(),
        ensures
            final(self)@ == old(self)@.line_cleared(mode),
            final(self)@.wf(),
    {
        if self.cursor.row >= self.rows {
            return;
        }
        let ghost before = self@;
        let row: usize = self.cursor.row;
        let cols: usize = self.cols;
        assert(self.lines@[row as int]@ == before.lines[row as int]);
        match mode {
            ClearMode::Below => {
                let start: usize = if self.cursor.col <= cols {
                    self.cursor.col
                } else {
                    cols
                };
                self.lines[row].wipe(start, cols);
            },
            ClearMode::Above => {
                let end: usize = if self.cursor.col < cols {
                    self.cursor.col + 1
                } else {
                    cols
                };
                self.lines[row].wipe(0, end);
            },
            ClearMode::All | ClearMode::Saved => {
                self.lines[row].reset();
            },
        }
        self.lines[row].dirty.set(true);
        assert(self@.lines =~= before.line_cleared(mode).lines);
        assert(self@ =~= before.line_cleared(mode));
    }

    /// Blanks the screen rows from `from` up to `to`.
    fn reset_rows(&mut self, from: usize, to: usize)
        requires
            old(self)@.wf(),
            from <= to <= old(self)@.rows,
        ensures
            final(self)@ == (GridModel {
                lines: Seq::new(
                    old(self)@.lines.len(),
                    |i: int|
                        if from <= i < to {
                            RowModel::blank(old(self)@.cols as nat)
                        } else {
                            old(self)@.lines[i]
                        },
                ),
                ..old(self)@
            }),
    {
        let ghost before = self@;
        let mut i: usize = from;
        while i < to
            invariant
                before.wf(),
                from <= i <= to <= before.rows,
                self@.lines.len() == before.rows,
                self@ == (GridModel { lines: self@.lines, ..before }),
                forall|j: int|
                    0 <= j < before.rows ==> (#[trigger] self@.lines[j]) == (if from <= j < i {
                        RowModel::blank(before.cols as nat)
                    } else {
                        before.lines[j]
                    }),
            decreases to - i,
        {
            let ghost held = self@.lines;
            assert(held[i as int].cells.len() == before.cols);
            self.lines[i].reset();
            assert(self@.lines =~= held.update(i as int, RowModel::blank(before.cols as nat)));
            i += 1;
        }
        assert(self@.lines =~= Seq::new(
            before.lines.len(),
            |i: int|
                if from <= i < to {
                    RowModel::blank(before.cols as nat)
                } else {
                    before.lines[i]
                },
        ));
    }

    /// Clears part or all of the active display screen, or the history.
    pub fn clear_screen(&mut self, mode: ClearMode)
        requires
            old(self)@.wf(),
            old(self)@.cursor.row < old(self)@.rows && mode == ClearMode::Below
                ==> old(self)@.cursor.col <= old(self)@.cols,
        ensures
            final(self)@ == old(self)@.cleared(mode),
            final(self)@.wf(),
    {
        let ghost before = self@;
        let row: usize = self.cursor.row;
        let col: usize = self.cursor.col;
        let cols: usize = self.cols;
        match mode {
            ClearMode::Below => {
                if row < self.rows {
                    assert(self.lines@[row as int]@ == before.lines[row as int]);
                    self.lines[row].wipe(col, cols);
                    self.lines[row].dirty.set(true);
                    let ghost line = before.lines[row as int].wiped(
                        col as int,
                        cols as int,
                    ).touched();
                    assert(self@.lines =~= before.lines.update(row as int, line));
                    assert(self@.wf());
                    self.reset_rows(row + 1, self.rows);
                    assert(self@.lines =~= before.cleared(mode).lines);
                    assert(self@ =~= before.cleared(mode));
                }
            },
            ClearMode::Above => {
                if row < self.rows {
                    self.reset_rows(0, row);
                    let end: usize = if col < cols {
                        col + 1
                    } else {
                        cols
                    };
                    assert(self@.lines.len() == before.rows);
                    assert(self@.lines[row as int] == before.lines[row as int]);
                    assert(row_models(self.lines@).len() == self.lines@.len());
                    assert(row_models(self.lines@)[row as int] == self.lines@[row as int]@);
                    let ghost held = self@.lines;
                    self.lines[row].wipe(0, end);
                    self.lines[row].dirty.set(true);
                    let ghost line = before.lines[row as int].wiped(0, end as int).touched();
                    assert(self@.lines =~= held.update(row as int, line));
                    assert(self@.lines =~= before.cleared(mode).lines);
                    assert(self@ =~= before.cleared(mode));
                }
            },
            ClearMode::All => {
                self.reset_rows(0, self.rows);
                let h: usize = self.scrollback.len();
                let base: usize = self.total_evicted_rows;
                self.prompt_marks = marks_before(&self.prompt_marks, base, h);
                assert(self@.lines =~= blank_rows(before.rows as nat, before.cols));
                assert(self@.prompt_marks =~= before.prompt_marks.filter(
                    |m: usize| m < before.total_evicted_rows + before.scrollback.len(),
                ));
                self.mark_all_dirty();
                assert(self@ =~= before.cleared(mode));
            },
            ClearMode::Saved => {
                let n: usize = self.scrollback.len();
                self.scrollback.clear();
                self.viewport_offset = 0;
                shift_placements(&mut self.placements, n);
                shift_placements(&mut self.alt_placements, n);
                self.prompt_marks = marks_moved(&self.prompt_marks, self.total_evicted_rows, n);
                assert(row_models(self.scrollback@) =~= Seq::<RowModel>::empty());
                self.mark_all_dirty();
                assert(self@ =~= before.cleared(mode));
            },
        }
    }

    /// Clears hyperlink references from all visible lines, scrollback, and parked alternate lines.
    pub fn clear_all_hyperlinks(&mut self)
        ensures
            final(self)@ == old(self)@.unlinked(),
    {
        unlink_rows(&mut self.lines);
        unlink_queue(&mut self.scrollback);
        if let Some(alt) = &mut self.alt_lines {
            unlink_rows(alt);
        }
        assert(self@ =~= old(self)@.unlinked());
    }

    /// Switches to a blank alternate screen, unless it is already active.
    pub fn enter_alt_screen(&mut self)
        requires
            old(self)@.wf(),
        ensures
            final(self)@ == old(self)@.alt_entered(),
            final(self)@.wf(),
            old(self)@.cursor_on_screen() ==> final(self)@.cursor_on_screen(),
    {
        if self.alt_lines.is_none() {
            let mut lines: Vec<Row> = new_rows(self.rows, self.cols);
            std::mem::swap(&mut self.lines, &mut lines);
            self.alt_lines = Some(lines);
            self.alt_cursor = Some(self.cursor);
            self.alt_saved_cursor = Some(self.saved_cursor);
            self.cursor = Cursor::default();
            self.saved_cursor = Cursor::default();
            let mut placements: Vec<crate::kitty::ImagePlacement> = Vec::new();
            std::mem::swap(&mut self.placements, &mut placements);
            self.alt_placements = placements;
            self.viewport_offset = 0;
            assert(self@ =~= old(self)@.alt_entered());
        }
    }

    /// Restores the primary screen buffer.
    pub fn exit_alt_screen(&mut self)
        requires
            old(self)@.wf(),
        ensures
            final(self)@ == old(self)@.alt_left(),
            final(self)@.wf(),
            old(self)@.cursor_on_screen() && old(self)@.hidden_cursor_on_screen()
                ==> final(self)@.cursor_on_screen(),
    {
        let taken = self.alt_lines.take();
        match taken {
            Some(primary) => {
                self.lines = primary;
                let cursor = self.alt_cursor.take();
                if let Some(c) = cursor {
                    self.cursor = c;
                }
                let saved = self.alt_saved_cursor.take();
                if let Some(c) = saved {
                    self.saved_cursor = c;
                }
                let mut placements: Vec<crate::kitty::ImagePlacement> = Vec::new();
                std::mem::swap(&mut self.alt_placements, &mut placements);
                self.placements = placements;
                self.viewport_offset = 0;
                self.mark_all_dirty();
                assert(self@ =~= old(self)@.alt_left());
            },
            None => {
                assert(self@ =~= old(self)@);
            },
        }
    }
}

/// Brings a cursor back onto a screen.
pub fn clamp_cursor(c: Cursor, rows: usize, cols: usize) -> (r: Cursor)
    requires
        rows >= 1,
        cols >= 1,
    ensures
        r == clamped(c, rows, cols),
{
    Cursor {
        row: if c.row < rows {
            c.row
        } else {
            rows - 1
        },
        col: if c.col < cols {
            c.col
        } else {
            cols - 1
        },
        ..c
    }
}

/// The marks before the row `base + h`.
pub fn marks_before(marks: &BTreeSet<usize>, base: usize, h: usize) -> (r: BTreeSet<usize>)
    ensures
        r@ == marks@.filter(|m: usize| m < base + h),
{
    let all: Vec<usize> = marks_of(marks);
    let mut kept: BTreeSet<usize> = BTreeSet::new();
    let mut i: usize = 0;
    while i < all.len()
        invariant
            i <= all@.len(),
            forall|m: usize| #[trigger]
                kept@.contains(m) <==> m < base + h && all@.take(i as int).contains(m),
        decreases all@.len() - i,
    {
        let ghost before = kept@;
        let m: usize = all[i];
        if m < base || m - base < h {
            kept.insert(m);
        }
        assert(all@.take(i + 1) =~= all@.take(i as int).push(all@[i as int]));
        assert forall|m: usize| #[trigger] kept@.contains(m) <==> m < base + h && all@.take(
            i + 1,
        ).contains(m) by {
            vstd::seq_lib::lemma_seq_contains_after_push(all@.take(i as int), all@[i as int], m);
            assert(before.contains(m) <==> m < base + h && all@.take(i as int).contains(m));
        }
        i += 1;
    }
    assert(all@.take(all@.len() as int) =~= all@);
    assert forall|m: usize| #[trigger] marks@.contains(m) <==> all@.contains(m) by {
        assert(all@.to_set().contains(m) <==> all@.contains(m));
    }
    assert(kept@ =~= marks@.filter(|m: usize| m < base + h));
    kept
}

/// The marks from the row `base + n` on, moved up by `n`.
fn marks_moved(marks: &BTreeSet<usize>, base: usize, n: usize) -> (r: BTreeSet<usize>)
    ensures
        r@ == Set::new(
            |m: usize| base <= m && m + n <= usize::MAX && marks@.contains((m + n) as usize),
        ),
{
    let all: Vec<usize> = marks_of(marks);
    let mut kept: BTreeSet<usize> = BTreeSet::new();
    let mut i: usize = 0;
    while i < all.len()
        invariant
            i <= all@.len(),
            forall|m: usize| #[trigger]
                kept@.contains(m) <==> base <= m && m + n <= usize::MAX && all@.take(
                    i as int,
                ).contains((m + n) as usize),
        decreases all@.len() - i,
    {
        let ghost before = kept@;
        let x: usize = all[i];
        if x >= n && x - n >= base {
            kept.insert(x - n);
        }
        assert(all@.take(i + 1) =~= all@.take(i as int).push(all@[i as int]));
        assert forall|m: usize| #[trigger]
            kept@.contains(m) <==> base <= m && m + n <= usize::MAX && all@.take(i + 1).contains(
                (m + n) as usize,
            ) by {
            vstd::seq_lib::lemma_seq_contains_after_push(
                all@.take(i as int),
                all@[i as int],
                (m + n) as usize,
            );
            assert(before.contains(m) <==> base <= m && m + n <= usize::MAX && all@.take(
                i as int,
            ).contains((m + n) as usize));
        }
        i += 1;
    }
    assert(all@.take(all@.len() as int) =~= all@);
    assert forall|m: usize| #[trigger] marks@.contains(m) <==> all@.contains(m) by {
        assert(all@.to_set().contains(m) <==> all@.contains(m));
    }
    assert(kept@ =~= Set::new(
        |m: usize| base <= m && m + n <= usize::MAX && marks@.contains((m + n) as usize),
    ));
    kept
}

proof fn lemma_wrapped(g: GridModel)
    requires
        g.wf(),
        g.cursor.row < g.rows,
        g.room_for(1),
    ensures
        g.wrapped().wf(),
        g.wrapped().cursor_on_screen(),
        g.wrapped().cursor.col == 0,
        g.wrapped().rows == g.rows,
        g.wrapped().cols == g.cols,
        g.wrapped().scrollback.len() <= g.scrollback.len() + 1,
{
    let row = g.cursor.row as int;
    let marked = g.with_row(row, RowModel { wrapped: true, ..g.lines[row] });
    assert(marked.wf());
    lemma_scrolled_up_wf(marked, 1);
}

} // verus!
