//! The mathematical model of the grid, over which its operations are stated.

use crate::color::Color;
use crate::grid::diacritics::{diacritic_number, KITTY_PLACEHOLDER};
use crate::grid::row::{home_cursor, Cell, CellFlags, ClearMode, Cursor, RowModel};
use crate::grid::scroll::{is_first_mark, is_last_mark};
use crate::kitty::{ImageData, ImagePlacement};
use vstd::prelude::*;

verus! {

/// What the grid holds.
#[verifier::ext_equal]
pub struct GridModel {
    pub cols: usize,
    pub rows: usize,
    pub max_scrollback: usize,
    pub lines: Seq<RowModel>,
    pub scrollback: Seq<RowModel>,
    pub viewport_offset: usize,
    pub images: Map<u32, ImageData>,
    pub image_versions: Map<u32, u64>,
    pub placements: Seq<ImagePlacement>,
    pub virtual_placements: Map<u32, (usize, usize)>,
    pub cursor: Cursor,
    pub saved_cursor: Cursor,
    pub scroll_region_top: usize,
    pub scroll_region_bottom: usize,
    pub alt_lines: Option<Seq<RowModel>>,
    pub alt_cursor: Option<Cursor>,
    pub alt_saved_cursor: Option<Cursor>,
    pub alt_placements: Seq<ImagePlacement>,
    pub prompt_marks: Set<usize>,
    pub total_evicted_rows: usize,
}

/// The smaller of two numbers.
pub open spec fn least(a: int, b: int) -> int {
    if a <= b {
        a
    } else {
        b
    }
}

/// The larger of two numbers.
pub open spec fn most(a: int, b: int) -> int {
    if a >= b {
        a
    } else {
        b
    }
}

/// Addition that stops at the largest machine word.
pub open spec fn capped_sum(a: int, b: int) -> usize {
    least(a + b, usize::MAX as int) as usize
}

/// Subtraction that stops at zero.
pub open spec fn floored_difference(a: int, b: int) -> usize {
    most(a - b, 0) as usize
}

/// Whether every row has the given width.
pub open spec fn all_wide(rows: Seq<RowModel>, cols: usize) -> bool {
    forall|i: int| 0 <= i < rows.len() ==> (#[trigger] rows[i]).cells.len() == cols
}

/// Rows marked for redrawing.
pub open spec fn touched_rows(rows: Seq<RowModel>) -> Seq<RowModel> {
    rows.map_values(|r: RowModel| r.touched())
}

/// Rows of blank cells.
pub open spec fn blank_rows(n: nat, cols: usize) -> Seq<RowModel> {
    Seq::new(n, |i: int| RowModel::blank(cols as nat))
}

/// A placement that moves up by a number of rows.
pub open spec fn moved_up(p: ImagePlacement, amount: usize) -> ImagePlacement {
    ImagePlacement { line: (p.line - amount) as usize, ..p }
}

/// Placements once the first `amount` rows are gone: those anchored there disappear, the others
/// move up.
pub open spec fn rebased(ps: Seq<ImagePlacement>, amount: usize) -> Seq<ImagePlacement> {
    ps.filter(|p: ImagePlacement| p.line >= amount).map_values(|p: ImagePlacement| moved_up(p, amount))
}

/// Rows `top..=bottom` shifted up by `n`, with blank rows entering at the bottom. Every row of the
/// region is marked for redrawing.
pub open spec fn shifted_up(
    rows: Seq<RowModel>,
    top: int,
    bottom: int,
    n: int,
    cols: usize,
) -> Seq<RowModel> {
    Seq::new(
        rows.len(),
        |i: int|
            if i < top || i > bottom {
                rows[i]
            } else if i + n <= bottom {
                rows[i + n].touched()
            } else {
                RowModel::blank(cols as nat)
            },
    )
}

/// Rows `top..=bottom` shifted down by `n`, with blank rows entering at the top. Every row of the
/// region is marked for redrawing.
pub open spec fn shifted_down(
    rows: Seq<RowModel>,
    top: int,
    bottom: int,
    n: int,
    cols: usize,
) -> Seq<RowModel> {
    Seq::new(
        rows.len(),
        |i: int|
            if i < top || i > bottom {
                rows[i]
            } else if i - n >= top {
                rows[i - n].touched()
            } else {
                RowModel::blank(cols as nat)
            },
    )
}

/// A cursor brought back onto a screen.
pub open spec fn clamped(c: Cursor, rows: usize, cols: usize) -> Cursor {
    Cursor {
        row: least(c.row as int, rows - 1) as usize,
        col: least(c.col as int, cols - 1) as usize,
        ..c
    }
}

impl GridModel {
    /// The shape that every operation keeps: both screens have `rows` rows of `cols` cells, the
    /// history has rows of `cols` cells, the scroll region lies on the screen, the viewport shows
    /// rows that exist, and the rows can be counted.
    pub open spec fn wf(self) -> bool {
        &&& self.cols >= 1
        &&& self.rows >= 1
        &&& self.lines.len() == self.rows
        &&& all_wide(self.lines, self.cols)
        &&& all_wide(self.scrollback, self.cols)
        &&& match self.alt_lines {
            Some(alt) => alt.len() == self.rows && all_wide(alt, self.cols),
            None => true,
        }
        &&& self.scroll_region_top <= self.scroll_region_bottom < self.rows
        &&& self.viewport_offset <= self.scrollback.len()
        &&& self.room_for(0)
    }

    /// Whether `n` more rows of history can be counted.
    pub open spec fn room_for(self, n: int) -> bool {
        self.scrollback.len() + self.rows + n <= usize::MAX
    }

    /// Whether the cursor stands on the screen, or just behind the last column of one of its rows.
    pub open spec fn cursor_on_screen(self) -> bool {
        self.cursor.row < self.rows && self.cursor.col <= self.cols
    }

    /// Whether the cursor of a hidden primary screen stands on that screen too.
    pub open spec fn hidden_cursor_on_screen(self) -> bool {
        match self.alt_cursor {
            Some(c) => c.row < self.rows && c.col <= self.cols,
            None => true,
        }
    }

    /// A blank grid. A dimension of zero counts as one.
    pub open spec fn fresh(cols: usize, rows: usize, max_scrollback: usize) -> GridModel {
        let cols = most(cols as int, 1) as usize;
        let rows = most(rows as int, 1) as usize;
        GridModel {
            cols,
            rows,
            max_scrollback,
            lines: blank_rows(rows as nat, cols),
            scrollback: Seq::empty(),
            viewport_offset: 0,
            images: Map::empty(),
            image_versions: Map::empty(),
            placements: Seq::empty(),
            virtual_placements: Map::empty(),
            cursor: home_cursor(),
            saved_cursor: home_cursor(),
            scroll_region_top: 0,
            scroll_region_bottom: (rows - 1) as usize,
            alt_lines: None,
            alt_cursor: None,
            alt_saved_cursor: None,
            alt_placements: Seq::empty(),
            prompt_marks: Set::empty(),
            total_evicted_rows: 0,
        }
    }

    /// Every row of both screens and of the history marked for redrawing.
    pub open spec fn redrawn(self) -> GridModel {
        GridModel {
            lines: touched_rows(self.lines),
            alt_lines: match self.alt_lines {
                Some(alt) => Some(touched_rows(alt)),
                None => None,
            },
            scrollback: touched_rows(self.scrollback),
            ..self
        }
    }

    /// The viewport moved to an offset; moving it redraws everything.
    pub open spec fn viewing(self, offset: usize) -> GridModel {
        if offset == self.viewport_offset {
            self
        } else {
            (GridModel { viewport_offset: offset, ..self }).redrawn()
        }
    }

    /// The row displayed at a screen row: the viewport starts `viewport_offset` rows above the
    /// screen, on the primary screen.
    pub open spec fn shown(self, row: int) -> RowModel {
        let offset = least(self.viewport_offset as int, self.scrollback.len() as int);
        if self.alt_lines is Some || row >= offset {
            self.lines[if self.alt_lines is Some {
                row
            } else {
                row - offset
            }]
        } else {
            self.scrollback[self.scrollback.len() + row - offset]
        }
    }

    /// Whether a prompt starts on a row, counted from the oldest row of the history.
    pub open spec fn has_mark(self, abs_row: int) -> bool {
        self.total_evicted_rows + abs_row <= usize::MAX && self.prompt_marks.contains(
            (self.total_evicted_rows + abs_row) as usize,
        )
    }

    /// The row at the top of the viewport, in the count of the prompt marks.
    pub open spec fn view_top_mark(self) -> int {
        self.total_evicted_rows + self.scrollback.len() - self.viewport_offset
    }

    /// The last prompt of the history above the viewport.
    pub open spec fn prompt_above(self) -> Option<usize> {
        let low = self.total_evicted_rows as int;
        let high = self.view_top_mark();
        if exists|m: usize| is_last_mark(self.prompt_marks, low, high, m) {
            Some(choose|m: usize| is_last_mark(self.prompt_marks, low, high, m))
        } else {
            None
        }
    }

    /// The first prompt below the top row of the viewport.
    pub open spec fn prompt_below(self) -> Option<usize> {
        let low = self.view_top_mark();
        if exists|m: usize| is_first_mark(self.prompt_marks, low, m) {
            Some(choose|m: usize| is_first_mark(self.prompt_marks, low, m))
        } else {
            None
        }
    }

    /// The viewport offset that shows a marked row at the top, or the active screen if the row is
    /// on it.
    pub open spec fn offset_of_mark(self, m: usize) -> usize {
        floored_difference(self.scrollback.len() as int, m - self.total_evicted_rows)
    }

    /// How many of the oldest rows leave the history when `n` rows enter it.
    pub open spec fn overflow(self, n: int) -> int {
        if self.scrollback.len() >= self.max_scrollback {
            n
        } else {
            most(self.scrollback.len() + n - self.max_scrollback, 0)
        }
    }

    /// The oldest `n` rows of the history forgotten, with everything anchored to them.
    pub open spec fn forgetting(self, n: usize) -> GridModel {
        if n == 0 {
            self
        } else {
            let evicted = capped_sum(self.total_evicted_rows as int, n as int);
            GridModel {
                scrollback: self.scrollback.skip(n as int),
                placements: rebased(self.placements, n),
                total_evicted_rows: evicted,
                prompt_marks: self.prompt_marks.filter(|m: usize| m >= evicted),
                ..self
            }
        }
    }

    /// Rows added to the history, which forgets its oldest rows past its capacity. A viewport in
    /// the history stays on the rows it shows, as long as they exist.
    pub open spec fn with_history(self, rows: Seq<RowModel>) -> GridModel {
        if rows.len() == 0 {
            self
        } else {
            let grown = GridModel { scrollback: self.scrollback + rows, ..self };
            let kept = grown.forgetting(self.overflow(rows.len() as int) as usize);
            if self.viewport_offset > 0 {
                (GridModel {
                    viewport_offset: least(
                        self.viewport_offset + rows.len(),
                        kept.scrollback.len() as int,
                    ) as usize,
                    ..kept
                }).redrawn()
            } else {
                kept
            }
        }
    }

    /// Whether scrolling the region feeds the history: the region is the whole primary screen.
    pub open spec fn feeds_history(self) -> bool {
        &&& self.scroll_region_top == 0
        &&& self.scroll_region_bottom == self.rows - 1
        &&& self.alt_lines is None
        &&& self.max_scrollback > 0
    }

    /// The number of rows of the scroll region.
    pub open spec fn region_len(self) -> int {
        self.scroll_region_bottom - self.scroll_region_top + 1
    }

    /// The scroll region moved up by `count` rows.
    pub open spec fn scrolled_up(self, count: usize) -> GridModel {
        let n = least(count as int, self.region_len());
        if n == 0 {
            self
        } else {
            let saved = if self.feeds_history() {
                self.with_history(self.lines.take(n))
            } else {
                self
            };
            GridModel {
                lines: shifted_up(
                    self.lines,
                    self.scroll_region_top as int,
                    self.scroll_region_bottom as int,
                    n,
                    self.cols,
                ),
                ..saved
            }
        }
    }

    /// The scroll region moved down by `count` rows.
    pub open spec fn scrolled_down(self, count: usize) -> GridModel {
        let n = least(count as int, self.region_len());
        if n == 0 {
            self
        } else {
            GridModel {
                lines: shifted_down(
                    self.lines,
                    self.scroll_region_top as int,
                    self.scroll_region_bottom as int,
                    n,
                    self.cols,
                ),
                ..self
            }
        }
    }

    /// The cursor moved to the next row, scrolling at the bottom of the region.
    pub open spec fn on_next_row(self) -> GridModel {
        if self.cursor.row == self.scroll_region_bottom {
            self.scrolled_up(1)
        } else if self.cursor.row < self.rows - 1 {
            GridModel { cursor: Cursor { row: (self.cursor.row + 1) as usize, ..self.cursor }, ..self }
        } else {
            self
        }
    }

    /// The grid with one screen row replaced.
    pub open spec fn with_row(self, row: int, r: RowModel) -> GridModel {
        GridModel { lines: self.lines.update(row, r), ..self }
    }

    /// The grid with its cursor in another column.
    pub open spec fn at_column(self, col: usize) -> GridModel {
        GridModel { cursor: Cursor { col, ..self.cursor }, ..self }
    }

    /// The cursor's row marked as continued, and the cursor at the start of the next row.
    pub open spec fn wrapped(self) -> GridModel {
        let row = self.cursor.row as int;
        self.with_row(row, RowModel { wrapped: true, ..self.lines[row] }).on_next_row().at_column(0)
    }

    /// The image coordinates of a placeholder written at a column: one image column right of the
    /// placeholder on its left, if that has the same foreground, and the image's corner otherwise.
    pub open spec fn inherited(row: RowModel, col: usize, fg: Color) -> (u16, u16, u8) {
        let left = (col - 1) as usize;
        if col > 0 && row.placeholders.contains_key(left) && row.cells[left as int].fg == fg {
            let (r, c, n) = row.placeholders[left];
            (r, (c + 1) as u16, 0)
        } else {
            (0, 0, 0)
        }
    }

    /// Whether the image column of a placeholder written next can be counted.
    pub open spec fn placeholder_fits(self, c: char, fg: Color) -> bool {
        let row = self.lines[self.cursor.row as int];
        let left = (self.cursor.col - 1) as usize;
        c == KITTY_PLACEHOLDER && self.cursor.row < self.rows && 0 < self.cursor.col < self.cols
            && row.placeholders.contains_key(left) && row.cells[left as int].fg == fg
            ==> row.placeholders[left].1 < u16::MAX
    }

    /// A character of `w` columns written at the cursor, which must have room for it on its row.
    pub open spec fn placed(self, cell: Cell, w: int) -> GridModel {
        let row = self.cursor.row as int;
        let col = self.cursor.col;
        let before = self.lines[row];
        let shown = Cell {
            flags: if w == 2 {
                cell.flags.with(CellFlags::wide_char())
            } else {
                cell.flags
            },
            ..cell
        };
        let cells = before.cells.update(col as int, shown);
        let spacer = Cell { c: ' ', flags: cell.flags.with(CellFlags::wide_char_spacer()), ..cell };
        let after = RowModel {
            cells: if w == 2 && col + 1 < self.cols {
                cells.update(col + 1, spacer)
            } else {
                cells
            },
            placeholders: if cell.c == KITTY_PLACEHOLDER {
                before.placeholders.insert(col, GridModel::inherited(before, col, cell.fg))
            } else {
                before.placeholders.remove(col)
            },
            dirty: true,
            ..before
        };
        self.with_row(row, after).at_column(least(col + w, self.cols as int) as usize)
    }

    /// A character of `w` columns written at the cursor, on the next row where this one has no
    /// room for it. With the cursor below the screen nothing is written.
    pub open spec fn written(self, cell: Cell, w: int) -> GridModel {
        if self.cursor.row >= self.rows {
            self
        } else if self.cursor.col + w > self.cols {
            self.wrapped().placed(cell, w)
        } else {
            self.placed(cell, w)
        }
    }

    /// Characters of one column each, written one after the other.
    pub open spec fn run_written(self, text: Seq<u8>, cell: Cell) -> GridModel
        decreases text.len(),
    {
        if text.len() == 0 {
            self
        } else {
            self.run_written(text.drop_last(), cell).written(
                Cell { c: text.last() as char, ..cell },
                1,
            )
        }
    }

    /// A combining character at the cursor: on a placeholder its first two numbers are the image
    /// row and the image column. Elsewhere, and where no cell is left of the cursor, it is dropped.
    pub open spec fn combined(self, c: char) -> GridModel {
        let row = self.cursor.row as int;
        let target = (self.cursor.col - 1) as usize;
        let before = self.lines[row];
        match diacritic_number(c) {
            Some(idx) if row < self.rows && 0 < self.cursor.col <= self.cols
                && before.cells[target as int].c == KITTY_PLACEHOLDER && before.placeholders.contains_key(target) => {
                let (r, k, n) = before.placeholders[target];
                let coord = (
                    if n == 0 {
                        idx
                    } else {
                        r
                    },
                    if n == 1 {
                        idx
                    } else {
                        k
                    },
                    least(n + 1, 255) as u8,
                );
                self.with_row(
                    row,
                    RowModel { placeholders: before.placeholders.insert(target, coord), ..before },
                )
            },
            _ => self,
        }
    }

    /// A character written, given the number of its columns: one without columns combines.
    pub open spec fn typed(self, cell: Cell, w: int) -> GridModel {
        if w == 0 {
            self.combined(cell.c)
        } else {
            self.written(cell, w)
        }
    }

    /// Part of the screen, or the history, cleared.
    pub open spec fn cleared(self, mode: ClearMode) -> GridModel {
        let row = self.cursor.row as int;
        let blank = RowModel::blank(self.cols as nat);
        match mode {
            ClearMode::Below => if row < self.rows {
                GridModel {
                    lines: Seq::new(
                        self.lines.len(),
                        |i: int|
                            if i < row {
                                self.lines[i]
                            } else if i == row {
                                self.lines[i].wiped(
                                    self.cursor.col as int,
                                    self.cols as int,
                                ).touched()
                            } else {
                                blank
                            },
                    ),
                    ..self
                }
            } else {
                self
            },
            ClearMode::Above => if row < self.rows {
                GridModel {
                    lines: Seq::new(
                        self.lines.len(),
                        |i: int|
                            if i < row {
                                blank
                            } else if i == row {
                                self.lines[i].wiped(
                                    0,
                                    least(self.cursor.col + 1, self.cols as int),
                                ).touched()
                            } else {
                                self.lines[i]
                            },
                    ),
                    ..self
                }
            } else {
                self
            },
            ClearMode::All => (GridModel {
                lines: blank_rows(self.rows as nat, self.cols),
                prompt_marks: self.prompt_marks.filter(
                    |m: usize| m < self.total_evicted_rows + self.scrollback.len(),
                ),
                ..self
            }).redrawn(),
            ClearMode::Saved => {
                let n = self.scrollback.len() as usize;
                (GridModel {
                    scrollback: Seq::empty(),
                    viewport_offset: 0,
                    placements: rebased(self.placements, n),
                    alt_placements: rebased(self.alt_placements, n),
                    prompt_marks: Set::new(
                        |m: usize|
                            self.total_evicted_rows <= m && m + n <= usize::MAX
                                && self.prompt_marks.contains((m + n) as usize),
                    ),
                    ..self
                }).redrawn()
            },
        }
    }

    /// Part of the cursor's row cleared.
    pub open spec fn line_cleared(self, mode: ClearMode) -> GridModel {
        let row = self.cursor.row as int;
        if row >= self.rows {
            self
        } else {
            let line = self.lines[row];
            self.with_row(
                row,
                match mode {
                    ClearMode::Below => line.wiped(
                        least(self.cursor.col as int, self.cols as int),
                        self.cols as int,
                    ).touched(),
                    ClearMode::Above => line.wiped(
                        0,
                        least(self.cursor.col + 1, self.cols as int),
                    ).touched(),
                    _ => RowModel::blank(self.cols as nat),
                },
            )
        }
    }

    /// Every cell of both screens and of the history detached from its hyperlink.
    pub open spec fn unlinked(self) -> GridModel {
        GridModel {
            lines: self.lines.map_values(|r: RowModel| r.unlinked()),
            scrollback: self.scrollback.map_values(|r: RowModel| r.unlinked()),
            alt_lines: match self.alt_lines {
                Some(alt) => Some(alt.map_values(|r: RowModel| r.unlinked())),
                None => None,
            },
            ..self
        }
    }

    /// Whether the cursor stands on a cell.
    pub open spec fn cursor_on_cell(self) -> bool {
        self.cursor.row < self.rows && self.cursor.col < self.cols
    }

    /// Blank cells inserted at the cursor, shifting the rest of the row right.
    pub open spec fn chars_inserted(self, count: usize) -> GridModel {
        if !self.cursor_on_cell() {
            self
        } else {
            let row = self.cursor.row as int;
            let col = self.cursor.col as int;
            let n = least(count as int, self.cols - col);
            self.with_row(row, self.lines[row].opened(col, n))
        }
    }

    /// Cells removed at the cursor, shifting the rest of the row left.
    pub open spec fn chars_deleted(self, count: usize) -> GridModel {
        if !self.cursor_on_cell() {
            self
        } else {
            let row = self.cursor.row as int;
            let col = self.cursor.col as int;
            let n = least(count as int, self.cols - col);
            self.with_row(row, self.lines[row].closed(col, n))
        }
    }

    /// Whether the cursor's row lies in the scroll region.
    pub open spec fn cursor_in_region(self) -> bool {
        self.scroll_region_top <= self.cursor.row <= self.scroll_region_bottom
    }

    /// Blank rows inserted at the cursor's row, shifting the rest of the region down.
    pub open spec fn lines_inserted(self, count: usize) -> GridModel {
        if !self.cursor_in_region() {
            self
        } else {
            let row = self.cursor.row as int;
            let bottom = self.scroll_region_bottom as int;
            let n = least(count as int, bottom - row + 1);
            (GridModel {
                lines: shifted_down(self.lines, row, bottom, n, self.cols),
                ..self
            }).redrawn()
        }
    }

    /// Rows removed at the cursor's row, shifting the rest of the region up.
    pub open spec fn lines_deleted(self, count: usize) -> GridModel {
        if !self.cursor_in_region() {
            self
        } else {
            let row = self.cursor.row as int;
            let bottom = self.scroll_region_bottom as int;
            let n = least(count as int, bottom - row + 1);
            (GridModel {
                lines: shifted_up(self.lines, row, bottom, n, self.cols),
                ..self
            }).redrawn()
        }
    }

    /// A blank alternate screen in place of the primary one, which keeps its cursors and
    /// placements aside.
    pub open spec fn alt_entered(self) -> GridModel {
        if self.alt_lines is Some {
            self
        } else {
            GridModel {
                lines: blank_rows(self.rows as nat, self.cols),
                cursor: home_cursor(),
                saved_cursor: home_cursor(),
                placements: Seq::empty(),
                alt_lines: Some(self.lines),
                alt_cursor: Some(self.cursor),
                alt_saved_cursor: Some(self.saved_cursor),
                alt_placements: self.placements,
                viewport_offset: 0,
                ..self
            }
        }
    }

    /// The primary screen back, with its own cursors and placements.
    pub open spec fn alt_left(self) -> GridModel {
        match self.alt_lines {
            None => self,
            Some(primary) => (GridModel {
                lines: primary,
                cursor: match self.alt_cursor {
                    Some(c) => c,
                    None => self.cursor,
                },
                saved_cursor: match self.alt_saved_cursor {
                    Some(c) => c,
                    None => self.saved_cursor,
                },
                placements: self.alt_placements,
                alt_lines: None,
                alt_cursor: None,
                alt_saved_cursor: None,
                alt_placements: Seq::empty(),
                viewport_offset: 0,
                ..self
            }).redrawn(),
        }
    }
}

} // verus!
