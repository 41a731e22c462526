//! Terminal grid dimensions resizing, scrollback line restoration, and placement adjustment.

use crate::grid::edit::{clamp_cursor, marks_before};
use crate::grid::model::{
    all_wide, blank_rows, capped_sum, clamped, floored_difference, least, most, rebased, GridModel,
};
use crate::grid::reflow::{sheet_of, wrapped_rows, Item, LineModel, LogicalLine, Sheet};
use crate::grid::row::{home_cursor, Cursor, Row, RowModel};
use crate::grid::scroll::{keep_marks_from, lemma_with_history_wf, marks_of, shift_placements};
use crate::grid::{row_models, Grid};
use crate::kitty::ImagePlacement;
use std::collections::{BTreeSet, VecDeque};
use vstd::prelude::*;

verus! {

broadcast use {
    vstd::std_specs::hash::group_hash_axioms,
    vstd::std_specs::btree::group_btree_axioms,
};

/// The placements above a row.
pub open spec fn placements_above(ps: Seq<ImagePlacement>, bound: int) -> Seq<ImagePlacement> {
    ps.filter(|p: ImagePlacement| p.line < bound)
}

/// A cursor moved to its place on a sheet of which `from_top` rows lie above the screen. A cursor
/// without a place stays where it is, on the screen.
pub open spec fn cursor_settled(
    c: Cursor,
    place: Option<(int, int)>,
    from_top: int,
    rows: usize,
    cols: usize,
) -> Cursor {
    match place {
        Some((r, k)) => Cursor {
            row: least(most(r - from_top, 0), rows - 1) as usize,
            col: least(k, cols - 1) as usize,
            ..c
        },
        None => clamped(c, rows, cols),
    }
}

impl GridModel {
    /// The rows of the text in another width, at least as many as the screen has.
    pub open spec fn reflow_rows(self, cols: usize, rows: usize) -> Seq<RowModel> {
        let sheet = sheet_of(self.logical_lines(), cols as int);
        sheet.rows + blank_rows(most(rows - sheet.rows.len(), 0) as nat, cols)
    }

    /// How many of the surplus rows go at the bottom: those below the cursor go first.
    pub open spec fn reflow_cut(self, cols: usize, rows: usize) -> int {
        let sheet = sheet_of(self.logical_lines(), cols as int);
        let total = self.reflow_rows(cols, rows).len() as int;
        let target = match sheet.cursor {
            Some((r, c)) => r,
            None => total - 1,
        };
        least(total - rows, most(total - 1 - target, 0))
    }

    /// The text of the primary screen and the history distributed over rows of another width.
    pub open spec fn reflowed(self, cols: usize, rows: usize) -> GridModel {
        let sheet = sheet_of(self.logical_lines(), cols as int);
        let all = self.reflow_rows(cols, rows);
        let total = all.len() as int;
        let cut = self.reflow_cut(cols, rows);
        let from_top = total - rows - cut;
        let lost = most(from_top - self.max_scrollback, 0);
        let kept = all.take(from_top).skip(lost);
        let evicted = capped_sum(self.total_evicted_rows as int, lost);
        (GridModel {
            cols,
            rows,
            lines: all.subrange(from_top, total - cut),
            scrollback: kept,
            viewport_offset: match sheet.view {
                Some(v) => floored_difference(kept.len() as int, most(v - lost, 0)),
                None => 0,
            },
            placements: placements_above(
                rebased(sheet.placements, lost as usize),
                kept.len() + rows,
            ),
            cursor: cursor_settled(self.cursor, sheet.cursor, from_top, rows, cols),
            saved_cursor: cursor_settled(self.saved_cursor, sheet.saved, from_top, rows, cols),
            scroll_region_top: 0,
            scroll_region_bottom: (rows - 1) as usize,
            prompt_marks: Set::new(
                |m: usize| m >= evicted && sheet.marks.contains(m - self.total_evicted_rows),
            ),
            total_evicted_rows: evicted,
            ..self
        }).redrawn()
    }
}

/// How many of `surplus` rows are cut at the top: those below the cursor are cut first.
pub open spec fn cut_at_top(len: int, surplus: int, cursor_row: int) -> int {
    surplus - least(surplus, most(len - 1 - cursor_row, 0))
}

/// A cursor on a screen that lost rows at its top.
pub open spec fn raised(c: Cursor, by: int) -> Cursor {
    Cursor { row: most(c.row - by, 0) as usize, ..c }
}

/// An optional cursor on a screen that lost rows at its top.
pub open spec fn raised_option(c: Option<Cursor>, by: int) -> Option<Cursor> {
    match c {
        Some(c) => Some(raised(c, by)),
        None => None,
    }
}

/// An optional cursor brought back onto a screen.
pub open spec fn clamped_option(c: Option<Cursor>, rows: usize, cols: usize) -> Option<Cursor> {
    match c {
        Some(c) => Some(clamped(c, rows, cols)),
        None => None,
    }
}

/// Rows cut or padded to a width.
pub open spec fn widened(rows: Seq<RowModel>, cols: usize) -> Seq<RowModel> {
    rows.map_values(|r: RowModel| r.resized(cols))
}

impl GridModel {
    /// Every row cut or padded to a width.
    pub open spec fn all_widened(self, cols: usize) -> GridModel {
        GridModel {
            lines: widened(self.lines, cols),
            scrollback: widened(self.scrollback, cols),
            alt_lines: match self.alt_lines {
                Some(alt) => Some(widened(alt, cols)),
                None => None,
            },
            ..self
        }
    }

    /// How many rows the primary screen takes back from the history to grow.
    pub open spec fn pulled(self, rows: usize) -> int {
        if self.alt_lines is Some {
            0
        } else {
            least(rows - self.rows, self.scrollback.len() as int)
        }
    }

    /// A taller screen: the primary one takes rows back from the history, and blank rows make up
    /// the rest.
    pub open spec fn grown(self, rows: usize, cols: usize) -> GridModel {
        let n = self.pulled(rows);
        let h = self.scrollback.len() - n;
        GridModel {
            lines: self.scrollback.skip(h) + self.lines + blank_rows(
                (rows - self.rows - n) as nat,
                cols,
            ),
            scrollback: self.scrollback.take(h),
            cursor: Cursor {
                row: least(capped_sum(self.cursor.row as int, n) as int, rows - 1) as usize,
                ..self.cursor
            },
            saved_cursor: Cursor {
                row: least(capped_sum(self.saved_cursor.row as int, n) as int, rows - 1) as usize,
                ..self.saved_cursor
            },
            viewport_offset: least(self.viewport_offset as int, h) as usize,
            alt_lines: match self.alt_lines {
                Some(alt) => Some(alt + blank_rows((rows - self.rows) as nat, cols)),
                None => None,
            },
            ..self
        }
    }

    /// A lower alternate screen, cut at its bottom, over a lower primary screen, which keeps its
    /// cursor's row.
    pub open spec fn alt_shrunk(self, rows: usize) -> GridModel {
        let alt = self.alt_lines->0;
        let hidden = match self.alt_cursor {
            Some(c) => c,
            None => home_cursor(),
        };
        let top = cut_at_top(alt.len() as int, self.rows - rows, hidden.row as int);
        GridModel {
            lines: self.lines.take(rows as int),
            cursor: Cursor {
                row: least(self.cursor.row as int, rows - 1) as usize,
                ..self.cursor
            },
            saved_cursor: Cursor {
                row: least(self.saved_cursor.row as int, rows - 1) as usize,
                ..self.saved_cursor
            },
            alt_lines: Some(alt.skip(top).take(rows as int)),
            alt_cursor: raised_option(self.alt_cursor, top),
            alt_saved_cursor: raised_option(self.alt_saved_cursor, top),
            alt_placements: rebased(self.alt_placements, top as usize),
            ..self
        }
    }

    /// A lower primary screen, which keeps its cursor's row. The rows cut at its top enter the
    /// history; without a history they are forgotten.
    pub open spec fn primary_shrunk(self, rows: usize) -> GridModel {
        let top = cut_at_top(self.lines.len() as int, self.rows - rows, self.cursor.row as int);
        let cut = GridModel {
            lines: self.lines.skip(top).take(rows as int),
            cursor: raised(self.cursor, top),
            saved_cursor: raised(self.saved_cursor, top),
            ..self
        };
        if self.max_scrollback > 0 {
            cut.with_history(self.lines.take(top))
        } else if top > 0 {
            GridModel { scrollback: self.scrollback, ..cut.forgetting(top as usize) }
        } else {
            cut
        }
    }

    /// Everything anchored below the new bottom row dropped.
    pub open spec fn bottom_dropped(self, rows: usize) -> GridModel {
        let bottom = self.scrollback.len() + rows;
        GridModel {
            placements: placements_above(self.placements, bottom),
            alt_placements: placements_above(self.alt_placements, bottom),
            prompt_marks: self.prompt_marks.filter(
                |m: usize| m < self.total_evicted_rows + bottom,
            ),
            ..self
        }
    }

    /// The grid with its dimensions set, its scroll region reset and every cursor on its screen.
    pub open spec fn refitted(self, cols: usize, rows: usize) -> GridModel {
        (GridModel {
            cols,
            rows,
            scroll_region_top: 0,
            scroll_region_bottom: (rows - 1) as usize,
            cursor: clamped(self.cursor, rows, cols),
            saved_cursor: clamped(self.saved_cursor, rows, cols),
            alt_cursor: clamped_option(self.alt_cursor, rows, cols),
            alt_saved_cursor: clamped_option(self.alt_saved_cursor, rows, cols),
            ..self
        }).redrawn()
    }

    /// The grid in other dimensions, row by row.
    pub open spec fn resized_in_place(self, cols: usize, rows: usize) -> GridModel {
        let wide = self.all_widened(cols);
        let fitted = if rows > self.rows {
            wide.grown(rows, cols)
        } else if rows < self.rows {
            (if self.alt_lines is Some {
                wide.alt_shrunk(rows)
            } else {
                wide.primary_shrunk(rows)
            }).bottom_dropped(rows)
        } else {
            wide
        };
        fitted.refitted(cols, rows)
    }

    /// The grid in other dimensions. A dimension of zero counts as one. The text of the primary
    /// screen is distributed anew where the width changes.
    pub open spec fn resized(self, cols: usize, rows: usize) -> GridModel {
        let cols = most(cols as int, 1) as usize;
        let rows = most(rows as int, 1) as usize;
        if self.alt_lines is None && cols != self.cols {
            self.reflowed(cols, rows)
        } else {
            self.resized_in_place(cols, rows)
        }
    }
}

/// The rows of a line have the width asked for.
proof fn lemma_wrapped_wide(items: Seq<Item>, from: int, cols: usize)
    ensures
        all_wide(wrapped_rows(items, from, cols as int), cols),
    decreases items.len() - from,
{
    let n = crate::grid::reflow::piece_len(items, from, cols as int);
    if n < 1 || from + n >= items.len() {
    } else {
        lemma_wrapped_wide(items, from + n, cols);
        let rest = wrapped_rows(items, from + n, cols as int);
        let rows = wrapped_rows(items, from, cols as int);
        assert forall|i: int| 0 <= i < rows.len() implies (#[trigger] rows[i]).cells.len()
            == cols by {
            if i > 0 {
                assert(rows[i] == rest[i - 1]);
            }
        }
    }
}

/// The rows of a sheet have the width asked for.
pub proof fn lemma_sheet_wide(lines: Seq<LineModel>, cols: usize)
    ensures
        all_wide(sheet_of(lines, cols as int).rows, cols),
    decreases lines.len(),
{
    if lines.len() > 0 {
        lemma_sheet_wide(lines.drop_last(), cols);
        lemma_wrapped_wide(lines.last().items, 0, cols);
    }
}

/// Keeps the placements above a row.
fn keep_placements_above(ps: &mut Vec<ImagePlacement>, bound: usize)
    ensures
        final(ps)@ == placements_above(old(ps)@, bound as int),
{
    let ghost before = ps@;
    let mut kept: Vec<ImagePlacement> = Vec::new();
    let mut i: usize = 0;
    proof {
        reveal(Seq::filter);
        assert(placements_above(before.take(0), bound as int) =~= Seq::<ImagePlacement>::empty());
    }
    while i < ps.len()
        invariant
            i <= ps@.len(),
            ps@ == before,
            kept@ == placements_above(before.take(i as int), bound as int),
        decreases ps@.len() - i,
    {
        let p: ImagePlacement = ps[i];
        proof {
            reveal(Seq::filter);
            assert(before.take(i + 1).drop_last() =~= before.take(i as int));
        }
        if p.line < bound {
            kept.push(p);
        }
        i += 1;
    }
    assert(before.take(before.len() as int) =~= before);
    *ps = kept;
}

/// The rows of a vector as a queue.
fn queue_of(rows: Vec<Row>) -> (q: VecDeque<Row>)
    ensures
        q@ == rows@,
{
    let ghost before = rows@;
    let mut left: Vec<Row> = rows;
    let mut q: VecDeque<Row> = VecDeque::new();
    assert(left@ + q@ =~= before);
    while left.len() > 0
        invariant
            left@ + q@ == before,
        decreases left@.len(),
    {
        let ghost a = left@;
        let ghost b = q@;
        let popped = left.pop();
        if let Some(row) = popped {
            q.push_front(row);
            assert(left@ + q@ =~= a + b);
        }
    }
    assert(q@ =~= before);
    q
}

/// The marks of a sheet, counted from the first row ever evicted, without those that are lost.
fn moved_marks(marks: &BTreeSet<usize>, base: usize, evicted: usize) -> (r: BTreeSet<usize>)
    ensures
        r@ == Set::new(
            |m: usize| m >= evicted && m >= base && marks@.contains((m - base) as usize),
        ),
{
    let all: Vec<usize> = marks_of(marks);
    let mut out: BTreeSet<usize> = BTreeSet::new();
    let mut i: usize = 0;
    while i < all.len()
        invariant
            i <= all@.len(),
            forall|m: usize| #[trigger]
                out@.contains(m) <==> m >= evicted && m >= base && all@.take(i as int).contains(
                    (m - base) as usize,
                ),
        decreases all@.len() - i,
    {
        let ghost before = out@;
        if let Some(m) = base.checked_add(all[i]) {
            if m >= evicted {
                out.insert(m);
            }
        }
        assert(all@.take(i + 1) =~= all@.take(i as int).push(all@[i as int]));
        assert forall|m: usize| #[trigger]
            out@.contains(m) <==> m >= evicted && m >= base && all@.take(i + 1).contains(
                (m - base) as usize,
            ) by {
            if m >= base {
                vstd::seq_lib::lemma_seq_contains_after_push(
                    all@.take(i as int),
                    all@[i as int],
                    (m - base) as usize,
                );
            }
            assert(before.contains(m) <==> m >= evicted && m >= base && all@.take(
                i as int,
            ).contains((m - base) as usize));
        }
        i += 1;
    }
    assert(all@.take(all@.len() as int) =~= all@);
    assert forall|m: usize| #[trigger] marks@.contains(m) <==> all@.contains(m) by {
        assert(all@.to_set().contains(m) <==> all@.contains(m));
    }
    assert(out@ =~= Set::new(
        |m: usize| m >= evicted && m >= base && marks@.contains((m - base) as usize),
    ));
    out
}

/// Moves a cursor to its place on a sheet.
fn settle_cursor(
    c: Cursor,
    place: Option<(usize, usize)>,
    from_top: usize,
    rows: usize,
    cols: usize,
) -> (r: Cursor)
    requires
        rows >= 1,
        cols >= 1,
    ensures
        r == cursor_settled(
            c,
            crate::grid::reflow::as_spot(place),
            from_top as int,
            rows,
            cols,
        ),
{
    match place {
        Some((row, col)) => {
            let below: usize = row.saturating_sub(from_top);
            Cursor {
                row: if below < rows {
                    below
                } else {
                    rows - 1
                },
                col: if col < cols {
                    col
                } else {
                    cols - 1
                },
                ..c
            }
        },
        None => clamp_cursor(c, rows, cols),
    }
}

impl Grid {
    /// Distributes the text of the primary screen and the history over rows of another width.
    #[verifier::rlimit(40)]
    fn reflow_primary_screen(&mut self, new_cols: usize, new_rows: usize)
        requires
            old(self)@.wf(),
            old(self)@.alt_lines is None,
            new_cols >= 1,
            new_rows >= 1,
        ensures
            final(self)@ == old(self)@.reflowed(new_cols, new_rows),
            final(self)@.wf(),
            final(self)@.cursor_on_screen(),
    {
        let ghost before = self@;
        let lines: Vec<LogicalLine> = self.gather_lines();
        let laid: Sheet = crate::grid::reflow::lay_out(&lines, new_cols);
        let ghost sheet = laid@;
        let Sheet { rows: laid_rows, marks, placements, cursor, saved, view } = laid;
        let mut all: Vec<Row> = laid_rows;
        let ghost laid_models = row_models(all@);
        let ghost short = most(new_rows - laid_models.len(), 0);
        let mut added: usize = 0;
        assert(laid_models + blank_rows(0, new_cols) =~= laid_models);
        while all.len() < new_rows
            invariant
                short == most(new_rows - laid_models.len(), 0),
                added <= short,
                all@.len() == laid_models.len() + added,
                row_models(all@) == laid_models + blank_rows(added as nat, new_cols),
            decreases new_rows - all@.len(),
        {
            let ghost held = row_models(all@);
            all.push(Row::new(new_cols));
            assert(row_models(all@) =~= held.push(RowModel::blank(new_cols as nat)));
            added += 1;
            assert(row_models(all@) =~= laid_models + blank_rows(added as nat, new_cols));
        }
        let ghost models = row_models(all@);
        assert(models == before.reflow_rows(new_cols, new_rows));
        let total: usize = all.len();
        let target: usize = match cursor {
            Some(place) => place.0,
            None => total - 1,
        };
        let needed: usize = total - new_rows;
        let below: usize = (total - 1).saturating_sub(target);
        let cut: usize = if needed <= below {
            needed
        } else {
            below
        };
        let from_top: usize = needed - cut;
        assert(cut == before.reflow_cut(new_cols, new_rows));
        let mut screen: Vec<Row> = all.split_off(from_top);
        screen.truncate(new_rows);
        assert(row_models(screen@) =~= models.subrange(from_top as int, total - cut));
        let lost: usize = from_top.saturating_sub(self.max_scrollback);
        let kept: Vec<Row> = all.split_off(lost);
        assert(row_models(kept@) =~= models.take(from_top as int).skip(lost as int));
        let kept_len: usize = kept.len();
        let evicted: usize = self.total_evicted_rows.saturating_add(lost);
        self.lines = screen;
        self.scrollback = queue_of(kept);
        self.placements = placements;
        shift_placements(&mut self.placements, lost);
        keep_placements_above(&mut self.placements, kept_len + new_rows);
        self.cursor = settle_cursor(self.cursor, cursor, from_top, new_rows, new_cols);
        self.saved_cursor = settle_cursor(self.saved_cursor, saved, from_top, new_rows, new_cols);
        self.prompt_marks = moved_marks(&marks, self.total_evicted_rows, evicted);
        self.total_evicted_rows = evicted;
        self.cols = new_cols;
        self.rows = new_rows;
        self.scroll_region_top = 0;
        self.scroll_region_bottom = new_rows - 1;
        self.viewport_offset = match view {
            Some(v) => kept_len.saturating_sub(v.saturating_sub(lost)),
            None => 0,
        };
        proof {
            assert(self@.prompt_marks =~= Set::new(
                |m: usize|
                    m >= evicted && sheet.marks.contains(m - before.total_evicted_rows),
            ));
        }
        self.mark_all_dirty();
        assert(self@ =~= before.reflowed(new_cols, new_rows));
        proof {
            lemma_sheet_wide(before.logical_lines(), new_cols);
            assert(all_wide(models, new_cols));
        }
    }

    /// Grows the screens to a number of rows.
    fn grow(&mut self, new_rows: usize, new_cols: usize)
        requires
            old(self)@.rows < new_rows,
            old(self)@.lines.len() == old(self)@.rows,
            old(self)@.viewport_offset <= old(self)@.scrollback.len(),
        ensures
            final(self)@ == old(self)@.grown(new_rows, new_cols),
    {
        let ghost before = self@;
        let needed: usize = new_rows - self.rows;
        let pull: usize = if self.alt_lines.is_some() {
            0
        } else if needed <= self.scrollback.len() {
            needed
        } else {
            self.scrollback.len()
        };
        let ghost h = before.scrollback.len() - pull;
        let mut taken: usize = 0;
        assert(before.scrollback.skip(before.scrollback.len() as int) + before.lines
            =~= before.lines);
        assert(before.scrollback.take(before.scrollback.len() as int) =~= before.scrollback);
        while taken < pull
            invariant
                taken <= pull <= before.scrollback.len(),
                self@ == (GridModel {
                    lines: before.scrollback.skip(before.scrollback.len() - taken) + before.lines,
                    scrollback: before.scrollback.take(before.scrollback.len() - taken),
                    ..before
                }),
            decreases pull - taken,
        {
            let ghost lines = self@.lines;
            let ghost history = self@.scrollback;
            let popped = self.scrollback.pop_back();
            assert(history.len() == self.scrollback@.len() + 1);
            if let Some(row) = popped {
                assert(row@ == history[history.len() - 1]);
                self.lines.insert(0, row);
                assert(self@.lines =~= seq![row@] + lines);
            }
            assert(self@.scrollback =~= before.scrollback.take(
                before.scrollback.len() - taken - 1,
            ));
            assert(self@.lines =~= before.scrollback.skip(before.scrollback.len() - taken - 1)
                + before.lines);
            taken += 1;
        }
        self.cursor.row = lowered_row(self.cursor.row, pull, new_rows);
        self.saved_cursor.row = lowered_row(self.saved_cursor.row, pull, new_rows);
        if self.viewport_offset > self.scrollback.len() {
            self.viewport_offset = self.scrollback.len();
        }
        let ghost taller = before.scrollback.skip(h) + before.lines;
        assert(row_models(self.lines@) == taller);
        push_blank_rows(&mut self.lines, needed - pull, new_cols);
        assert(pull == before.pulled(new_rows));
        assert(self@.lines =~= before.grown(new_rows, new_cols).lines);
        if let Some(alt) = &mut self.alt_lines {
            push_blank_rows(alt, needed, new_cols);
        }
        assert(self@.scrollback =~= before.grown(new_rows, new_cols).scrollback);
        assert(self@.cursor == before.grown(new_rows, new_cols).cursor);
        assert(self@.viewport_offset == before.grown(new_rows, new_cols).viewport_offset);
        assert(self@.alt_lines == before.grown(new_rows, new_cols).alt_lines);
        assert(self@ =~= before.grown(new_rows, new_cols));
    }

    /// Cuts the alternate screen at its bottom and the hidden primary screen around its cursor.
    fn shrink_alt(&mut self, new_rows: usize)
        requires
            old(self)@.alt_lines is Some,
            old(self)@.alt_lines->0.len() == old(self)@.rows,
            old(self)@.lines.len() == old(self)@.rows,
            1 <= new_rows < old(self)@.rows,
        ensures
            final(self)@ == old(self)@.alt_shrunk(new_rows),
    {
        let ghost before = self@;
        let surplus: usize = self.rows - new_rows;
        self.lines.truncate(new_rows);
        assert(row_models(self.lines@) =~= before.lines.take(new_rows as int));
        if self.cursor.row >= new_rows {
            self.cursor.row = new_rows - 1;
        }
        if self.saved_cursor.row >= new_rows {
            self.saved_cursor.row = new_rows - 1;
        }
        let hidden_row: usize = match self.alt_cursor {
            Some(c) => c.row,
            None => 0,
        };
        let mut top: usize = 0;
        if let Some(alt) = &mut self.alt_lines {
            let gone: Vec<Row> = shrink_rows(alt, surplus, hidden_row, new_rows);
            top = gone.len();
            assert(row_models(gone@).len() == gone@.len());
        }
        self.alt_cursor = raise_option(self.alt_cursor, top);
        self.alt_saved_cursor = raise_option(self.alt_saved_cursor, top);
        shift_placements(&mut self.alt_placements, top);
        assert(self@ =~= before.alt_shrunk(new_rows));
    }

    /// Cuts the primary screen around its cursor and keeps the rows cut at its top in the history.
    fn shrink_primary(&mut self, new_rows: usize)
        requires
            old(self)@.wf(),
            old(self)@.room_for(old(self)@.rows - new_rows),
            1 <= new_rows < old(self)@.rows,
        ensures
            final(self)@ == old(self)@.primary_shrunk(new_rows),
    {
        let ghost before = self@;
        let surplus: usize = self.rows - new_rows;
        let gone: Vec<Row> = shrink_rows(&mut self.lines, surplus, self.cursor.row, new_rows);
        let top: usize = gone.len();
        assert(row_models(gone@).len() == gone@.len());
        assert(top == cut_at_top(before.lines.len() as int, surplus as int, before.cursor.row as int));
        self.cursor.row = self.cursor.row.saturating_sub(top);
        self.saved_cursor.row = self.saved_cursor.row.saturating_sub(top);
        let ghost mid = self@;
        assert(mid =~= (GridModel {
            lines: before.lines.skip(top as int).take(new_rows as int),
            cursor: raised(before.cursor, top as int),
            saved_cursor: raised(before.saved_cursor, top as int),
            ..before
        }));
        if self.max_scrollback > 0 {
            self.remember(gone);
            assert(self@ =~= mid.with_history(before.lines.take(top as int)));
        } else if top > 0 {
            shift_placements(&mut self.placements, top);
            self.total_evicted_rows = self.total_evicted_rows.saturating_add(top);
            keep_marks_from(&mut self.prompt_marks, self.total_evicted_rows);
            assert(self@.prompt_marks =~= mid.forgetting(top as usize).prompt_marks);
        }
        assert(self@ =~= before.primary_shrunk(new_rows));
    }

    /// Drops what is anchored below the new bottom row.
    fn drop_below(&mut self, new_rows: usize)
        requires
            old(self)@.scrollback.len() + new_rows <= usize::MAX,
        ensures
            final(self)@ == old(self)@.bottom_dropped(new_rows),
    {
        let ghost before = self@;
        let bottom: usize = self.scrollback.len() + new_rows;
        keep_placements_above(&mut self.placements, bottom);
        keep_placements_above(&mut self.alt_placements, bottom);
        self.prompt_marks = marks_before(&self.prompt_marks, self.total_evicted_rows, bottom);
        assert(self@.prompt_marks =~= before.bottom_dropped(new_rows).prompt_marks);
        assert(self@ =~= before.bottom_dropped(new_rows));
    }

    /// Sets the dimensions, resets the scroll region and brings every cursor onto its screen.
    fn refit(&mut self, new_cols: usize, new_rows: usize)
        requires
            new_cols >= 1,
            new_rows >= 1,
        ensures
            final(self)@ == old(self)@.refitted(new_cols, new_rows),
    {
        let ghost before = self@;
        self.cols = new_cols;
        self.rows = new_rows;
        self.scroll_region_top = 0;
        self.scroll_region_bottom = new_rows - 1;
        self.cursor = clamp_cursor(self.cursor, new_rows, new_cols);
        self.saved_cursor = clamp_cursor(self.saved_cursor, new_rows, new_cols);
        if let Some(c) = self.alt_cursor {
            self.alt_cursor = Some(clamp_cursor(c, new_rows, new_cols));
        }
        if let Some(c) = self.alt_saved_cursor {
            self.alt_saved_cursor = Some(clamp_cursor(c, new_rows, new_cols));
        }
        self.mark_all_dirty();
        assert(self@ =~= before.refitted(new_cols, new_rows));
    }

    /// Cuts or pads every row to a width.
    fn widen_all(&mut self, new_cols: usize)
        ensures
            final(self)@ == old(self)@.all_widened(new_cols),
    {
        widen_rows(&mut self.lines, new_cols);
        widen_queue(&mut self.scrollback, new_cols);
        if let Some(alt) = &mut self.alt_lines {
            widen_rows(alt, new_cols);
        }
        assert(self@ =~= old(self)@.all_widened(new_cols));
    }

    /// Resizes the grid dimensions.
    ///
    /// Shrinking keeps the cursor's line on screen and discards rows below it first, so content
    /// above the cursor does not scroll away while the area beneath it is still empty.
    pub fn resize(&mut self, new_cols: usize, new_rows: usize)
        requires
            old(self)@.wf(),
            old(self)@.room_for(new_rows as int + 1),
            old(self)@.room_for(old(self)@.rows as int),
        ensures
            final(self)@ == old(self)@.resized(new_cols, new_rows),
            final(self)@.wf(),
            final(self)@.cursor_on_screen(),
    {
        let cols: usize = if new_cols > 1 {
            new_cols
        } else {
            1
        };
        let rows: usize = if new_rows > 1 {
            new_rows
        } else {
            1
        };
        if self.alt_lines.is_none() && cols != self.cols {
            self.reflow_primary_screen(cols, rows);
            return;
        }
        let ghost before = self@;
        self.widen_all(cols);
        proof {
            lemma_widened_wide(before.lines, cols);
            lemma_widened_wide(before.scrollback, cols);
            if before.alt_lines is Some {
                lemma_widened_wide(before.alt_lines->0, cols);
            } else {
                lemma_same_width(before, cols);
            }
        }
        if rows > self.rows {
            self.grow(rows, cols);
        } else if rows < self.rows {
            if self.alt_lines.is_some() {
                self.shrink_alt(rows);
            } else {
                self.shrink_primary(rows);
                proof {
                    lemma_primary_shrunk(before, rows);
                }
            }
            self.drop_below(rows);
        }
        self.refit(cols, rows);
        proof {
            lemma_resized_wf(before, cols, rows);
        }
    }
}

/// The history that a lower primary screen leaves.
proof fn lemma_primary_shrunk(g: GridModel, rows: usize)
    requires
        g.wf(),
        1 <= rows < g.rows,
        g.room_for(g.rows - rows),
    ensures
        ({
            let s = g.primary_shrunk(rows);
            &&& s.lines.len() == rows
            &&& all_wide(s.lines, g.cols)
            &&& all_wide(s.scrollback, g.cols)
            &&& s.viewport_offset <= s.scrollback.len()
            &&& s.scrollback.len() + rows <= usize::MAX
            &&& s.alt_lines == g.alt_lines || g.alt_lines is Some
        }),
{
    let top = cut_at_top(g.lines.len() as int, g.rows - rows, g.cursor.row as int);
    assert(0 <= top <= g.rows - rows);
    let cut = GridModel {
        lines: g.lines.skip(top).take(rows as int),
        cursor: raised(g.cursor, top),
        saved_cursor: raised(g.saved_cursor, top),
        ..g
    };
    let small = GridModel {
        rows,
        scroll_region_top: 0,
        scroll_region_bottom: 0,
        alt_lines: None,
        ..cut
    };
    if g.max_scrollback > 0 {
        assert(small.wf());
        lemma_with_history_wf(small, g.lines.take(top));
        let h = cut.with_history(g.lines.take(top));
        let k = small.with_history(g.lines.take(top));
        assert(h.scrollback == k.scrollback);
        assert(h.lines == k.lines);
        assert(h.viewport_offset == k.viewport_offset);
    }
}

/// Resizing in place keeps the shape of the grid.
pub proof fn lemma_resized_wf(g: GridModel, cols: usize, rows: usize)
    requires
        g.wf(),
        g.room_for(rows as int),
        g.room_for(g.rows as int),
        cols >= 1,
        rows >= 1,
        g.alt_lines is None ==> cols == g.cols,
    ensures
        g.resized_in_place(cols, rows).wf(),
        g.resized_in_place(cols, rows).cursor_on_screen(),
{
    lemma_widened_wide(g.lines, cols);
    lemma_widened_wide(g.scrollback, cols);
    if g.alt_lines is Some {
        lemma_widened_wide(g.alt_lines->0, cols);
    } else {
        lemma_same_width(g, cols);
    }
    if rows < g.rows && g.alt_lines is None {
        lemma_primary_shrunk(g, rows);
    }
}

/// Rows cut or padded to a width have it.
proof fn lemma_widened_wide(rows: Seq<RowModel>, cols: usize)
    ensures
        all_wide(widened(rows, cols), cols),
{
}

/// A grid that keeps its width keeps its rows.
pub proof fn lemma_same_width(g: GridModel, cols: usize)
    requires
        g.wf(),
        cols == g.cols,
    ensures
        g.all_widened(cols) == g,
{
    let w = g.all_widened(cols);
    assert(w.lines =~= g.lines);
    assert(w.scrollback =~= g.scrollback);
    if g.alt_lines is Some {
        assert(w.alt_lines->0 =~= g.alt_lines->0);
    }
    assert(w =~= g);
}

/// The row of a cursor on a screen that gained rows at its top.
fn lowered_row(row: usize, by: usize, rows: usize) -> (r: usize)
    requires
        rows >= 1,
    ensures
        r == least(capped_sum(row as int, by as int) as int, rows - 1),
{
    let sum: usize = row.saturating_add(by);
    if sum < rows {
        sum
    } else {
        rows - 1
    }
}

fn raise_option(c: Option<Cursor>, by: usize) -> (r: Option<Cursor>)
    ensures
        r == raised_option(c, by as int),
{
    match c {
        Some(c) => Some(Cursor { row: c.row.saturating_sub(by), ..c }),
        None => None,
    }
}

/// Appends blank rows.
fn push_blank_rows(rows: &mut Vec<Row>, n: usize, cols: usize)
    ensures
        row_models(final(rows)@) == row_models(old(rows)@) + blank_rows(n as nat, cols),
{
    let ghost before = row_models(rows@);
    let mut i: usize = 0;
    assert(before + blank_rows(0, cols) =~= before);
    while i < n
        invariant
            i <= n,
            row_models(rows@) == before + blank_rows(i as nat, cols),
        decreases n - i,
    {
        let ghost held = row_models(rows@);
        rows.push(Row::new(cols));
        assert(row_models(rows@) =~= held.push(RowModel::blank(cols as nat)));
        i += 1;
        assert(row_models(rows@) =~= before + blank_rows(i as nat, cols));
    }
}

/// Cuts or pads rows to a width.
fn widen_rows(rows: &mut Vec<Row>, cols: usize)
    ensures
        row_models(final(rows)@) == widened(row_models(old(rows)@), cols),
{
    let ghost before = row_models(rows@);
    let mut i: usize = 0;
    while i < rows.len()
        invariant
            i <= rows@.len(),
            rows@.len() == before.len(),
            forall|j: int| 0 <= j < rows@.len() ==> (#[trigger] rows@[j])@ == (if j < i {
                before[j].resized(cols)
            } else {
                before[j]
            }),
        decreases rows@.len() - i,
    {
        rows[i].resize(cols);
        i += 1;
    }
    assert(row_models(rows@) =~= widened(before, cols));
}

/// Cuts or pads the rows of a queue to a width.
fn widen_queue(rows: &mut VecDeque<Row>, cols: usize)
    ensures
        row_models(final(rows)@) == widened(row_models(old(rows)@), cols),
{
    let ghost before = row_models(rows@);
    let n: usize = rows.len();
    let mut i: usize = 0;
    while i < n
        invariant
            i <= n,
            n == before.len(),
            rows@.len() == n,
            row_models(rows@) =~= before.skip(i as int) + widened(before.take(i as int), cols),
        decreases n - i,
    {
        let ghost turned = row_models(rows@);
        assert(turned[0] == before[i as int]);
        if let Some(mut row) = rows.pop_front() {
            assert(row@ == before[i as int]);
            row.resize(cols);
            rows.push_back(row);
        }
        assert(row_models(rows@) =~= turned.drop_first().push(before[i as int].resized(cols)));
        i += 1;
        assert(widened(before.take(i as int), cols) =~= widened(before.take(i - 1), cols).push(
            before[i - 1].resized(cols),
        ));
        assert(turned.drop_first() =~= before.skip(i as int) + widened(before.take(i - 1), cols));
    }
    assert(before.take(n as int) =~= before);
    assert(row_models(rows@) =~= widened(before, cols));
}

/// Drops `to_remove` rows from `lines`, discarding rows below `cursor_row` first so the
/// cursor's line survives. Returns the rows removed from the top, in order.
pub fn shrink_rows(
    lines: &mut Vec<Row>,
    to_remove: usize,
    cursor_row: usize,
    new_rows: usize,
) -> (removed: Vec<Row>)
    requires
        to_remove <= old(lines)@.len(),
        new_rows + to_remove <= old(lines)@.len(),
    ensures
        ({
            let top = cut_at_top(old(lines)@.len() as int, to_remove as int, cursor_row as int);
            &&& row_models(removed@) == row_models(old(lines)@).take(top)
            &&& row_models(final(lines)@) == row_models(old(lines)@).skip(top).take(
                new_rows as int,
            )
        }),
{
    let ghost before = row_models(lines@);
    let below: usize = lines.len().saturating_sub(1).saturating_sub(cursor_row);
    let from_bottom: usize = if to_remove <= below {
        to_remove
    } else {
        below
    };
    let from_top: usize = to_remove - from_bottom;
    let mut rest: Vec<Row> = lines.split_off(from_top);
    rest.truncate(new_rows);
    assert(row_models(rest@) =~= before.skip(from_top as int).take(new_rows as int));
    assert(row_models(lines@) =~= before.take(from_top as int));
    std::mem::swap(lines, &mut rest);
    rest
}

} // verus!
