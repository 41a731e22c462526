//! Redraw marks, the viewport, the scroll region and the history.

use crate::grid::model::{
    all_wide, capped_sum, floored_difference, least, moved_up, rebased, shifted_down, shifted_up,
    touched_rows, GridModel,
};
use crate::grid::row::{Row, RowModel};
use crate::grid::{row_models, Grid};
use crate::kitty::ImagePlacement;
use std::collections::{BTreeSet, VecDeque};
use vstd::prelude::*;

verus! {

broadcast use {
    vstd::std_specs::hash::group_hash_axioms,
    vstd::std_specs::btree::group_btree_axioms,
};

/// Marks rows for redrawing.
pub fn touch_rows(rows: &mut Vec<Row>)
    ensures
        row_models(final(rows)@) == touched_rows(row_models(old(rows)@)),
{
    let ghost before = row_models(rows@);
    let mut i: usize = 0;
    while i < rows.len()
        invariant
            i <= rows@.len(),
            rows@.len() == before.len(),
            forall|j: int| 0 <= j < rows@.len() ==> (#[trigger] rows@[j])@ == (if j < i {
                before[j].touched()
            } else {
                before[j]
            }),
        decreases rows@.len() - i,
    {
        rows[i].dirty.set(true);
        i += 1;
    }
    assert(row_models(rows@) =~= touched_rows(before));
}

/// Marks rows of a queue for redrawing.
pub fn touch_queue(rows: &mut VecDeque<Row>)
    ensures
        row_models(final(rows)@) == touched_rows(row_models(old(rows)@)),
{
    let ghost before = row_models(rows@);
    let n: usize = rows.len();
    let mut i: usize = 0;
    while i < n
        invariant
            i <= n,
            n == before.len(),
            rows@.len() == n,
            row_models(rows@) =~= before.skip(i as int) + touched_rows(before.take(i as int)),
        decreases n - i,
    {
        let ghost turned = row_models(rows@);
        assert(turned[0] == before[i as int]);
        if let Some(mut row) = rows.pop_front() {
            assert(row@ == before[i as int]);
            row.dirty.set(true);
            rows.push_back(row);
        }
        assert(row_models(rows@) =~= turned.drop_first().push(before[i as int].touched()));
        i += 1;
        assert(touched_rows(before.take(i as int)) =~= touched_rows(before.take(i - 1)).push(
            before[i - 1].touched(),
        ));
        assert(turned.drop_first() =~= before.skip(i as int) + touched_rows(before.take(i - 1)));
    }
    assert(before.take(n as int) =~= before);
    assert(row_models(rows@) =~= touched_rows(before));
}

/// Moves every placement anchored to a surviving row up by `amount`, dropping the ones whose row
/// was removed.
pub fn shift_placements(placements: &mut Vec<ImagePlacement>, amount: usize)
    ensures
        final(placements)@ == rebased(old(placements)@, amount),
{
    let ghost before = placements@;
    let mut kept: Vec<ImagePlacement> = Vec::new();
    let mut i: usize = 0;
    proof {
        reveal(Seq::filter);
        assert(rebased(before.take(0), amount) =~= Seq::<ImagePlacement>::empty());
    }
    while i < placements.len()
        invariant
            i <= placements@.len(),
            placements@ == before,
            kept@ == rebased(before.take(i as int), amount),
        decreases placements@.len() - i,
    {
        let mut p: ImagePlacement = placements[i];
        proof {
            assert(before.take(i + 1) =~= before.take(i as int).push(before[i as int]));
            lemma_rebased_push(before.take(i as int), before[i as int], amount);
        }
        if p.line >= amount {
            p.line = p.line - amount;
            kept.push(p);
        }
        i += 1;
    }
    assert(before.take(before.len() as int) =~= before);
    *placements = kept;
}

/// Forgets the marks before a row.
pub fn keep_marks_from(marks: &mut BTreeSet<usize>, bound: usize)
    ensures
        final(marks)@ == old(marks)@.filter(|m: usize| m >= bound),
{
    let kept: BTreeSet<usize> = marks_between(marks, bound, usize::MAX);
    *marks = kept;
    assert(marks@ =~= old(marks)@.filter(|m: usize| m >= bound));
}

/// The marks from one row to another, both included.
fn marks_between(marks: &BTreeSet<usize>, low: usize, high: usize) -> (r: BTreeSet<usize>)
    ensures
        r@ == marks@.filter(|m: usize| low <= m <= high),
{
    let all: Vec<usize> = marks_of(marks);
    let mut kept: BTreeSet<usize> = BTreeSet::new();
    let mut i: usize = 0;
    while i < all.len()
        invariant
            i <= all@.len(),
            forall|m: usize| #[trigger]
                kept@.contains(m) <==> low <= m <= high && all@.take(i as int).contains(m),
        decreases all@.len() - i,
    {
        let ghost before = kept@;
        if low <= all[i] && all[i] <= high {
            kept.insert(all[i]);
        }
        assert(all@.take(i + 1) =~= all@.take(i as int).push(all@[i as int]));
        assert forall|m: usize| #[trigger] kept@.contains(m) <==> low <= m <= high && all@.take(
            i + 1,
        ).contains(m) by {
            vstd::seq_lib::lemma_seq_contains_after_push(all@.take(i as int), all@[i as int], m);
            assert(before.contains(m) <==> low <= m <= high && all@.take(i as int).contains(m));
        }
        i += 1;
    }
    assert(all@.take(all@.len() as int) =~= all@);
    assert forall|m: usize| #[trigger] marks@.contains(m) <==> all@.contains(m) by {
        assert(all@.to_set().contains(m) <==> all@.contains(m));
    }
    assert(kept@ =~= marks@.filter(|m: usize| low <= m <= high));
    kept
}

/// The marks in a vector.
pub fn marks_of(marks: &BTreeSet<usize>) -> (r: Vec<usize>)
    ensures
        r@.to_set() == marks@,
{
    let mut out: Vec<usize> = Vec::new();
    for m in iter: marks.iter()
        invariant
            iter.seq().unref().to_set() == marks@,
            out@ == iter.seq().unref().take(iter.index() as int),
            iter.index() == iter.seq().len() ==> out@ == iter.seq().unref(),
    {
        out.push(*m);
        assert(out@ =~= iter.seq().unref().take(iter.index() + 1));
    }
    out
}

/// Takes the first `n` rows of the region `top..=bottom` out, moves the others up and lets blank
/// rows in at the bottom.
pub fn shift_rows_up(
    lines: &mut Vec<Row>,
    top: usize,
    bottom: usize,
    n: usize,
    cols: usize,
) -> (gone: Vec<Row>)
    requires
        top + n <= bottom + 1 <= old(lines)@.len(),
    ensures
        row_models(gone@) == row_models(old(lines)@).subrange(top as int, top + n),
        row_models(final(lines)@) == Seq::new(
            old(lines)@.len(),
            |i: int|
                if i < top || i > bottom {
                    old(lines)@[i]@
                } else if i + n <= bottom {
                    old(lines)@[i + n]@
                } else {
                    RowModel::blank(cols as nat)
                },
        ),
{
    let ghost before = lines@;
    let mut gone: Vec<Row> = Vec::new();
    let mut k: usize = 0;
    while k < n
        invariant
            k <= n,
            top + n <= bottom + 1 <= before.len(),
            lines@.len() == before.len(),
            gone@ == before.subrange(top as int, top + k),
            forall|j: int|
                0 <= j < before.len() ==> (#[trigger] lines@[j])@ == (if j < top || j > bottom {
                    before[j]@
                } else if j + k <= bottom {
                    before[j + k]@
                } else {
                    RowModel::blank(cols as nat)
                }),
            k < n ==> lines@[top as int] == before[top + k],
            forall|j: int| top <= j && j + k <= bottom ==> (#[trigger] lines@[j]) == before[j + k],
        decreases n - k,
    {
        let ghost held = lines@;
        let row: Row = lines.remove(top);
        gone.push(row);
        let fresh: Row = Row::new(cols);
        let ghost blank = fresh;
        lines.insert(bottom, fresh);
        assert(gone@ =~= before.subrange(top as int, top + k + 1));
        assert(lines@ =~= held.remove(top as int).insert(bottom as int, blank));
        k += 1;
    }
    assert(row_models(lines@) =~= Seq::new(
        before.len(),
        |i: int|
            if i < top || i > bottom {
                before[i]@
            } else if i + n <= bottom {
                before[i + n]@
            } else {
                RowModel::blank(cols as nat)
            },
    ));
    assert(row_models(gone@) =~= row_models(before).subrange(top as int, top + n));
    gone
}

/// Lets `n` blank rows in at the top of the region `top..=bottom` and moves the others down; the
/// last `n` rows of the region are dropped.
pub fn shift_rows_down(lines: &mut Vec<Row>, top: usize, bottom: usize, n: usize, cols: usize)
    requires
        top + n <= bottom + 1 <= old(lines)@.len(),
    ensures
        row_models(final(lines)@) == Seq::new(
            old(lines)@.len(),
            |i: int|
                if i < top || i > bottom {
                    old(lines)@[i]@
                } else if i - n >= top {
                    old(lines)@[i - n]@
                } else {
                    RowModel::blank(cols as nat)
                },
        ),
{
    let ghost before = lines@;
    let mut k: usize = 0;
    while k < n
        invariant
            k <= n,
            top + n <= bottom + 1 <= before.len(),
            lines@.len() == before.len(),
            forall|j: int|
                0 <= j < before.len() ==> (#[trigger] lines@[j])@ == (if j < top || j > bottom {
                    before[j]@
                } else if j - k >= top {
                    before[j - k]@
                } else {
                    RowModel::blank(cols as nat)
                }),
        decreases n - k,
    {
        let ghost held = lines@;
        lines.remove(bottom);
        let fresh: Row = Row::new(cols);
        let ghost blank = fresh;
        lines.insert(top, fresh);
        assert(lines@ =~= held.remove(bottom as int).insert(top as int, blank));
        k += 1;
    }
    assert(row_models(lines@) =~= Seq::new(
        before.len(),
        |i: int|
            if i < top || i > bottom {
                before[i]@
            } else if i - n >= top {
                before[i - n]@
            } else {
                RowModel::blank(cols as nat)
            },
    ));
}

/// Whether `m` is the last mark from `low` up to, but not including, `high`.
pub open spec fn is_last_mark(marks: Set<usize>, low: int, high: int, m: usize) -> bool {
    &&& marks.contains(m)
    &&& low <= m < high
    &&& forall|x: usize| #[trigger] marks.contains(x) && low <= x < high ==> x <= m
}

/// Whether `m` is the first mark behind `low`.
pub open spec fn is_first_mark(marks: Set<usize>, low: int, m: usize) -> bool {
    &&& marks.contains(m)
    &&& low < m
    &&& forall|x: usize| #[trigger] marks.contains(x) && low < x ==> m <= x
}

/// Finds the last mark from `low` up to, but not including, `high`.
fn last_mark(marks: &BTreeSet<usize>, low: usize, high: usize) -> (r: Option<usize>)
    ensures
        match r {
            Some(m) => is_last_mark(marks@, low as int, high as int, m),
            None => forall|x: usize| #[trigger] marks@.contains(x) ==> !(low <= x < high),
        },
{
    let all: Vec<usize> = marks_of(marks);
    let mut best: Option<usize> = None;
    let mut i: usize = 0;
    assert forall|x: usize| #[trigger] marks@.contains(x) <==> all@.contains(x) by {
        assert(all@.to_set().contains(x) <==> all@.contains(x));
    }
    while i < all.len()
        invariant
            i <= all@.len(),
            forall|x: usize| #[trigger] marks@.contains(x) <==> all@.contains(x),
            match best {
                Some(m) => marks@.contains(m) && low <= m < high && forall|j: int|
                    0 <= j < i && low <= #[trigger] all@[j] < high ==> all@[j] <= m,
                None => forall|j: int| 0 <= j < i ==> !(low <= #[trigger] all@[j] < high),
            },
        decreases all@.len() - i,
    {
        let x: usize = all[i];
        assert(marks@.contains(x)) by {
            assert(all@[i as int] == x);
        }
        if low <= x && x < high {
            best = match best {
                Some(m) => if m < x {
                    Some(x)
                } else {
                    Some(m)
                },
                None => Some(x),
            };
        }
        i += 1;
    }
    assert forall|x: usize| #[trigger] marks@.contains(x) implies exists|j: int|
        0 <= j < all@.len() && all@[j] == x by {
        assert(all@.contains(x));
    }
    best
}

/// Finds the first mark behind `low`.
fn first_mark(marks: &BTreeSet<usize>, low: usize) -> (r: Option<usize>)
    ensures
        match r {
            Some(m) => is_first_mark(marks@, low as int, m),
            None => forall|x: usize| #[trigger] marks@.contains(x) ==> x <= low,
        },
{
    let all: Vec<usize> = marks_of(marks);
    let mut best: Option<usize> = None;
    let mut i: usize = 0;
    assert forall|x: usize| #[trigger] marks@.contains(x) <==> all@.contains(x) by {
        assert(all@.to_set().contains(x) <==> all@.contains(x));
    }
    while i < all.len()
        invariant
            i <= all@.len(),
            forall|x: usize| #[trigger] marks@.contains(x) <==> all@.contains(x),
            match best {
                Some(m) => marks@.contains(m) && low < m && forall|j: int|
                    0 <= j < i && low < #[trigger] all@[j] ==> m <= all@[j],
                None => forall|j: int| 0 <= j < i ==> #[trigger] all@[j] <= low,
            },
        decreases all@.len() - i,
    {
        let x: usize = all[i];
        assert(marks@.contains(x)) by {
            assert(all@[i as int] == x);
        }
        if low < x {
            best = match best {
                Some(m) => if x < m {
                    Some(x)
                } else {
                    Some(m)
                },
                None => Some(x),
            };
        }
        i += 1;
    }
    assert forall|x: usize| #[trigger] marks@.contains(x) implies exists|j: int|
        0 <= j < all@.len() && all@[j] == x by {
        assert(all@.contains(x));
    }
    best
}

impl Grid {
    /// Marks all rows in the visible screen, alternate screen, and scrollback as dirty.
    pub fn mark_all_dirty(&mut self)
        ensures
            final(self)@ == old(self)@.redrawn(),
    {
        touch_rows(&mut self.lines);
        if let Some(alt) = &mut self.alt_lines {
            touch_rows(alt);
        }
        touch_queue(&mut self.scrollback);
    }

    /// Forgets the oldest row of the history with everything anchored to it, and hands it out.
    pub fn evict_oldest_scrollback_row(&mut self) -> (r: Option<Row>)
        ensures
            match r {
                Some(row) => old(self)@.scrollback.len() > 0 && row@ == old(self)@.scrollback[0]
                    && final(self)@ == old(self)@.forgetting(1),
                None => old(self)@.scrollback.len() == 0 && final(self)@ == old(self)@,
            },
    {
        let ghost before = self@;
        let popped = self.scrollback.pop_front();
        match popped {
            Some(row) => {
                shift_placements(&mut self.placements, 1);
                self.total_evicted_rows = self.total_evicted_rows.saturating_add(1);
                keep_marks_from(&mut self.prompt_marks, self.total_evicted_rows);
                proof {
                    let evicted = capped_sum(before.total_evicted_rows as int, 1);
                    assert(row_models(self.scrollback@) =~= before.scrollback.skip(1));
                    assert(self.prompt_marks@ =~= before.prompt_marks.filter(
                        |m: usize| m >= evicted,
                    ));
                    assert(self@ =~= before.forgetting(1));
                }
                Some(row)
            },
            None => {
                assert(self@ =~= before);
                None
            },
        }
    }

    /// Adds a row to the history. A history without capacity takes none.
    pub fn push_scrollback(&mut self, row: Row)
        requires
            old(self)@.viewport_offset <= old(self)@.scrollback.len() < usize::MAX,
        ensures
            final(self)@ == (if old(self)@.max_scrollback == 0 {
                old(self)@
            } else {
                old(self)@.with_history(seq![row@])
            }),
    {
        if self.max_scrollback == 0 {
            return;
        }
        let ghost before = self@;
        let ghost one = seq![row@];
        let ghost grown = GridModel { scrollback: before.scrollback + one, ..before };
        let ghost lost = before.overflow(1);
        if self.scrollback.len() >= self.max_scrollback {
            self.evict_oldest_scrollback_row();
            assert(lost == 1);
        } else {
            assert(lost == 0);
        }
        let ghost kept = self@.scrollback;
        self.scrollback.push_back(row);
        proof {
            assert(row_models(self.scrollback@) =~= kept.push(row@));
            assert(self@.scrollback =~= grown.forgetting(lost as usize).scrollback);
        }
        if self.viewport_offset > 0 {
            let moved: usize = self.viewport_offset + 1;
            self.viewport_offset = if moved <= self.scrollback.len() {
                moved
            } else {
                self.scrollback.len()
            };
            self.mark_all_dirty();
        }
        assert(self@ =~= before.with_history(one));
    }

    /// Adds rows to the history, in order.
    pub fn remember(&mut self, rows: Vec<Row>)
        requires
            old(self)@.max_scrollback > 0,
            old(self)@.viewport_offset <= old(self)@.scrollback.len(),
            old(self)@.scrollback.len() + rows@.len() <= usize::MAX,
        ensures
            final(self)@ == old(self)@.with_history(row_models(rows@)),
    {
        let ghost before = self@;
        let ghost all = row_models(rows@);
        let mut left: Vec<Row> = rows;
        let mut done: usize = 0;
        let total: usize = left.len();
        assert(all.take(0) =~= Seq::<RowModel>::empty());
        while done < total
            invariant
                done <= total == all.len(),
                row_models(left@) == all.skip(done as int),
                before.max_scrollback > 0,
                before.viewport_offset <= before.scrollback.len(),
                before.scrollback.len() + all.len() <= usize::MAX,
                self@ == before.with_history(all.take(done as int)),
            decreases total - done,
        {
            let ghost rest = left@;
            assert(row_models(rest).len() == all.len() - done);
            let row: Row = left.remove(0);
            proof {
                assert(row_models(left@) =~= row_models(rest).skip(1));
                assert(row@ == row_models(rest)[0]);
                assert(row_models(left@) =~= all.skip(done + 1));
                lemma_history_step(before, all.take(done as int), all[done as int]);
                assert(all.take(done + 1) =~= all.take(done as int).push(all[done as int]));
            }
            self.push_scrollback(row);
            done += 1;
        }
        assert(all.take(total as int) =~= all);
    }

    /// Moves the viewport up by `delta` lines to view older history.
    pub fn scroll_viewport_up(&mut self, delta: usize)
        ensures
            final(self)@ == (if old(self)@.alt_lines is Some {
                old(self)@
            } else {
                old(self)@.viewing(
                    least(
                        capped_sum(old(self)@.viewport_offset as int, delta as int) as int,
                        old(self)@.scrollback.len() as int,
                    ) as usize,
                )
            }),
    {
        if self.is_alt_screen() {
            return;
        }
        let max_offset: usize = self.scrollback.len();
        let sum: usize = self.viewport_offset.saturating_add(delta);
        let new_offset: usize = if sum <= max_offset {
            sum
        } else {
            max_offset
        };
        if new_offset != self.viewport_offset {
            self.viewport_offset = new_offset;
            self.mark_all_dirty();
        }
    }

    /// Moves the viewport down by `delta` lines toward the active screen.
    pub fn scroll_viewport_down(&mut self, delta: usize)
        ensures
            final(self)@ == (if old(self)@.alt_lines is Some {
                old(self)@
            } else {
                old(self)@.viewing(
                    floored_difference(old(self)@.viewport_offset as int, delta as int),
                )
            }),
    {
        if self.is_alt_screen() || self.viewport_offset == 0 {
            return;
        }
        let new_offset: usize = self.viewport_offset.saturating_sub(delta);
        if new_offset != self.viewport_offset {
            self.viewport_offset = new_offset;
            self.mark_all_dirty();
        }
    }

    /// Jumps the viewport to the earliest line in the scrollback history.
    pub fn scroll_viewport_top(&mut self)
        ensures
            final(self)@ == (if old(self)@.alt_lines is Some {
                old(self)@
            } else {
                old(self)@.viewing(old(self)@.scrollback.len() as usize)
            }),
    {
        if self.is_alt_screen() {
            return;
        }
        let max_offset: usize = self.scrollback.len();
        if self.viewport_offset != max_offset {
            self.viewport_offset = max_offset;
            self.mark_all_dirty();
        }
    }

    /// Brings the viewport back to the active screen.
    pub fn scroll_viewport_bottom(&mut self)
        ensures
            final(self)@ == old(self)@.viewing(0),
    {
        if self.viewport_offset != 0 {
            self.viewport_offset = 0;
            self.mark_all_dirty();
        }
    }

    /// How many rows of history lie above the top of the screen in the viewport.
    pub fn viewport_offset(&self) -> (r: usize)
        ensures
            r == self@.viewport_offset,
    {
        self.viewport_offset
    }

    /// The row currently displayed at the given screen row.
    pub fn visible_line(&self, row: usize) -> (r: &Row)
        requires
            row < self@.lines.len(),
            self@.scrollback.len() + self@.lines.len() <= usize::MAX,
        ensures
            r@ == self@.shown(row as int),
    {
        let h: usize = self.scrollback.len();
        let offset: usize = if self.viewport_offset <= h {
            self.viewport_offset
        } else {
            h
        };
        if offset == 0 || self.is_alt_screen() {
            return &self.lines[row];
        }
        let abs_idx: usize = h + row - offset;
        if abs_idx < h {
            &self.scrollback[abs_idx]
        } else {
            &self.lines[abs_idx - h]
        }
    }

    /// Sets the top and bottom scrolling margins (0-indexed).
    pub fn set_scroll_region(&mut self, top: usize, bottom: usize)
        requires
            old(self)@.rows >= 1,
        ensures
            ({
                let last = old(self)@.rows - 1;
                let t = least(top as int, last);
                let b = least(bottom as int, last);
                final(self)@ == (if t < b {
                    GridModel {
                        scroll_region_top: t as usize,
                        scroll_region_bottom: b as usize,
                        ..old(self)@
                    }
                } else {
                    old(self)@
                })
            }),
    {
        let last: usize = self.rows - 1;
        let t: usize = if top <= last {
            top
        } else {
            last
        };
        let b: usize = if bottom <= last {
            bottom
        } else {
            last
        };
        if t < b {
            self.scroll_region_top = t;
            self.scroll_region_bottom = b;
        }
    }

    /// Makes the whole screen the scroll region.
    pub fn reset_scroll_region(&mut self)
        ensures
            final(self)@ == (GridModel {
                scroll_region_top: 0,
                scroll_region_bottom: floored_difference(old(self)@.rows as int, 1),
                ..old(self)@
            }),
    {
        self.scroll_region_top = 0;
        self.scroll_region_bottom = self.rows.saturating_sub(1);
    }

    /// Marks the screen rows `top..=bottom` for redrawing.
    fn touch_region(&mut self, top: usize, bottom: usize)
        requires
            top <= bottom < old(self)@.lines.len(),
        ensures
            final(self)@ == (GridModel {
                lines: Seq::new(
                    old(self)@.lines.len(),
                    |i: int|
                        if top <= i <= bottom {
                            old(self)@.lines[i].touched()
                        } else {
                            old(self)@.lines[i]
                        },
                ),
                ..old(self)@
            }),
    {
        let ghost before = self@;
        let mut i: usize = top;
        while i < self.lines.len() && i <= bottom
            invariant
                top <= i <= bottom + 1,
                bottom < before.lines.len(),
                self@.lines.len() == before.lines.len(),
                self@ == (GridModel { lines: self@.lines, ..before }),
                forall|j: int|
                    0 <= j < before.lines.len() ==> (#[trigger] self@.lines[j]) == (if top <= j
                        < i {
                        before.lines[j].touched()
                    } else {
                        before.lines[j]
                    }),
            decreases bottom + 1 - i,
        {
            let ghost held = self@.lines;
            self.lines[i].dirty.set(true);
            assert(self@.lines =~= held.update(i as int, held[i as int].touched()));
            i += 1;
        }
        assert(self@ =~= (GridModel {
            lines: Seq::new(
                before.lines.len(),
                |i: int|
                    if top <= i <= bottom {
                        before.lines[i].touched()
                    } else {
                        before.lines[i]
                    },
            ),
            ..before
        }));
    }

    /// Moves the rows of the scroll region upward. Rows that leave the whole primary screen enter
    /// the history.
    pub fn scroll_up(&mut self, count: usize)
        requires
            old(self)@.wf(),
            old(self)@.room_for(least(count as int, old(self)@.region_len())),
        ensures
            final(self)@ == old(self)@.scrolled_up(count),
            final(self)@.wf(),
    {
        let region_len: usize = self.scroll_region_bottom - self.scroll_region_top + 1;
        let n: usize = if count <= region_len {
            count
        } else {
            region_len
        };
        if n == 0 {
            return;
        }
        let ghost before = self@;
        let top: usize = self.scroll_region_top;
        let bottom: usize = self.scroll_region_bottom;
        let feeds: bool = top == 0 && bottom == self.rows - 1 && self.alt_lines.is_none()
            && self.max_scrollback > 0;
        assert(feeds == before.feeds_history());
        let gone: Vec<Row> = shift_rows_up(&mut self.lines, top, bottom, n, self.cols);
        let ghost held = self@.lines;
        if feeds {
            self.remember(gone);
            assert(row_models(gone@) =~= before.lines.take(n as int));
        }
        let ghost saved = if feeds {
            before.with_history(before.lines.take(n as int))
        } else {
            before
        };
        assert(self@ =~= (GridModel { lines: self@.lines, ..saved }));
        assert(self@.lines == held || self@.lines == touched_rows(held));
        self.touch_region(top, bottom);
        assert(self@.lines =~= shifted_up(
            before.lines,
            top as int,
            bottom as int,
            n as int,
            before.cols,
        ));
        assert(self@ =~= before.scrolled_up(count));
        proof {
            lemma_scrolled_up_wf(before, count);
        }
    }

    /// Moves the rows of the scroll region downward.
    pub fn scroll_down(&mut self, count: usize)
        requires
            old(self)@.wf(),
        ensures
            final(self)@ == old(self)@.scrolled_down(count),
            final(self)@.wf(),
    {
        let top: usize = self.scroll_region_top;
        let bottom: usize = self.scroll_region_bottom;
        let region_len: usize = bottom - top + 1;
        let n: usize = if count <= region_len {
            count
        } else {
            region_len
        };
        if n == 0 {
            return;
        }
        let ghost before = self@;
        shift_rows_down(&mut self.lines, top, bottom, n, self.cols);
        self.touch_region(top, bottom);
        assert(self@.lines =~= shifted_down(
            before.lines,
            top as int,
            bottom as int,
            n as int,
            before.cols,
        ));
        assert(self@ =~= before.scrolled_down(count));
    }

    /// Performs a newline (LF): moves the cursor down, scrolling if necessary.
    pub fn newline(&mut self)
        requires
            old(self)@.wf(),
            old(self)@.room_for(1),
        ensures
            final(self)@ == old(self)@.on_next_row(),
            final(self)@.wf(),
            old(self)@.cursor_on_screen() ==> final(self)@.cursor_on_screen(),
    {
        if self.cursor.row == self.scroll_region_bottom {
            self.scroll_up(1);
        } else if self.cursor.row < self.rows - 1 {
            self.cursor.row = self.cursor.row + 1;
        }
    }

    /// Tells whether a prompt starts on a row, counted from the oldest row of the history.
    pub fn has_prompt_mark_at(&self, abs_row: usize) -> (r: bool)
        ensures
            r == self@.has_mark(abs_row as int),
    {
        match self.total_evicted_rows.checked_add(abs_row) {
            Some(m) => self.prompt_marks.contains(&m),
            None => false,
        }
    }

    /// Records that a prompt starts on a row, counted from the oldest row of the history.
    pub fn add_prompt_mark(&mut self, line: usize)
        requires
            old(self)@.total_evicted_rows + line <= usize::MAX,
        ensures
            final(self)@ == (GridModel {
                prompt_marks: old(self)@.prompt_marks.insert(
                    (old(self)@.total_evicted_rows + line) as usize,
                ),
                ..old(self)@
            }),
    {
        self.prompt_marks.insert(self.total_evicted_rows + line);
    }

    /// Moves the viewport up to the last prompt above it, if there is one.
    pub fn scroll_to_prompt_prev(&mut self)
        requires
            old(self)@.viewport_offset <= old(self)@.scrollback.len(),
            old(self)@.total_evicted_rows + old(self)@.scrollback.len() <= usize::MAX,
        ensures
            final(self)@ == (if old(self)@.alt_lines is Some {
                old(self)@
            } else {
                match old(self)@.prompt_above() {
                    Some(m) => old(self)@.viewing(old(self)@.offset_of_mark(m)),
                    None => old(self)@,
                }
            }),
    {
        if self.is_alt_screen() {
            return;
        }
        let h: usize = self.scrollback.len();
        let base: usize = self.total_evicted_rows;
        let top: usize = base + (h - self.viewport_offset);
        assert(top == self@.view_top_mark());
        let found = last_mark(&self.prompt_marks, base, top);
        match found {
            Some(m) => {
                proof {
                    assert(is_last_mark(self@.prompt_marks, base as int, top as int, m));
                    let other = self@.prompt_above()->0;
                    assert(is_last_mark(self@.prompt_marks, base as int, top as int, other));
                    assert(other == m);
                }
                let offset: usize = h - (m - base);
                if offset != self.viewport_offset {
                    self.viewport_offset = offset;
                    self.mark_all_dirty();
                }
            },
            None => {},
        }
    }

    /// Moves the viewport down to the first prompt below its top row, or to the active screen.
    pub fn scroll_to_prompt_next(&mut self)
        requires
            old(self)@.viewport_offset <= old(self)@.scrollback.len(),
            old(self)@.total_evicted_rows + old(self)@.scrollback.len() <= usize::MAX,
        ensures
            final(self)@ == (if old(self)@.alt_lines is Some {
                old(self)@
            } else {
                match old(self)@.prompt_below() {
                    Some(m) => old(self)@.viewing(old(self)@.offset_of_mark(m)),
                    None => old(self)@.viewing(0),
                }
            }),
    {
        if self.is_alt_screen() {
            return;
        }
        let h: usize = self.scrollback.len();
        let base: usize = self.total_evicted_rows;
        let top: usize = base + (h - self.viewport_offset);
        assert(top == self@.view_top_mark());
        let found = first_mark(&self.prompt_marks, top);
        let offset: usize = match found {
            Some(m) => {
                proof {
                    assert(is_first_mark(self@.prompt_marks, top as int, m));
                    let other = self@.prompt_below()->0;
                    assert(is_first_mark(self@.prompt_marks, top as int, other));
                    assert(other == m);
                }
                h.saturating_sub(m - base)
            },
            None => 0,
        };
        if offset != self.viewport_offset {
            self.viewport_offset = offset;
            self.mark_all_dirty();
        }
    }
}

/// Rows of the right width entering the history keep the shape of the grid.
pub proof fn lemma_with_history_wf(g: GridModel, rows: Seq<RowModel>)
    requires
        g.wf(),
        all_wide(rows, g.cols),
        g.max_scrollback > 0,
        g.room_for(rows.len() as int),
    ensures
        g.with_history(rows).wf(),
{
    let h = g.with_history(rows);
    if rows.len() > 0 {
        let n = g.overflow(rows.len() as int);
        assert(0 <= n <= g.scrollback.len() + rows.len());
        assert(h.scrollback.len() == g.scrollback.len() + rows.len() - n);
        assert forall|i: int| 0 <= i < h.scrollback.len() implies (#[trigger] h.scrollback[i]).cells.len()
            == g.cols by {
            assert(h.scrollback[i].cells == (g.scrollback + rows)[i + n].cells);
        }
    }
}

/// Scrolling up keeps the shape of the grid.
pub proof fn lemma_scrolled_up_wf(g: GridModel, count: usize)
    requires
        g.wf(),
        g.room_for(least(count as int, g.region_len())),
    ensures
        g.scrolled_up(count).wf(),
        g.scrolled_up(count).cursor == g.cursor,
{
    let n = least(count as int, g.region_len());
    if n > 0 && g.feeds_history() {
        lemma_with_history_wf(g, g.lines.take(n));
    }
}

/// A placement behind others is rebased on its own.
pub proof fn lemma_rebased_push(ps: Seq<ImagePlacement>, p: ImagePlacement, n: usize)
    ensures
        rebased(ps.push(p), n) == (if p.line >= n {
            rebased(ps, n).push(moved_up(p, n))
        } else {
            rebased(ps, n)
        }),
{
    reveal(Seq::filter);
    assert(ps.push(p).drop_last() =~= ps);
    if p.line >= n {
        assert(rebased(ps.push(p), n) =~= rebased(ps, n).push(moved_up(p, n)));
    } else {
        assert(rebased(ps.push(p), n) =~= rebased(ps, n));
    }
}

/// Rebasing twice is rebasing by the sum.
pub proof fn lemma_rebased_twice(ps: Seq<ImagePlacement>, a: usize, b: usize)
    requires
        a + b <= usize::MAX,
    ensures
        rebased(rebased(ps, a), b) == rebased(ps, (a + b) as usize),
    decreases ps.len(),
{
    reveal(Seq::filter);
    if ps.len() == 0 {
        assert(rebased(rebased(ps, a), b) =~= rebased(ps, (a + b) as usize));
    } else {
        let front = ps.drop_last();
        let p = ps.last();
        assert(front.push(p) =~= ps);
        lemma_rebased_twice(front, a, b);
        lemma_rebased_push(front, p, a);
        lemma_rebased_push(front, p, (a + b) as usize);
        if p.line >= a {
            lemma_rebased_push(rebased(front, a), moved_up(p, a), b);
        }
    }
}

/// Rebasing by nothing changes nothing.
pub proof fn lemma_rebased_zero(ps: Seq<ImagePlacement>)
    ensures
        rebased(ps, 0) == ps,
    decreases ps.len(),
{
    reveal(Seq::filter);
    if ps.len() == 0 {
        assert(rebased(ps, 0) =~= ps);
    } else {
        lemma_rebased_zero(ps.drop_last());
        assert(ps.drop_last().push(ps.last()) =~= ps);
        lemma_rebased_push(ps.drop_last(), ps.last(), 0);
    }
}

/// Forgetting rows in two steps is forgetting their sum.
proof fn lemma_forgetting_twice(g: GridModel, a: usize, b: usize)
    requires
        a + b <= g.scrollback.len(),
        g.scrollback.len() <= usize::MAX,
    ensures
        g.forgetting(a).forgetting(b) == g.forgetting((a + b) as usize),
{
    if a > 0 && b > 0 {
        lemma_rebased_twice(g.placements, a, b);
    }
    let x = g.forgetting(a).forgetting(b);
    let y = g.forgetting((a + b) as usize);
    assert(x.scrollback =~= y.scrollback);
    assert(x.total_evicted_rows == y.total_evicted_rows);
    assert(x.prompt_marks =~= y.prompt_marks);
    assert(x =~= y);
}

/// Marking rows twice is marking them once.
pub proof fn lemma_touched_twice(rows: Seq<RowModel>)
    ensures
        touched_rows(touched_rows(rows)) == touched_rows(rows),
{
    assert(touched_rows(touched_rows(rows)) =~= touched_rows(rows));
}

/// Adding a row behind others to the history is adding it last.
proof fn lemma_history_step(g: GridModel, rows: Seq<RowModel>, r: RowModel)
    requires
        g.max_scrollback > 0,
        g.viewport_offset <= g.scrollback.len(),
        g.scrollback.len() + rows.len() + 1 <= usize::MAX,
    ensures
        g.with_history(rows).with_history(seq![r]) == g.with_history(rows.push(r)),
        g.with_history(rows).scrollback.len() == g.scrollback.len() + rows.len() - g.overflow(
            rows.len() as int,
        ),
        g.with_history(rows).viewport_offset <= g.with_history(rows).scrollback.len(),
{
    let one = seq![r];
    let n = rows.len() as int;
    if n == 0 {
        assert(rows.push(r) =~= one);
    } else {
        let a = g.overflow(n);
        let mid = g.with_history(rows);
        let b = mid.overflow(1);
        assert(mid.scrollback.len() == g.scrollback.len() + n - a);
        assert(g.overflow(n + 1) == a + b);
        let grown = GridModel { scrollback: g.scrollback + rows, ..g };
        let grown2 = GridModel { scrollback: g.scrollback + rows.push(r), ..g };
        lemma_forgetting_twice(grown2, a as usize, b as usize);
        let x = mid.with_history(one);
        let y = g.with_history(rows.push(r));
        lemma_touched_twice(g.lines);
        if g.alt_lines is Some {
            lemma_touched_twice(g.alt_lines->0);
        }
        assert((mid.scrollback + one).len() == mid.scrollback.len() + 1);
        assert((grown.scrollback.skip(a) + one) =~= grown2.scrollback.skip(a));
        assert(grown2.scrollback.skip(a).skip(b) =~= grown2.scrollback.skip(a + b));
        if g.viewport_offset > 0 {
            assert(x.scrollback =~= y.scrollback);
            assert(x.viewport_offset == y.viewport_offset);
        } else {
            assert(x.scrollback =~= y.scrollback);
        }
        assert(x.placements == y.placements);
        assert(x.prompt_marks == y.prompt_marks);
        assert(x =~= y);
    }
}

} // verus!
