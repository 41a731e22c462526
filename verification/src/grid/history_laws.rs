//! What a change of size forgets, and what it leaves out.

use crate::grid::edit_laws::is_blank;
use crate::grid::model::{capped_sum, rebased, GridModel};
use crate::grid::reflow::{anchored, sheet_of, LineModel};
use crate::grid::reflow_laws::law_text_ends_behind_the_last_cell;
use crate::grid::resize::placements_above;
use crate::grid::scroll::{lemma_rebased_push, lemma_rebased_zero};
use crate::grid::size_laws::law_placements_below_the_screen_are_dropped;
use crate::kitty::ImagePlacement;
use vstd::prelude::*;

verus! {

proof fn lemma_lines_without_limit(g: GridModel, max: usize, n: int)
    ensures
        (GridModel { max_scrollback: max, ..g }).lines_of_rows(n) == g.lines_of_rows(n),
    decreases n,
{
    let big = GridModel { max_scrollback: max, ..g };
    if n > 0 {
        lemma_lines_without_limit(g, max, n - 1);
        let (done, open) = g.lines_of_rows(n - 1);
        assert(big.line_noted(open, n - 1) == g.line_noted(open, n - 1));
        assert(big.used_len(n - 1) == g.used_len(n - 1));
        assert(big.line_extended(open, n - 1) == g.line_extended(open, n - 1));
        assert(big.is_trailing_blank(open, n - 1) == g.is_trailing_blank(open, n - 1));
    }
}

proof fn lemma_cut_and_moved(ps: Seq<ImagePlacement>, n: usize, bound: int)
    ensures
        placements_above(rebased(ps, n), bound - n) == rebased(placements_above(ps, bound), n),
    decreases ps.len(),
{
    reveal(Seq::filter);
    if ps.len() == 0 {
        assert(rebased(ps, n) =~= Seq::empty());
        assert(placements_above(ps, bound) =~= Seq::empty());
        assert(rebased(placements_above(ps, bound), n) =~= Seq::empty());
        assert(placements_above(rebased(ps, n), bound - n) =~= Seq::empty());
    } else {
        let front = ps.drop_last();
        let p = ps.last();
        assert(front.push(p) =~= ps);
        lemma_cut_and_moved(front, n, bound);
        lemma_rebased_push(front, p, n);
        law_placements_below_the_screen_are_dropped(front, p, bound);
        let moved = crate::grid::model::moved_up(p, n);
        law_placements_below_the_screen_are_dropped(rebased(front, n), moved, bound - n);
        lemma_rebased_push(placements_above(front, bound), p, n);
    }
}

/// A change of width with a history that is too short for the text forgets the oldest rows and
/// nothing else: the screen and both cursors are those that a longer history would leave, the history
/// is the end of the longer one, the viewport is where it would be but not above the oldest row, and
/// prompts and images of the other rows stay with them.
pub proof fn law_short_histories_forget_the_oldest_rows(
    g: GridModel,
    cols: usize,
    rows: usize,
    max: usize,
)
    requires
        g.wf(),
        g.alt_lines is None,
        cols >= 1,
        cols != g.cols,
        rows >= 1,
        g.max_scrollback <= max,
        g.total_evicted_rows < usize::MAX,
        (GridModel { max_scrollback: max, ..g }).resized(cols, rows).total_evicted_rows
            == g.total_evicted_rows,
        g.resized(cols, rows).total_evicted_rows < usize::MAX,
        (GridModel { max_scrollback: max, ..g }).resized(cols, rows).scrollback.len() <= usize::MAX,
    ensures
        ({
            let whole = (GridModel { max_scrollback: max, ..g }).resized(cols, rows);
            let after = g.resized(cols, rows);
            let lost = after.total_evicted_rows - g.total_evicted_rows;
            &&& 0 <= lost <= whole.scrollback.len()
            &&& lost > 0 ==> after.scrollback.len() == g.max_scrollback
            &&& lost == 0 ==> after.scrollback.len() <= g.max_scrollback
            &&& after.scrollback == whole.scrollback.skip(lost)
            &&& after.lines == whole.lines
            &&& after.cursor == whole.cursor && after.saved_cursor == whole.saved_cursor
            &&& whole.viewport_offset <= after.scrollback.len() ==> after.viewport_offset
                == whole.viewport_offset
            &&& whole.viewport_offset > after.scrollback.len() ==> after.viewport_offset
                == after.scrollback.len()
            &&& after.placements == rebased(whole.placements, lost as usize)
            &&& forall|m: usize|
                #![trigger after.prompt_marks.contains(m)]
                after.prompt_marks.contains(m) <==> whole.prompt_marks.contains(m) && m
                    >= after.total_evicted_rows
        }),
{
    let big = GridModel { max_scrollback: max, ..g };
    lemma_lines_without_limit(g, max, g.row_count());
    assert(big.logical_lines() == g.logical_lines());
    let sheet = sheet_of(g.logical_lines(), cols as int);
    assert(big.reflow_rows(cols, rows) == g.reflow_rows(cols, rows));
    assert(big.reflow_cut(cols, rows) == g.reflow_cut(cols, rows));
    let all = g.reflow_rows(cols, rows);
    let cut = g.reflow_cut(cols, rows);
    let from_top = all.len() - rows - cut;
    let whole = big.resized(cols, rows);
    let after = g.resized(cols, rows);
    assert(from_top <= max);
    let lost = if from_top > g.max_scrollback {
        from_top - g.max_scrollback
    } else {
        0
    };
    assert(after.total_evicted_rows == capped_sum(g.total_evicted_rows as int, lost));
    assert(after.total_evicted_rows == g.total_evicted_rows + lost);
    assert(whole.scrollback.len() == from_top);
    assert(after.scrollback =~= whole.scrollback.skip(lost));
    assert(after.lines =~= whole.lines);
    lemma_rebased_zero(sheet.placements);
    lemma_cut_and_moved(sheet.placements, lost as usize, from_top + rows);
    assert(after.scrollback.len() == from_top - lost);
}

proof fn lemma_none_anchored(ps: Seq<ImagePlacement>, row: int, at: int)
    requires
        anchored(ps, row, at).len() == 0,
    ensures
        forall|q: int| 0 <= q < ps.len() ==> (#[trigger] ps[q]).line != row,
    decreases ps.len(),
{
    if ps.len() > 0 {
        lemma_none_anchored(ps.drop_last(), row, at);
        assert forall|q: int| 0 <= q < ps.len() implies (#[trigger] ps[q]).line != row by {
            if q < ps.len() - 1 {
                assert(ps.drop_last()[q] == ps[q]);
            }
        }
    }
}

/// A change of width leaves out only empty rows below both cursors: rows of blanks that are not
/// continued, on which no prompt starts and to which no image is anchored.
pub proof fn law_only_empty_rows_are_left_out(g: GridModel, line: LineModel, i: int)
    requires
        g.is_trailing_blank(line, i),
        0 <= i < g.scrollback.len() + g.lines.len(),
    ensures
        i > g.scrollback.len() + g.cursor.row,
        i > g.scrollback.len() + g.saved_cursor.row,
        ({
            let row = (g.scrollback + g.lines)[i];
            &&& !row.wrapped
            &&& forall|c: int| 0 <= c < row.cells.len() ==> is_blank(#[trigger] row.cells[c])
        }),
        !g.has_mark(i),
        forall|q: int| 0 <= q < g.placements.len() ==> (#[trigger] g.placements[q]).line != i,
{
    let row = (g.scrollback + g.lines)[i];
    assert(row == g.row_at(i));
    law_text_ends_behind_the_last_cell(row.cells);
    let at = line.items.len() as int;
    assert(g.line_noted(line, i).placements.len() == line.placements.len() + anchored(
        g.placements,
        i,
        at,
    ).len());
    lemma_none_anchored(g.placements, i, at);
}

} // verus!
