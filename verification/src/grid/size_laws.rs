//! What a change of height does to the rows, and what becomes of images.

use crate::color::Color;
use crate::grid::diacritics::KITTY_PLACEHOLDER;
use crate::grid::edit_laws::{is_blank, is_fresh, shows_same};
use crate::grid::images::{
    cell_refers, named_image, others_than, placed_ids, row_refs, rows_refs,
};
use crate::grid::model::{rebased, GridModel};
use crate::grid::resize::{cut_at_top, lemma_same_width, placements_above};
use crate::grid::row::Cell;
use crate::kitty::{DeleteTarget, ImageData, ImagePlacement};
use vstd::prelude::*;

verus! {

/// A taller primary screen shows more of the history: the rows of the history and the screen are the
/// same, in order, and blank rows come below them only where the history is used up. Both cursors
/// stay on their rows, and the viewport where it is, but not above the oldest row.
pub proof fn law_taller_screens_take_rows_back(g: GridModel, rows: usize)
    requires
        g.wf(),
        g.alt_lines is None,
        rows > g.rows,
        g.cursor.row < g.rows,
        g.room_for(rows as int),
    ensures
        ({
            let after = g.resized(g.cols, rows);
            let old_rows = g.scrollback + g.lines;
            let new_rows = after.scrollback + after.lines;
            &&& after.rows == rows && after.cols == g.cols
            &&& after.lines.len() == rows
            &&& new_rows.len() >= old_rows.len()
            &&& forall|i: int|
                0 <= i < old_rows.len() ==> shows_same(#[trigger] new_rows[i], old_rows[i])
            &&& forall|i: int|
                old_rows.len() <= i < new_rows.len() ==> is_fresh(
                    #[trigger] new_rows[i],
                    g.cols as int,
                )
            &&& new_rows.len() > old_rows.len() ==> after.scrollback.len() == 0
            &&& after.scrollback.len() + after.cursor.row == g.scrollback.len() + g.cursor.row
            &&& g.cursor.col < g.cols ==> after.cursor.col == g.cursor.col
            &&& g.saved_cursor.row < g.rows ==> after.scrollback.len() + after.saved_cursor.row
                == g.scrollback.len() + g.saved_cursor.row
            &&& g.saved_cursor.col < g.cols ==> after.saved_cursor.col == g.saved_cursor.col
            &&& g.viewport_offset <= after.scrollback.len() ==> after.viewport_offset
                == g.viewport_offset
            &&& g.viewport_offset > after.scrollback.len() ==> after.viewport_offset
                == after.scrollback.len()
            &&& after.placements == g.placements
            &&& after.prompt_marks == g.prompt_marks
            &&& after.total_evicted_rows == g.total_evicted_rows
            &&& after.max_scrollback == g.max_scrollback
            &&& after.scroll_region_top == 0 && after.scroll_region_bottom == rows - 1
        }),
{
    lemma_same_width(g, g.cols);
    let after = g.resized(g.cols, rows);
    let n = g.pulled(rows);
    let h = g.scrollback.len() - n;
    let old_rows = g.scrollback + g.lines;
    let new_rows = after.scrollback + after.lines;
    assert forall|i: int| 0 <= i < old_rows.len() implies shows_same(
        #[trigger] new_rows[i],
        old_rows[i],
    ) by {
        if i < h {
            assert(new_rows[i] == after.scrollback[i]);
        } else {
            assert(new_rows[i] == after.lines[i - h]);
        }
    }
    assert forall|i: int| old_rows.len() <= i < new_rows.len() implies is_fresh(
        #[trigger] new_rows[i],
        g.cols as int,
    ) by {
        assert(new_rows[i] == after.lines[i - h]);
    }
}

/// A lower primary screen cuts rows below the cursor first and hands the others to the history: the
/// rows of the history and the screen are the same, in order, but for those cut below, and the cursor
/// stays on its row. This holds while the history has room.
pub proof fn law_lower_screens_keep_the_cursors_row(g: GridModel, rows: usize)
    requires
        g.wf(),
        g.alt_lines is None,
        1 <= rows < g.rows,
        g.cursor.row < g.rows,
        g.max_scrollback > 0,
        g.viewport_offset == 0,
        g.scrollback.len() + (g.rows - rows) <= g.max_scrollback,
    ensures
        ({
            let after = g.resized(g.cols, rows);
            let old_rows = g.scrollback + g.lines;
            let new_rows = after.scrollback + after.lines;
            let below = g.rows - 1 - g.cursor.row;
            let cut = old_rows.len() - new_rows.len();
            &&& after.rows == rows && after.cols == g.cols
            &&& after.lines.len() == rows
            &&& cut == (if below < g.rows - rows {
                below
            } else {
                g.rows - rows
            })
            &&& forall|i: int|
                0 <= i < new_rows.len() ==> shows_same(#[trigger] new_rows[i], old_rows[i])
            &&& after.scrollback.len() + after.cursor.row == g.scrollback.len() + g.cursor.row
            &&& g.cursor.col < g.cols ==> after.cursor.col == g.cursor.col
            &&& ({
                let gone = after.scrollback.len() - g.scrollback.len();
                &&& gone <= g.saved_cursor.row < gone + rows ==> after.saved_cursor.row
                    == g.saved_cursor.row - gone
                &&& g.saved_cursor.row < gone ==> after.saved_cursor.row == 0
                &&& g.saved_cursor.col < g.cols ==> after.saved_cursor.col == g.saved_cursor.col
            })
            &&& after.placements == placements_above(g.placements, new_rows.len() as int)
            &&& forall|m: usize|
                #![trigger after.prompt_marks.contains(m)]
                after.prompt_marks.contains(m) <==> g.prompt_marks.contains(m) && m
                    < g.total_evicted_rows + new_rows.len()
            &&& after.total_evicted_rows == g.total_evicted_rows
            &&& after.viewport_offset == 0
        }),
{
    lemma_same_width(g, g.cols);
    let after = g.resized(g.cols, rows);
    let old_rows = g.scrollback + g.lines;
    let new_rows = after.scrollback + after.lines;
    let top = cut_at_top(g.lines.len() as int, g.rows - rows, g.cursor.row as int);
    let h = after.scrollback.len() as int;
    assert(h == g.scrollback.len() + top);
    assert forall|i: int| 0 <= i < new_rows.len() implies shows_same(
        #[trigger] new_rows[i],
        old_rows[i],
    ) by {
        if i < h {
            assert(new_rows[i] == after.scrollback[i]);
        } else {
            assert(new_rows[i] == after.lines[i - h]);
        }
    }
}

/// What is anchored below a row is dropped, the rest stays in its order: placement by placement.
pub proof fn law_placements_below_the_screen_are_dropped(
    ps: Seq<ImagePlacement>,
    p: ImagePlacement,
    bound: int,
)
    ensures
        placements_above(Seq::empty(), bound).len() == 0,
        p.line < bound ==> placements_above(ps.push(p), bound) == placements_above(ps, bound).push(p),
        p.line >= bound ==> placements_above(ps.push(p), bound) == placements_above(ps, bound),
{
    reveal(Seq::filter);
    let all = ps.push(p);
    assert(all.drop_last() =~= ps);
    assert(all.last() == p);
}

/// Without a history a lower screen loses the rows that it cuts above the cursor, and what is
/// anchored to the others moves up with them.
pub proof fn law_lower_screens_without_a_history(g: GridModel, rows: usize)
    requires
        g.wf(),
        g.alt_lines is None,
        1 <= rows < g.rows,
        g.cursor.row < g.rows,
        g.max_scrollback == 0,
        g.scrollback.len() == 0,
    ensures
        ({
            let after = g.resized(g.cols, rows);
            let below = g.rows - 1 - g.cursor.row;
            let top = if below < g.rows - rows {
                g.rows - rows - below
            } else {
                0
            };
            &&& after.lines.len() == rows && after.scrollback.len() == 0
            &&& forall|i: int|
                0 <= i < rows ==> shows_same(#[trigger] after.lines[i], g.lines[top + i])
            &&& after.cursor.row == g.cursor.row - top
            &&& top > 0 ==> after.placements == placements_above(
                rebased(g.placements, top as usize),
                rows as int,
            )
            &&& top == 0 ==> after.placements == placements_above(g.placements, rows as int)
        }),
{
    lemma_same_width(g, g.cols);
    let after = g.resized(g.cols, rows);
    let top = cut_at_top(g.lines.len() as int, g.rows - rows, g.cursor.row as int);
    assert(after.scrollback =~= Seq::empty());
    assert forall|i: int| 0 <= i < rows implies shows_same(
        #[trigger] after.lines[i],
        g.lines[top + i],
    ) by {}
}

/// The alternate screen is cut or padded at its right and its bottom, cell by cell, and its cursor
/// stays where it is or moves to the last row or column. The hidden primary screen keeps its cursor's
/// row on it.
pub proof fn law_the_alternate_screen_is_cut_and_padded(g: GridModel, cols: usize, rows: usize)
    requires
        g.wf(),
        g.alt_lines is Some,
        cols >= 1,
        rows >= 1,
        g.cursor.row < g.rows,
        g.alt_cursor matches Some(c) ==> c.row < g.rows,
    ensures
        ({
            let after = g.resized(cols, rows);
            &&& after.cols == cols && after.rows == rows && after.lines.len() == rows
            &&& forall|r: int, c: int|
                0 <= r < rows && 0 <= c < cols ==> if r < g.rows && c < g.cols {
                    #[trigger] after.lines[r].cells[c] == g.lines[r].cells[c]
                } else {
                    is_blank(after.lines[r].cells[c])
                }
            &&& after.cursor.row == (if g.cursor.row < rows {
                g.cursor.row as int
            } else {
                rows - 1
            })
            &&& after.cursor.col == (if g.cursor.col < cols {
                g.cursor.col as int
            } else {
                cols - 1
            })
            &&& after.alt_lines is Some && after.alt_lines->0.len() == rows
            &&& g.alt_cursor matches Some(hidden) ==> {
                let now = after.alt_cursor->0;
                &&& after.alt_cursor is Some
                &&& now.row < rows
                &&& forall|c: int|
                    0 <= c < cols && c < g.cols ==> #[trigger] after.alt_lines->0[now.row as int].cells[c]
                        == g.alt_lines->0[hidden.row as int].cells[c]
            }
            &&& after.scrollback.len() == g.scrollback.len()
        }),
{
    let after = g.resized(cols, rows);
    if rows < g.rows {
        let hidden = match g.alt_cursor {
            Some(c) => c.row as int,
            None => 0,
        };
        let top = cut_at_top(g.alt_lines->0.len() as int, g.rows - rows, hidden);
        assert(0 <= top <= hidden);
        assert(hidden - top < rows);
    }
}

/// Under an alternate screen that gets lower, the hidden primary screen loses rows below its cursor
/// first and then rows at its top: its saved cursor and its images move up with their rows, and what
/// lies beyond the screen is dropped. The saved cursor of the alternate screen stays or moves to the
/// last row or column, and so does that of the primary one beside it.
pub proof fn law_the_hidden_screen_moves_up(g: GridModel, cols: usize, rows: usize)
    requires
        g.wf(),
        g.alt_lines is Some,
        cols >= 1,
        1 <= rows < g.rows,
        g.alt_cursor is Some,
        g.alt_cursor->0.row < g.rows,
    ensures
        ({
            let after = g.resized(cols, rows);
            let below = g.rows - 1 - g.alt_cursor->0.row;
            let gone = if below < g.rows - rows {
                g.rows - rows - below
            } else {
                0
            };
            let bottom = g.scrollback.len() + rows;
            &&& after.alt_cursor is Some && after.alt_cursor->0.row == g.alt_cursor->0.row - gone
            &&& g.alt_saved_cursor matches Some(c) ==> {
                let now = after.alt_saved_cursor->0;
                &&& after.alt_saved_cursor is Some
                &&& gone <= c.row < gone + rows ==> now.row == c.row - gone
                &&& c.row < gone ==> now.row == 0
                &&& c.row >= gone + rows ==> now.row == rows - 1
                &&& c.col < cols ==> now.col == c.col
                &&& c.col >= cols ==> now.col == cols - 1
            }
            &&& g.alt_saved_cursor is None ==> after.alt_saved_cursor is None
            &&& g.saved_cursor.row < rows ==> after.saved_cursor.row == g.saved_cursor.row
            &&& g.saved_cursor.row >= rows ==> after.saved_cursor.row == rows - 1
            &&& g.saved_cursor.col < cols ==> after.saved_cursor.col == g.saved_cursor.col
            &&& after.alt_placements == placements_above(
                rebased(g.alt_placements, gone as usize),
                bottom as int,
            )
            &&& after.placements == placements_above(g.placements, bottom as int)
            &&& forall|m: usize|
                #![trigger after.prompt_marks.contains(m)]
                after.prompt_marks.contains(m) <==> g.prompt_marks.contains(m) && m
                    < g.total_evicted_rows + bottom
        }),
{
    let top = cut_at_top(
        g.alt_lines->0.len() as int,
        g.rows - rows,
        g.alt_cursor->0.row as int,
    );
    assert(0 <= top <= g.alt_cursor->0.row);
}

/// A stored image is found under its number, and each storing gives that number another version.
/// Nothing else changes.
pub proof fn law_stored_images_are_found(g: GridModel, image: ImageData, other: u32)
    ensures
        ({
            let after = g.image_stored(image);
            &&& after == (GridModel {
                images: after.images,
                image_versions: after.image_versions,
                ..g
            })
            &&& after.images.contains_key(image.id) && after.images[image.id] == image
            &&& other != image.id ==> {
                &&& after.images.contains_key(other) == g.images.contains_key(other)
                &&& after.images[other] == g.images[other]
                &&& after.image_versions.contains_key(other) == g.image_versions.contains_key(other)
                &&& after.image_versions[other] == g.image_versions[other]
            }
            &&& after.image_versions.contains_key(image.id)
            &&& !g.image_versions.contains_key(image.id) ==> after.image_versions[image.id] == 1
            &&& g.image_versions.contains_key(image.id) ==> after.image_versions[image.id]
                != g.image_versions[image.id]
            &&& g.image_versions.contains_key(image.id) && g.image_versions[image.id] < u64::MAX
                ==> after.image_versions[image.id] == g.image_versions[image.id] + 1
        }),
{
}

/// A new placement comes last; the oldest one leaves where there are as many as are kept, which is
/// 1024. Nothing else changes.
pub proof fn law_new_placements_come_last(g: GridModel, p: ImagePlacement)
    ensures
        ({
            let after = g.placement_added(p);
            let n = g.placements.len();
            let gone = if n < 1024 {
                0int
            } else {
                1int
            };
            &&& after == (GridModel { placements: after.placements, ..g })
            &&& after.placements.len() == n + 1 - gone
            &&& after.placements.last() == p
            &&& forall|i: int|
                0 <= i < n - gone ==> #[trigger] after.placements[i] == g.placements[i + gone]
        }),
{
}

/// What a filter keeps of a list is what the list has and the filter wants.
proof fn lemma_filtered(ps: Seq<ImagePlacement>, keep: spec_fn(ImagePlacement) -> bool, p: ImagePlacement)
    ensures
        ps.filter(keep).contains(p) <==> ps.contains(p) && keep(p),
    decreases ps.len(),
{
    reveal(Seq::filter);
    if ps.len() > 0 {
        let front = ps.drop_last();
        let last = ps.last();
        lemma_filtered(front, keep, p);
        assert(ps.contains(p) <==> front.contains(p) || last == p) by {
            if ps.contains(p) {
                let j = choose|j: int| 0 <= j < ps.len() && ps[j] == p;
                if j < front.len() {
                    assert(front[j] == p);
                }
            }
            if front.contains(p) {
                let j = choose|j: int| 0 <= j < front.len() && front[j] == p;
                assert(ps[j] == p);
            }
            if last == p {
                assert(ps[ps.len() - 1] == p);
            }
        }
        let kept = front.filter(keep);
        if keep(last) {
            assert(kept.push(last).contains(p) <==> kept.contains(p) || last == p) by {
                if kept.contains(p) {
                    let j = choose|j: int| 0 <= j < kept.len() && kept[j] == p;
                    assert(kept.push(last)[j] == p);
                }
                if last == p {
                    assert(kept.push(last)[kept.len() as int] == p);
                }
            }
        }
    }
}

/// Deleting images takes away what was named and nothing else: everything, one image with all its
/// placements, the placements of one number on both screens, or the placements of this screen that
/// cover the cursor's cell. Text and cursors stay.
pub proof fn law_deletions_take_what_they_name(
    g: GridModel,
    target: DeleteTarget,
    p: ImagePlacement,
    id: u32,
)
    ensures
        ({
            let after = g.images_deleted(target);
            let at_cursor = p.line == g.scrollback.len() + g.cursor.row && p.col <= g.cursor.col
                && g.cursor.col < p.col + p.cols;
            &&& after == (GridModel {
                images: after.images,
                image_versions: after.image_versions,
                placements: after.placements,
                alt_placements: after.alt_placements,
                virtual_placements: after.virtual_placements,
                ..g
            })
            &&& after.placements.contains(p) <==> g.placements.contains(p) && match target {
                DeleteTarget::All => false,
                DeleteTarget::ById(n) => p.image_id != n,
                DeleteTarget::ByPlacement(n) => p.placement_id != n,
                DeleteTarget::AtCursor => !at_cursor,
            }
            &&& after.alt_placements.contains(p) <==> g.alt_placements.contains(p) && match target {
                DeleteTarget::All => false,
                DeleteTarget::ById(n) => p.image_id != n,
                DeleteTarget::ByPlacement(n) => p.placement_id != n,
                DeleteTarget::AtCursor => true,
            }
            &&& after.images.contains_key(id) <==> g.images.contains_key(id) && match target {
                DeleteTarget::All => false,
                DeleteTarget::ById(n) => id != n,
                _ => true,
            }
            &&& after.images.contains_key(id) ==> after.images[id] == g.images[id]
            &&& after.virtual_placements.contains_key(id) <==> g.virtual_placements.contains_key(id)
                && match target {
                DeleteTarget::All => false,
                DeleteTarget::ById(n) => id != n,
                _ => true,
            }
            &&& after.image_versions.contains_key(id) <==> g.image_versions.contains_key(id)
                && match target {
                DeleteTarget::All => false,
                DeleteTarget::ById(n) => id != n,
                _ => true,
            }
        }),
{
    match target {
        DeleteTarget::All => {},
        DeleteTarget::ById(n) => {
            lemma_filtered(g.placements, |x: ImagePlacement| x.image_id != n, p);
            lemma_filtered(g.alt_placements, |x: ImagePlacement| x.image_id != n, p);
        },
        DeleteTarget::ByPlacement(n) => {
            lemma_filtered(g.placements, |x: ImagePlacement| x.placement_id != n, p);
            lemma_filtered(g.alt_placements, |x: ImagePlacement| x.placement_id != n, p);
        },
        DeleteTarget::AtCursor => {
            lemma_filtered(g.placements, |x: ImagePlacement| !g.covers_cursor(x), p);
        },
    }
}

/// A placeholder names its image by its foreground: by the three bytes of a color, or by the number of
/// a palette entry. Other cells name none.
pub proof fn law_placeholders_name_images_by_color(cell: Cell)
    ensures
        cell.c != KITTY_PLACEHOLDER ==> named_image(cell) == 0,
        cell.c == KITTY_PLACEHOLDER ==> match cell.fg {
            Color::Rgb(r, g, b) => {
                let n = named_image(cell);
                n / 65536 == r && n / 256 % 256 == g && n % 256 == b
            },
            Color::Indexed(n) => named_image(cell) == n,
            _ => named_image(cell) == 0,
        },
{
}

/// Making room for images never takes one that is in use: one that is placed on either screen, or
/// that a placeholder on either screen names. One that is neither placed nor named goes, unless it is
/// the one to keep, and no image changes. The extents for placeholders go with the images that are in
/// use, and with none besides.
pub proof fn law_images_in_use_are_kept(g: GridModel, keep: u32, order: Seq<u32>, id: u32, q: int)
    ensures
        ({
            let after = g.unused_dropped(keep, order);
            &&& after == (GridModel {
                images: after.images,
                image_versions: after.image_versions,
                virtual_placements: after.virtual_placements,
                ..g
            })
            &&& after.images.contains_key(id) ==> g.images.contains_key(id) && after.images[id]
                == g.images[id]
            &&& g.images.contains_key(keep) ==> after.images.contains_key(keep)
            &&& g.images.contains_key(id) && 0 <= q < g.placements.len() && g.placements[q].image_id
                == id ==> after.images.contains_key(id)
            &&& g.images.contains_key(id) && 0 <= q < g.alt_placements.len()
                && g.alt_placements[q].image_id == id ==> after.images.contains_key(id)
            &&& after.virtual_placements.contains_key(id) ==> g.virtual_placements.contains_key(id)
                && after.virtual_placements[id] == g.virtual_placements[id]
            &&& after.image_versions.contains_key(id) ==> after.images.contains_key(id)
                && after.image_versions[id] == g.image_versions[id]
            &&& after.images.contains_key(id) && g.image_versions.contains_key(id)
                ==> after.image_versions.contains_key(id)
            &&& g.virtual_placements.contains_key(id) && 0 <= q < g.placements.len()
                && g.placements[q].image_id == id ==> after.virtual_placements.contains_key(id)
            &&& ((after.images.contains_key(id) && id != keep)
                || after.virtual_placements.contains_key(id) ==> {
                ||| exists|i: int| 0 <= i < g.placements.len() && (#[trigger] g.placements[i]).image_id == id
                ||| exists|i: int|
                    0 <= i < g.alt_placements.len() && (#[trigger] g.alt_placements[i]).image_id == id
                ||| exists|r: int, c: int|
                    #![trigger g.lines[r].cells[c]]
                    0 <= r < g.lines.len() && 0 <= c < g.lines[r].cells.len() && names(
                        g.lines[r].cells[c],
                        id,
                    )
                ||| g.alt_lines is Some && exists|r: int, c: int|
                    #![trigger g.alt_lines->0[r].cells[c]]
                    0 <= r < g.alt_lines->0.len() && 0 <= c < g.alt_lines->0[r].cells.len() && names(
                        g.alt_lines->0[r].cells[c],
                        id,
                    )
            })
        }),
        forall|r: int, c: int|
            #![trigger g.lines[r].cells[c]]
            0 <= r < g.lines.len() && 0 <= c < g.lines[r].cells.len() && named_image(
                g.lines[r].cells[c],
            ) == id && id != 0 && g.images.contains_key(id) ==> g.unused_dropped(
                keep,
                order,
            ).images.contains_key(id),
{
    let after = g.unused_dropped(keep, order);
    assert forall|r: int, c: int|
        #![trigger g.lines[r].cells[c]]
        0 <= r < g.lines.len() && 0 <= c < g.lines[r].cells.len() && named_image(
            g.lines[r].cells[c],
        ) == id && id != 0 && g.images.contains_key(id) implies after.images.contains_key(id) by {
        assert(cell_refers(g.lines[r].cells[c], order, id));
        assert(row_refs(g.lines[r], order).contains(id));
        assert(rows_refs(g.lines, order).contains(id));
    }
    if 0 <= q < g.placements.len() && g.placements[q].image_id == id {
        assert(placed_ids(g.placements).contains(id));
    }
    if 0 <= q < g.alt_placements.len() && g.alt_placements[q].image_id == id {
        assert(placed_ids(g.alt_placements).contains(id));
    }
    if (after.images.contains_key(id) && id != keep) || after.virtual_placements.contains_key(id) {
        assert(g.images_in_use(order).contains(id));
        if rows_refs(g.lines, order).contains(id) {
            lemma_named(g.lines, order, id);
        }
        if g.alt_lines is Some && rows_refs(g.alt_lines->0, order).contains(id) {
            lemma_named(g.alt_lines->0, order, id);
        }
    }
}

/// Whether a cell can name an image: a placeholder whose number is the image's, or the low three
/// bytes of it.
pub open spec fn names(cell: Cell, id: u32) -> bool {
    cell.c == KITTY_PLACEHOLDER && named_image(cell) != 0 && (named_image(cell) == id || named_image(
        cell,
    ) == id as int % 0x100_0000)
}

proof fn lemma_named(rows: Seq<crate::grid::row::RowModel>, order: Seq<u32>, id: u32)
    requires
        rows_refs(rows, order).contains(id),
    ensures
        exists|r: int, c: int|
            #![trigger rows[r].cells[c]]
            0 <= r < rows.len() && 0 <= c < rows[r].cells.len() && names(rows[r].cells[c], id),
{
    let r = choose|r: int| 0 <= r < rows.len() && row_refs(#[trigger] rows[r], order).contains(id);
    let c = choose|c: int|
        0 <= c < rows[r].cells.len() && cell_refers(#[trigger] rows[r].cells[c], order, id);
    assert(names(rows[r].cells[c], id));
}

proof fn lemma_without_images(g: GridModel, ids: Seq<u32>, k: u32)
    ensures
        g.without_images(ids).images.contains_key(k) <==> g.images.contains_key(k) && !ids.contains(
            k,
        ),
        g.without_images(ids).images.contains_key(k) ==> g.without_images(ids).images[k]
            == g.images[k],
    decreases ids.len(),
{
    if ids.len() > 0 {
        let front = ids.drop_last();
        lemma_without_images(g, front, k);
        assert(ids.contains(k) <==> front.contains(k) || ids.last() == k) by {
            if front.contains(k) {
                let i = choose|i: int| 0 <= i < front.len() && front[i] == k;
                assert(ids[i] == k);
            }
            if ids.last() == k {
                assert(ids[ids.len() - 1] == k);
            }
            if ids.contains(k) {
                let i = choose|i: int| 0 <= i < ids.len() && ids[i] == k;
                if i < ids.len() - 1 {
                    assert(front[i] == k);
                }
            }
        }
    }
}

/// Of too many images, as many are dropped as there are beyond the limit, the first ones in the order
/// that is given but never the one to keep; all others stay as they are.
pub proof fn law_surplus_images_leave(
    g: GridModel,
    keep: u32,
    first: Seq<u32>,
    rest: Seq<u32>,
    k: u32,
)
    requires
        g.images.len() == 256 + first.len(),
        !first.contains(keep),
    ensures
        ({
            let after = g.surplus_dropped(keep, first + rest);
            &&& after.images.contains_key(k) <==> g.images.contains_key(k) && !first.contains(k)
            &&& after.images.contains_key(k) ==> after.images[k] == g.images[k]
        }),
{
    let n = first.len() as int;
    let others = others_than(first + rest, keep);
    lemma_filter_all(first, keep);
    Seq::filter_distributes_over_add(first, rest, |id: u32| id != keep);
    assert(others =~= others_than(first, keep) + others_than(rest, keep));
    assert(others.take(n) =~= first);
    lemma_without_images(g, first, k);
}

proof fn lemma_filter_all(s: Seq<u32>, keep: u32)
    requires
        !s.contains(keep),
    ensures
        others_than(s, keep) == s,
    decreases s.len(),
{
    reveal(Seq::filter);
    if s.len() > 0 {
        let t = s.drop_last();
        assert(s[s.len() - 1] != keep);
        assert(!t.contains(keep)) by {
            if t.contains(keep) {
                let i = choose|i: int| 0 <= i < t.len() && t[i] == keep;
                assert(s[i] == keep);
            }
        }
        lemma_filter_all(t, keep);
        assert(s =~= t.push(s.last()));
    }
}

} // verus!
