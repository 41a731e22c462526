//! What holds of the decisions of the event loop.

use crate::config::ConfigModel;
use crate::event_loop::actions::{
    limited, lines_of, offset_after, padding_of, repeated, request_of, shape_of, size_of,
    FontChange, PipeSource, RequestModel, MAX_CONCURRENT_PIPELINES,
};
use crate::event_loop::clipboard::{
    announced, paste_end, paste_start, pasted, place_of, swapped_out, text_mimes, with_mime,
    OfferModel, DIRECT_PASTE_BYTES, MAX_PENDING_OFFERS,
};
use crate::event_loop::geometry::{capped16, cells_in, first_length, geometry_in, usable};
use crate::event_loop::pointer::{
    address_at, address_run, arrow, button_bit, button_index, clicks_after, selection_for,
    wheel_steps, HoveredHyperlinkSpan, PointerShape, PointerState, PressPlace, SelectionType,
    MAX_WHEEL_STEPS, MULTI_CLICK_MS,
};
use crate::event_loop::tick::{
    SyncTracker, READ_BUDGET, SYNC_LIMIT_MS, SYNC_TURN_MS, WRITE_LIMIT_MS,
};
use crate::font::{CellMetrics, MAX_FONT_SIZE, MIN_FONT_SIZE};
use crate::grid::model::GridModel;
use crate::grid::{Cell, CursorShape, Grid};
use crate::ime::{below, is_wide_at};
use crate::input::ActionModel;
use crate::text::white_space;
use vstd::prelude::*;

verus! {

/// What the actions of keys ask the event loop for: the viewport is moved and redrawn, the font is
/// changed, text is copied or pasted, or text is handed to a command.
pub proof fn law_actions_ask_for_their_work(cmd: Seq<Seq<char>>)
    ensures
        request_of(ActionModel::FontIncrease) == RequestModel::Font(FontChange::Increase),
        request_of(ActionModel::FontDecrease) == RequestModel::Font(FontChange::Decrease),
        request_of(ActionModel::FontReset) == RequestModel::Font(FontChange::Reset),
        request_of(ActionModel::ClipboardCopy) == RequestModel::Copy,
        request_of(ActionModel::ClipboardPaste) == RequestModel::Paste,
        request_of(ActionModel::PrimaryPaste) == RequestModel::Paste,
        request_of(ActionModel::PipeVisible(cmd)) == RequestModel::Pipe(PipeSource::Visible, cmd),
        request_of(ActionModel::PipeScrollback(cmd)) == RequestModel::Pipe(
            PipeSource::Scrollback,
            cmd,
        ),
        request_of(ActionModel::PipeSelection(cmd)) == RequestModel::Pipe(
            PipeSource::Selection,
            cmd,
        ),
        request_of(ActionModel::ScrollbackUpPage) == RequestModel::Redraw,
        request_of(ActionModel::ScrollbackDownPage) == RequestModel::Redraw,
        request_of(ActionModel::ScrollbackUpLine) == RequestModel::Redraw,
        request_of(ActionModel::ScrollbackDownLine) == RequestModel::Redraw,
        request_of(ActionModel::ScrollbackHome) == RequestModel::Redraw,
        request_of(ActionModel::ScrollbackEnd) == RequestModel::Redraw,
        request_of(ActionModel::PromptPrev) == RequestModel::Redraw,
        request_of(ActionModel::PromptNext) == RequestModel::Redraw,
        MAX_CONCURRENT_PIPELINES == 8,
{
}

/// The viewport moves up and down by a row or by as many rows as the screen has, but neither above
/// the oldest row nor below the screen; its ends are the oldest row and the screen.
pub proof fn law_the_viewport_moves_by_rows(g: GridModel)
    requires
        g.viewport_offset <= g.scrollback.len() <= usize::MAX,
    ensures
        ({
            let up = |n: int, after: usize| if g.viewport_offset + n <= g.scrollback.len() {
                after == g.viewport_offset + n
            } else {
                after == g.scrollback.len()
            };
            let down = |n: int, after: usize| if n <= g.viewport_offset {
                after == g.viewport_offset - n
            } else {
                after == 0
            };
            &&& up(1, offset_after(g, ActionModel::ScrollbackUpLine))
            &&& up(g.rows as int, offset_after(g, ActionModel::ScrollbackUpPage))
            &&& down(1, offset_after(g, ActionModel::ScrollbackDownLine))
            &&& down(g.rows as int, offset_after(g, ActionModel::ScrollbackDownPage))
            &&& offset_after(g, ActionModel::ScrollbackHome) == g.scrollback.len()
            &&& offset_after(g, ActionModel::ScrollbackEnd) == 0
        }),
{
}

/// Going to the previous prompt leads to the nearest one above, if there is any, and stays otherwise;
/// going to the next one leads to the nearest one below, and to the screen if there is none. Other
/// actions do not move the viewport.
pub proof fn law_the_viewport_moves_by_prompts(g: GridModel, cmd: Seq<Seq<char>>)
    ensures
        g.prompt_above() is Some ==> offset_after(g, ActionModel::PromptPrev) == g.offset_of_mark(
            g.prompt_above()->0,
        ),
        g.prompt_above() is None ==> offset_after(g, ActionModel::PromptPrev) == g.viewport_offset,
        g.prompt_below() is Some ==> offset_after(g, ActionModel::PromptNext) == g.offset_of_mark(
            g.prompt_below()->0,
        ),
        g.prompt_below() is None ==> offset_after(g, ActionModel::PromptNext) == 0,
        offset_after(g, ActionModel::FontIncrease) == g.viewport_offset,
        offset_after(g, ActionModel::FontDecrease) == g.viewport_offset,
        offset_after(g, ActionModel::FontReset) == g.viewport_offset,
        offset_after(g, ActionModel::ClipboardCopy) == g.viewport_offset,
        offset_after(g, ActionModel::ClipboardPaste) == g.viewport_offset,
        offset_after(g, ActionModel::PrimaryPaste) == g.viewport_offset,
        offset_after(g, ActionModel::PipeVisible(cmd)) == g.viewport_offset,
        offset_after(g, ActionModel::PipeScrollback(cmd)) == g.viewport_offset,
        offset_after(g, ActionModel::PipeSelection(cmd)) == g.viewport_offset,
{
}

/// A shorter history keeps its newest rows, the viewport stays within it, and nothing else changes.
pub proof fn law_a_shorter_history(g: GridModel, max: usize, i: int)
    requires
        g.viewport_offset <= g.scrollback.len(),
        0 <= i < g.scrollback.len(),
        i < max,
    ensures
        ({
            let after = limited(g, max);
            &&& after.max_scrollback == max
            &&& after.scrollback.len() <= g.scrollback.len() && after.scrollback.len() <= max
            &&& after.scrollback[after.scrollback.len() - 1 - i] == g.scrollback[g.scrollback.len()
                - 1 - i]
            &&& g.viewport_offset <= max ==> after.viewport_offset == g.viewport_offset
            &&& g.viewport_offset > max ==> after.viewport_offset == max
            &&& after == (GridModel {
                max_scrollback: after.max_scrollback,
                scrollback: after.scrollback,
                viewport_offset: after.viewport_offset,
                ..g
            })
        }),
{
}

/// What is in force where a setting is not made: a font size of 14, a history of a thousand rows, no
/// padding, and a cursor that fills its cell.
pub proof fn law_settings_in_force(c: ConfigModel)
    ensures
        c.size matches Some(size) ==> size_of(c) == size,
        c.size is None ==> size_of(c) == 0x4160_0000,
        c.lines matches Some(n) ==> lines_of(c) == n,
        c.lines is None ==> lines_of(c) == 1000,
        c.padding matches Some(p) ==> padding_of(c) == (p.axes()@[0], p.axes()@[1]),
        c.padding is None ==> padding_of(c) == (0u16, 0u16),
        c.shape matches Some(shape) ==> shape_of(c) == shape,
        c.shape is None ==> shape_of(c) == CursorShape::Block,
        MIN_FONT_SIZE == 0x40c0_0000,
        MAX_FONT_SIZE == 0x4290_0000,
{
}

/// Bytes that are repeated stand there as often as asked for, one after the other.
pub proof fn law_repeated_bytes(s: Seq<u8>, n: nat, k: int, i: int)
    requires
        0 <= k < n,
        0 <= i < s.len(),
    ensures
        repeated(s, n).len() == n * s.len(),
        k * s.len() + i < n * s.len(),
        repeated(s, n)[k * s.len() + i] == s[i],
    decreases n,
{
    let m = (n - 1) as nat;
    lemma_repeated_len(s, m);
    lemma_repeated_len(s, n);
    assert(k * s.len() + i < n * s.len()) by (nonlinear_arith)
        requires
            0 <= k < n,
            0 <= i < s.len(),
    ;
    if k == n - 1 {
        assert(repeated(s, m).len() == k * s.len());
    } else {
        law_repeated_bytes(s, m, k, i);
    }
}

proof fn lemma_repeated_len(s: Seq<u8>, n: nat)
    ensures
        repeated(s, n).len() == n * s.len(),
    decreases n,
{
    if n > 0 {
        let m = (n - 1) as nat;
        lemma_repeated_len(s, m);
        assert(m * s.len() + s.len() == n * s.len()) by (nonlinear_arith)
            requires
                m == n - 1,
        ;
    } else {
        assert(0 * s.len() == 0);
    }
}

/// The three buttons that programs are told of have the numbers that programs know them by, and each
/// has a bit of its own.
pub proof fn law_pointer_buttons(button: u32)
    ensures
        button_index(0x110) == Some(0u8),
        button_index(0x111) == Some(1u8),
        button_index(0x112) == Some(2u8),
        button < 0x110 || button > 0x112 ==> button_index(button) is None,
        button_bit(0) == 1,
        button_bit(1) == 2,
        button_bit(2) == 4,
{
    assert(1u8 << 0u8 == 1) by (bit_vector);
    assert(1u8 << 1u8 == 2) by (bit_vector);
    assert(1u8 << 2u8 == 4) by (bit_vector);
}

/// A press soon after one on the same cell counts one further, up to three, and any other press
/// counts as the first.
pub proof fn law_clicks_are_counted(p: PointerState, cell: (usize, usize), time: u32)
    requires
        p.click_count <= 3,
    ensures
        p.last_click_cell != Some(cell) ==> clicks_after(p, cell, time) == 1,
        time >= p.last_click_time + 350 ==> clicks_after(p, cell, time) == 1,
        p.last_click_cell == Some(cell) && time < p.last_click_time + 350 && p.click_count < 3
            ==> clicks_after(p, cell, time) == p.click_count + 1,
        p.last_click_cell == Some(cell) && time < p.last_click_time + 350 && p.click_count == 3
            ==> clicks_after(p, cell, time) == 1,
        MULTI_CLICK_MS == 350,
{
}

/// One click selects from the cell itself, two the word there, and three the line.
pub proof fn law_clicks_select(place: PressPlace)
    ensures
        ({
            let s = selection_for(1, place);
            &&& s.start.line == place.line && s.end.line == place.line
            &&& s.start.col == place.col && s.end.col == place.col
            &&& s.kind == SelectionType::Simple
        }),
        ({
            let s = selection_for(2, place);
            &&& s.start.line == place.line && s.end.line == place.line
            &&& s.start.col == place.word.0 && s.end.col == place.word.1
            &&& s.kind == SelectionType::Word
        }),
        ({
            let s = selection_for(3, place);
            &&& s.start.line == place.line && s.end.line == place.line
            &&& s.start.col == 0 && s.end.col == place.last_col
            &&& s.kind == SelectionType::Line
        }),
{
}

/// The pointer has the shape of a hand over a link and that of a text cursor elsewhere; it is given
/// a shape only while it is in the window, with a device to give it with, and where it does not have
/// that shape yet.
pub proof fn law_pointer_shapes(p: PointerState, has_device: bool)
    ensures
        p.hovered is Some ==> p.wanted_shape() == PointerShape::Pointer,
        p.hovered is None ==> p.wanted_shape() == PointerShape::Text,
        !p.in_surface || p.serial == 0 || !has_device ==> p.reshaped(has_device) == p,
        p.in_surface && p.serial != 0 && has_device ==> p.reshaped(has_device) == (PointerState {
            shape: Some(p.wanted_shape()),
            ..p
        }),
        p.reshapes(has_device) ==> p.reshaped(has_device).shape != p.shape,
        !p.reshapes(has_device) ==> p.reshaped(has_device) == p,
{
}

/// A link is under the pointer while it is in the window and no button is held; what was under it
/// before no longer is, and a change is drawn.
pub proof fn law_links_under_the_pointer(
    p: PointerState,
    found: Option<HoveredHyperlinkSpan>,
    has_device: bool,
)
    ensures
        ({
            let after = p.hovering(found, has_device);
            &&& p.in_surface && !p.pressed ==> after.hovered == found
            &&& !p.in_surface || p.pressed ==> after.hovered is None
            &&& after.hovered != p.hovered ==> after.needs_redraw
            &&& after.hovered == p.hovered ==> after == p
            &&& after == (PointerState {
                hovered: after.hovered,
                needs_redraw: after.needs_redraw,
                shape: after.shape,
                ..p
            })
        }),
{
}

/// The wheel moves by as many steps as it was turned, in either direction, up to a hundred; towards
/// the top is the arrow up.
pub proof fn law_wheel_steps(lines: i32)
    ensures
        0 <= lines <= 100 ==> wheel_steps(lines) == lines,
        -100 <= lines <= 0 ==> wheel_steps(lines) == -lines,
        lines > 100 || lines < -100 ==> wheel_steps(lines) == 100,
        MAX_WHEEL_STEPS == 100,
        arrow(true) == seq![0x1bu8, 0x5b, 0x41],
        arrow(false) == seq![0x1bu8, 0x5b, 0x42],
{
}

/// An address starts with a scheme and goes on to the next white space or to the end of the row; the
/// cell under the pointer lies within it.
pub proof fn law_addresses(cells: Seq<Cell>, col: int, start: int, end: int)
    requires
        address_run(cells, col, start, end),
    ensures
        0 <= start <= col <= end < cells.len(),
        cells[start].c == 'h' && cells[start + 1].c == 't' && cells[start + 2].c == 't'
            && cells[start + 3].c == 'p',
        cells[start + 4].c == ':' || (cells[start + 4].c == 's' && cells[start + 5].c == ':'),
        forall|i: int| start <= i <= end ==> !white_space((#[trigger] cells[i]).c),
        end + 1 == cells.len() || white_space(cells[end + 1].c),
{
    assert(address_at(cells, start));
    reveal_strlit("http://");
    reveal_strlit("https://");
    assert("http://"@.len() == 7 && "https://"@.len() == 8);
    assert("http://"@[0] == 'h' && "http://"@[1] == 't' && "http://"@[2] == 't' && "http://"@[3]
        == 'p' && "http://"@[4] == ':');
    assert("https://"@[0] == 'h' && "https://"@[1] == 't' && "https://"@[2] == 't' && "https://"@[3]
        == 'p' && "https://"@[4] == 's' && "https://"@[5] == ':');
    assert(cells[start + 0].c == 'h');
    assert(cells[start + 1].c == 't');
    assert(cells[start + 2].c == 't');
    assert(cells[start + 3].c == 'p');
    assert(cells[start + 4].c == ':' || cells[start + 4].c == 's');
    assert(cells[start + 4].c == 's' ==> cells[start + 5].c == ':') by {
        if crate::event_loop::pointer::spells_at(cells, start, "http://"@) {
            assert(cells[start + 4].c == ':');
        }
    }
}

/// What is left of a length between two paddings.
pub proof fn law_usable_lengths(length: u32, padding: u16)
    ensures
        length >= 2 * padding ==> usable(length, padding) + 2 * padding == length,
        length < 2 * padding ==> usable(length, padding) == 0,
{
}

/// A length holds as many whole cells as fit, and at least one.
pub proof fn law_whole_cells(length: u32, cell: u32)
    requires
        cell > 0,
    ensures
        1 <= cells_in(length, cell) <= 65535,
        length < cell ==> cells_in(length, cell) == 1,
        length >= cell ==> cells_in(length, cell) * cell <= length,
        cells_in(length, cell) < 65535 ==> length < (cells_in(length, cell) + 1) * cell,
{
    let q = length as int / cell as int;
    assert(q * cell <= length < (q + 1) * cell) by (nonlinear_arith)
        requires
            cell > 0,
            q == length as int / cell as int,
    ;
    if length < cell {
        assert(q == 0) by (nonlinear_arith)
            requires
                q * cell <= length < (q + 1) * cell,
                length < cell,
                cell > 0,
        ;
    } else {
        assert(q >= 1) by (nonlinear_arith)
            requires
                q * cell <= length < (q + 1) * cell,
                length >= cell,
                cell > 0,
        ;
        assert(q > 65535 ==> 65535 * cell <= q * cell) by (nonlinear_arith)
            requires
                cell > 0,
        ;
    }
}

/// Numbers of two bytes stop at the largest of them.
pub proof fn law_two_byte_numbers(n: int)
    requires
        n >= 0,
    ensures
        n <= 65535 ==> capped16(n) == n,
        n > 65535 ==> capped16(n) == 65535,
{
}

/// The first window is as long as its cells and the paddings on both sides, but at least a hundred.
pub proof fn law_first_windows(cells: usize, cell: u32, padding: u16)
    requires
        cells <= u32::MAX,
        cells * cell + 2 * padding <= i32::MAX,
    ensures
        cells * cell + 2 * padding >= 100 ==> first_length(cells, cell, padding) == cells * cell + 2
            * padding,
        cells * cell + 2 * padding < 100 ==> first_length(cells, cell, padding) == 100,
{
    assert(0 <= cells * cell) by (nonlinear_arith);
}

/// The geometry of a window takes the columns of its width and the rows of its height, and tells the
/// size of a cell and the size between the paddings.
pub proof fn law_geometry(w: u32, h: u32, m: CellMetrics, pad_x: u16, pad_y: u16)
    ensures
        ({
            let g = geometry_in(w, h, m, pad_x, pad_y);
            &&& g.cols == cells_in(usable(w, pad_x), m.cell_width)
            &&& g.rows == cells_in(usable(h, pad_y), m.cell_height)
            &&& m.cell_width <= 65535 ==> g.cell_width == m.cell_width
            &&& m.cell_height <= 65535 ==> g.cell_height == m.cell_height
            &&& 2 * pad_x <= w <= 65535 ==> g.viewport_width == w - 2 * pad_x
            &&& 2 * pad_y <= h <= 65535 ==> g.viewport_height == h - 2 * pad_y
        }),
{
}

/// A place on the screen is kept, and one beyond it becomes the last one.
pub proof fn law_places_stay_on_the_screen(n: usize, bound: usize)
    ensures
        n < bound ==> below(n, bound) == n,
        0 < bound <= n ==> below(n, bound) == bound - 1,
        bound == 0 ==> below(n, bound) == 0,
{
}

/// A cursor is as wide as two cells where the cell under it is the left half of a wide character.
pub proof fn law_wide_cursors(grid: &Grid, row: int, col: int)
    requires
        0 <= row < grid.lines@.len(),
        0 <= col < grid.lines@[row].cells@.len(),
    ensures
        is_wide_at(grid, row, col) <==> grid.lines@[row].cells@[col].flags.bits & 0x80 == 0x80,
{
}

/// An offer that is announced comes last, without kinds of text yet; of four that wait already, the
/// oldest leaves.
pub proof fn law_offers_are_announced(known: Seq<OfferModel>, id: u32)
    ensures
        announced(known, id).last().offer == id,
        announced(known, id).last().mime_types.len() == 0,
        known.len() < 4 ==> announced(known, id).drop_last() == known,
        known.len() >= 4 ==> announced(known, id).drop_last() == known.skip(1),
        MAX_PENDING_OFFERS == 4,
{
    assert(known.drop_first() =~= known.skip(1));
    if known.len() < 4 {
        assert(announced(known, id).drop_last() =~= known);
    } else {
        assert(announced(known, id).drop_last() =~= known.skip(1));
    }
}

/// An offer is found in the first place that has its number, or behind the last one where none has.
pub proof fn law_offers_are_found(known: Seq<OfferModel>, id: u32)
    ensures
        0 <= place_of(known, id) <= known.len(),
        place_of(known, id) < known.len() ==> known[place_of(known, id)].offer == id,
        forall|i: int| 0 <= i < place_of(known, id) ==> (#[trigger] known[i]).offer != id,
    decreases known.len(),
{
    if known.len() > 0 && known[0].offer != id {
        law_offers_are_found(known.drop_first(), id);
        assert forall|i: int| 0 <= i < place_of(known, id) implies (#[trigger] known[i]).offer
            != id by {
            if i > 0 {
                assert(known.drop_first()[i - 1] == known[i]);
            }
        }
    }
}

/// An offer that is selected leaves those that wait, and the last of them takes its place; a kind of
/// text is added behind the others.
pub proof fn law_offers_leave(known: Seq<OfferModel>, i: int, k: int, o: OfferModel, m: Seq<char>)
    requires
        0 <= i < known.len(),
        0 <= k < known.len() - 1,
    ensures
        swapped_out(known, i).len() == known.len() - 1,
        k != i ==> swapped_out(known, i)[k] == known[k],
        k == i ==> swapped_out(known, i)[k] == known.last(),
        with_mime(o, m).offer == o.offer,
        with_mime(o, m).mime_types == o.mime_types.push(m),
{
}

/// A paste is sent between an escape sequence that starts it and one that ends it, where the program
/// asked for that, and as it is otherwise. Kinds of text are tried in a fixed order.
pub proof fn law_pastes_are_bracketed(bytes: Seq<u8>)
    ensures
        pasted(bytes, false) == bytes,
        pasted(bytes, true) == seq![0x1bu8, 0x5b, 0x32, 0x30, 0x30, 0x7e] + bytes + seq![
            0x1bu8,
            0x5b,
            0x32,
            0x30,
            0x31,
            0x7e,
        ],
        paste_start() == seq![0x1bu8, 0x5b, 0x32, 0x30, 0x30, 0x7e],
        paste_end() == seq![0x1bu8, 0x5b, 0x32, 0x30, 0x31, 0x7e],
        text_mimes().len() == 3,
        text_mimes()[0] == "text/plain;charset=utf-8"@,
        text_mimes()[1] == "text/plain"@,
        text_mimes()[2] == "UTF8_STRING"@,
        DIRECT_PASTE_BYTES == 4096,
{
}

/// Frames are held back while a program asks for it, for 150 milliseconds at most since it began
/// with its present request.
pub proof fn law_frames_are_held_back(t: SyncTracker, generation: u64, now: u64)
    requires
        t.start matches Some(start) ==> start <= now,
    ensures
        !t.holding(generation, false, now),
        t.start is None ==> t.holding(generation, true, now),
        generation != t.last_gen ==> t.holding(generation, true, now),
        t.start is Some && generation == t.last_gen ==> t.holding(generation, true, now) == (now
            - t.start->0 <= 150),
        t.start is Some && generation == t.last_gen ==> t.began(generation, now) == t.start->0,
        t.start is None || generation != t.last_gen ==> t.began(generation, now) == now,
        SYNC_LIMIT_MS == 150 && SYNC_TURN_MS == 50 && WRITE_LIMIT_MS == 100 && READ_BUDGET == 65536,
{
}

} // verus!
