//! What graphics events do to the grid, and what is answered.

use crate::grid::images::adds_image;
use crate::grid::model::{capped_sum, GridModel};
use crate::grid::{Cursor, Grid};
use crate::kitty::command::{kitty_response, response_bytes};
use crate::kitty::{ImagePlacement, KittyAction, KittyCommand, KittyEvent};
use vstd::prelude::*;

verus! {

broadcast use {
    vstd::std_specs::hash::group_hash_axioms,
    vstd::std_specs::btree::group_btree_axioms,
};

/// How many columns and rows an image takes: what the command says, and otherwise what was
/// computed from the image's size and the size of a cell.
pub open spec fn extent(cmd: KittyCommand, fitted: (usize, usize)) -> (usize, usize) {
    (
        match cmd.cols {
            Some(c) => c as usize,
            None => fitted.0,
        },
        match cmd.rows {
            Some(r) => r as usize,
            None => fitted.1,
        },
    )
}

/// A number, or zero where there is none.
pub open spec fn number_or_zero(n: Option<u32>) -> u32 {
    match n {
        Some(n) => n,
        None => 0,
    }
}

/// The placement of an image at the cursor.
pub open spec fn placement_at_cursor(
    g: GridModel,
    cmd: KittyCommand,
    image_id: u32,
    size: (usize, usize),
) -> ImagePlacement {
    ImagePlacement {
        image_id,
        placement_id: number_or_zero(cmd.placement_id),
        line: (g.scrollback.len() + g.cursor.row) as usize,
        col: g.cursor.col,
        cols: size.0,
        rows: size.1,
        offset_x: cmd.offset_x,
        offset_y: cmd.offset_y,
        z_index: cmd.z_index,
    }
}

/// A grid with an image shown: a virtual one is kept for the cells that name it, another one is
/// placed at the cursor of the grid `at`.
pub open spec fn image_shown(
    g: GridModel,
    at: GridModel,
    cmd: KittyCommand,
    image_id: u32,
    size: (usize, usize),
) -> GridModel {
    if cmd.is_virtual {
        GridModel { virtual_placements: g.virtual_placements.insert(image_id, size), ..g }
    } else {
        g.placement_added(placement_at_cursor(at, cmd, image_id, size))
    }
}

/// A grid whose cursor moved right past an image, as far as the last column.
pub open spec fn cursor_moved(g: GridModel, at: GridModel, cols: usize) -> GridModel {
    let target = capped_sum(at.cursor.col as int, cols as int);
    let last: usize = if at.cols == 0 {
        0
    } else {
        (at.cols - 1) as usize
    };
    GridModel {
        cursor: Cursor {
            col: if target <= last {
                target
            } else {
                last
            },
            ..g.cursor
        },
        ..g
    }
}

/// What a transmitted image leaves once it is stored.
pub open spec fn transmit_shown(
    stored: GridModel,
    at: GridModel,
    cmd: KittyCommand,
    image_id: u32,
    size: (usize, usize),
) -> GridModel {
    let shown = image_shown(stored, at, cmd, image_id, size);
    if cmd.is_virtual || cmd.do_not_move_cursor {
        shown
    } else {
        cursor_moved(shown, at, size.0)
    }
}

/// What answers a transmitted image: a client that gave a number or asked for an answer gets one,
/// unless it wants quiet.
pub open spec fn transmit_answer(cmd: KittyCommand, image_id: u32) -> Option<Seq<u8>> {
    if cmd.quiet == 0 && (cmd.action == KittyAction::TransmitAndDisplayWithResponse
        || cmd.id_explicit) {
        Some(response_bytes(image_id, cmd.placement_id, "OK"@))
    } else {
        None
    }
}

/// What a placement leaves.
pub open spec fn placed_result(g: GridModel, cmd: KittyCommand) -> GridModel {
    match cmd.image_id {
        Some(id) if g.images.contains_key(id) => image_shown(g, g, cmd, id, extent(cmd, (1, 1))),
        _ => g,
    }
}

/// What answers a placement: that the image is unknown, unless all answers are unwanted, or that
/// it worked, unless quiet is wanted.
pub open spec fn place_answer(g: GridModel, cmd: KittyCommand) -> Option<Seq<u8>> {
    match cmd.image_id {
        Some(id) => if !g.images.contains_key(id) {
            if cmd.quiet < 2 {
                Some(response_bytes(id, cmd.placement_id, "ENOENT:image not found"@))
            } else {
                None
            }
        } else if cmd.quiet == 0 {
            Some(response_bytes(id, cmd.placement_id, "OK"@))
        } else {
            None
        },
        None => None,
    }
}

/// What optional bytes hold.
pub open spec fn answer_model(b: Option<Vec<u8>>) -> Option<Seq<u8>> {
    match b {
        Some(b) => Some(b@),
        None => None,
    }
}

/// Shows an image at a place that was computed before.
fn show_image(
    grid: &mut Grid,
    cmd: &KittyCommand,
    image_id: u32,
    size: (usize, usize),
    line: usize,
    col: usize,
)
    ensures
        final(grid)@ == (if cmd.is_virtual {
            GridModel {
                virtual_placements: old(grid)@.virtual_placements.insert(image_id, size),
                ..old(grid)@
            }
        } else {
            old(grid)@.placement_added(
                ImagePlacement {
                    image_id,
                    placement_id: number_or_zero(cmd.placement_id),
                    line,
                    col,
                    cols: size.0,
                    rows: size.1,
                    offset_x: cmd.offset_x,
                    offset_y: cmd.offset_y,
                    z_index: cmd.z_index,
                },
            )
        }),
{
    let ghost before = grid@;
    if cmd.is_virtual {
        grid.virtual_placements.insert(image_id, size);
        assert(grid@ =~= GridModel {
            virtual_placements: before.virtual_placements.insert(image_id, size),
            ..before
        });
    } else {
        let placement_id: u32 = match cmd.placement_id {
            Some(id) => id,
            None => 0,
        };
        grid.add_placement(
            ImagePlacement {
                image_id,
                placement_id,
                line,
                col,
                cols: size.0,
                rows: size.1,
                offset_x: cmd.offset_x,
                offset_y: cmd.offset_y,
                z_index: cmd.z_index,
            },
        );
    }
}

/// Moves the cursor right past an image.
fn move_cursor(grid: &mut Grid, col: usize, cols: usize, width: usize)
    ensures
        final(grid)@ == (GridModel {
            cursor: Cursor {
                col: ({
                    let target = capped_sum(col as int, cols as int);
                    let last: usize = if width == 0 {
                        0
                    } else {
                        (width - 1) as usize
                    };
                    if target <= last {
                        target
                    } else {
                        last
                    }
                }),
                ..old(grid)@.cursor
            },
            ..old(grid)@
        }),
{
    let ghost before = grid@;
    let target: usize = col.saturating_add(cols);
    let last: usize = width.saturating_sub(1);
    grid.cursor.col =
    if target <= last {
        target
    } else {
        last
    };
    assert(grid@ =~= GridModel { cursor: grid.cursor, ..before });
}

/// Handles a graphics event and returns what is to be answered. `fitted` is the number of columns
/// and rows for a dimension that the command leaves open. An event whose bytes are still to be
/// loaded does nothing yet.
pub fn handle_kitty_event(grid: &mut Grid, event: KittyEvent, fitted: (usize, usize)) -> (r: Option<
    Vec<u8>,
>)
    requires
        old(grid)@.scrollback.len() + old(grid)@.cursor.row <= usize::MAX,
    ensures
        match event {
            KittyEvent::Transmit { command, image } => {
                &&& exists|virtual_order: Seq<u32>, image_order: Seq<u32>, stored: GridModel| #[trigger]
                    adds_image(old(grid)@, image, virtual_order, image_order, stored)
                        && final(grid)@ == transmit_shown(
                        stored,
                        old(grid)@,
                        command,
                        image.id,
                        extent(command, fitted),
                    )
                &&& answer_model(r) == transmit_answer(command, image.id)
                &&& !command.is_virtual ==> {
                    let p = final(grid)@.placements.last();
                    &&& final(grid)@.placements.len() > 0
                    &&& p.image_id == image.id
                    &&& p.line == old(grid)@.scrollback.len() + old(grid)@.cursor.row
                    &&& p.col == old(grid)@.cursor.col
                    &&& p.cols == (match command.cols {
                        Some(c) => c as usize,
                        None => fitted.0,
                    })
                    &&& p.rows == (match command.rows {
                        Some(n) => n as usize,
                        None => fitted.1,
                    })
                }
            },
            KittyEvent::Place { command } => {
                &&& final(grid)@ == placed_result(old(grid)@, command)
                &&& answer_model(r) == place_answer(old(grid)@, command)
                &&& command.image_id is Some && old(grid)@.images.contains_key(command.image_id->0)
                    && !command.is_virtual ==> {
                    let p = final(grid)@.placements.last();
                    &&& final(grid)@.placements.len() > 0
                    &&& p.image_id == command.image_id->0
                    &&& p.line == old(grid)@.scrollback.len() + old(grid)@.cursor.row
                    &&& p.col == old(grid)@.cursor.col
                    &&& p.cols == (match command.cols {
                        Some(c) => c as usize,
                        None => 1,
                    })
                    &&& p.rows == (match command.rows {
                        Some(n) => n as usize,
                        None => 1,
                    })
                }
            },
            KittyEvent::Delete { target } => {
                &&& final(grid)@ == old(grid)@.images_deleted(target)
                &&& r is None
            },
            KittyEvent::Response(bytes) => {
                &&& final(grid)@ == old(grid)@
                &&& answer_model(r) == Some(bytes@)
            },
            KittyEvent::Load { .. } => final(grid)@ == old(grid)@ && r is None,
        },
{
    let ghost before = grid@;
    let line: usize = grid.scrollback.len() + grid.cursor.row;
    let col: usize = grid.cursor.col;
    match event {
        KittyEvent::Transmit { command, image } => {
            let image_id: u32 = image.id;
            let width: usize = grid.cols;
            grid.add_image(image);
            let cols: usize = match command.cols {
                Some(c) => c as usize,
                None => fitted.0,
            };
            let rows: usize = match command.rows {
                Some(r) => r as usize,
                None => fitted.1,
            };
            let ghost stored = grid@;
            proof {
                let (vo, io) = choose|vo: Seq<u32>, io: Seq<u32>|
                    adds_image(before, image, vo, io, stored);
                assert(adds_image(before, image, vo, io, stored));
            }
            show_image(grid, &command, image_id, (cols, rows), line, col);
            if !command.is_virtual && !command.do_not_move_cursor {
                move_cursor(grid, col, cols, width);
            }
            assert(grid@ == transmit_shown(
                stored,
                before,
                command,
                image_id,
                extent(command, fitted),
            ));
            if command.quiet == 0 && (command.action == KittyAction::TransmitAndDisplayWithResponse
                || command.id_explicit) {
                Some(kitty_response(image_id, command.placement_id, "OK"))
            } else {
                None
            }
        },
        KittyEvent::Place { command } => {
            let image_id: u32 = match command.image_id {
                Some(id) => id,
                None => {
                    return None;
                },
            };
            if !grid.images.contains_key(&image_id) {
                if command.quiet < 2 {
                    return Some(
                        kitty_response(image_id, command.placement_id, "ENOENT:image not found"),
                    );
                }
                return None;
            }
            let cols: usize = match command.cols {
                Some(c) => c as usize,
                None => 1,
            };
            let rows: usize = match command.rows {
                Some(r) => r as usize,
                None => 1,
            };
            show_image(grid, &command, image_id, (cols, rows), line, col);
            if command.quiet == 0 {
                Some(kitty_response(image_id, command.placement_id, "OK"))
            } else {
                None
            }
        },
        KittyEvent::Delete { target } => {
            grid.delete_images(target);
            None
        },
        KittyEvent::Response(bytes) => Some(bytes),
        KittyEvent::Load { .. } => None,
    }
}

/// A placement of an image that is not stored changes nothing, and is answered with an error
/// unless all answers are unwanted.
pub proof fn law_unknown_images_are_refused(g: GridModel, cmd: KittyCommand, id: u32)
    requires
        cmd.image_id == Some(id),
        !g.images.contains_key(id),
    ensures
        placed_result(g, cmd) == g,
        place_answer(g, cmd) == (if cmd.quiet < 2 {
            Some(response_bytes(id, cmd.placement_id, "ENOENT:image not found"@))
        } else {
            None
        }),
{
}

/// Whether a placement is what a command asks for at the cursor of a grid: the image, its number, its
/// extent where the command gives one, its offsets and its layer.
pub open spec fn is_asked_for(p: ImagePlacement, cmd: KittyCommand, id: u32, at: GridModel) -> bool {
    &&& p.image_id == id
    &&& p.placement_id == (match cmd.placement_id {
        Some(n) => n,
        None => 0,
    })
    &&& p.line == at.scrollback.len() + at.cursor.row
    &&& p.col == at.cursor.col
    &&& cmd.cols matches Some(c) ==> p.cols == c
    &&& cmd.rows matches Some(n) ==> p.rows == n
    &&& p.offset_x == cmd.offset_x
    &&& p.offset_y == cmd.offset_y
    &&& p.z_index == cmd.z_index
}

/// A transmitted image is placed at the cursor with the columns and rows that the command gives, and
/// with those that fit it where the command gives none. The cursor moves right by the columns of the
/// placement, as far as the last one, unless the command forbids it. A virtual image is placed
/// nowhere and its extent is kept for the cells that name it.
pub proof fn law_transmitted_images_have_their_extent(
    stored: GridModel,
    at: GridModel,
    cmd: KittyCommand,
    id: u32,
    fitted: (usize, usize),
)
    requires
        at.scrollback.len() + at.cursor.row <= usize::MAX,
        at.cols >= 1,
        stored.placements.len() <= 1024,
    ensures
        ({
            let after = transmit_shown(stored, at, cmd, id, extent(cmd, fitted));
            let p = after.placements.last();
            &&& !cmd.is_virtual ==> {
                &&& after == (GridModel {
                    placements: after.placements,
                    cursor: after.cursor,
                    ..stored
                })
                &&& after.placements.len() > 0
                &&& is_asked_for(p, cmd, id, at)
                &&& cmd.cols is None ==> p.cols == fitted.0
                &&& cmd.rows is None ==> p.rows == fitted.1
                &&& cmd.do_not_move_cursor ==> after.cursor == stored.cursor
                &&& !cmd.do_not_move_cursor ==> after.cursor == (Cursor {
                    col: after.cursor.col,
                    ..stored.cursor
                })
                &&& !cmd.do_not_move_cursor ==> after.cursor.col == (if at.cursor.col + p.cols
                    < at.cols {
                    at.cursor.col + p.cols
                } else {
                    at.cols - 1
                })
            }
            &&& cmd.is_virtual ==> {
                &&& after == (GridModel { virtual_placements: after.virtual_placements, ..stored })
                &&& after.virtual_placements.contains_key(id)
                &&& cmd.cols matches Some(c) ==> after.virtual_placements[id].0 == c
                &&& cmd.rows matches Some(n) ==> after.virtual_placements[id].1 == n
                &&& cmd.cols is None ==> after.virtual_placements[id].0 == fitted.0
                &&& cmd.rows is None ==> after.virtual_placements[id].1 == fitted.1
            }
        }),
{
}

/// A stored image is placed at the cursor with the columns and rows that the command gives, or with
/// one of each; the cursor stays. A command without a number places nothing.
pub proof fn law_placed_images_have_their_extent(g: GridModel, cmd: KittyCommand)
    requires
        g.scrollback.len() + g.cursor.row <= usize::MAX,
    ensures
        ({
            let after = placed_result(g, cmd);
            let p = after.placements.last();
            &&& cmd.image_id is None ==> after == g
            &&& cmd.image_id is Some && g.images.contains_key(cmd.image_id->0) && cmd.is_virtual ==> {
                let id = cmd.image_id->0;
                &&& after == (GridModel { virtual_placements: after.virtual_placements, ..g })
                &&& after.virtual_placements.contains_key(id)
                &&& cmd.cols matches Some(c) ==> after.virtual_placements[id].0 == c
                &&& cmd.rows matches Some(n) ==> after.virtual_placements[id].1 == n
            }
            &&& cmd.image_id is Some && g.images.contains_key(cmd.image_id->0) && !cmd.is_virtual
                ==> {
                &&& after == (GridModel { placements: after.placements, ..g })
                &&& after.placements.len() > 0
                &&& is_asked_for(p, cmd, cmd.image_id->0, g)
                &&& cmd.cols is None ==> p.cols == 1
                &&& cmd.rows is None ==> p.rows == 1
            }
        }),
{
}

/// Answers go to who asked and did not want quiet: a transmission is acknowledged where it gave a
/// number or asked for an answer, a placement where its image is stored.
pub proof fn law_quiet_commands_are_not_answered(g: GridModel, cmd: KittyCommand, id: u32)
    ensures
        cmd.quiet > 0 ==> transmit_answer(cmd, id) is None,
        cmd.quiet == 0 && cmd.id_explicit ==> transmit_answer(cmd, id) == Some(
            response_bytes(id, cmd.placement_id, "OK"@),
        ),
        cmd.quiet == 0 && cmd.action == KittyAction::TransmitAndDisplayWithResponse
            ==> transmit_answer(cmd, id) == Some(response_bytes(id, cmd.placement_id, "OK"@)),
        !cmd.id_explicit && cmd.action == KittyAction::TransmitAndDisplay ==> transmit_answer(
            cmd,
            id,
        ) is None,
        cmd.quiet >= 2 || cmd.image_id is None ==> place_answer(g, cmd) is None,
        cmd.image_id == Some(id) && g.images.contains_key(id) && cmd.quiet == 0 ==> place_answer(
            g,
            cmd,
        ) == Some(response_bytes(id, cmd.placement_id, "OK"@)),
        cmd.image_id == Some(id) && g.images.contains_key(id) && cmd.quiet > 0 ==> place_answer(
            g,
            cmd,
        ) is None,
{
}

/// Events keep their order: an event behind others is the last of the answers or the last of the
/// deferred ones, and changes nothing of those before it.
pub proof fn law_events_keep_their_order(events: Seq<KittyEvent>, e: KittyEvent)
    ensures
        answers(Seq::empty()).len() == 0,
        deferred(Seq::empty()).len() == 0,
        e matches KittyEvent::Response(b) ==> answers(events.push(e)) == answers(events).push(b@)
            && deferred(events.push(e)) == deferred(events),
        !(e is Response) ==> answers(events.push(e)) == answers(events) && deferred(events.push(e))
            == deferred(events).push(e),
{
    assert(events.push(e).drop_last() =~= events);
}

/// The answers among events, in order.
pub open spec fn answers(events: Seq<KittyEvent>) -> Seq<Seq<u8>>
    decreases events.len(),
{
    if events.len() == 0 {
        Seq::empty()
    } else {
        match events.last() {
            KittyEvent::Response(bytes) => answers(events.drop_last()).push(bytes@),
            _ => answers(events.drop_last()),
        }
    }
}

/// The events other than answers, in order.
pub open spec fn deferred(events: Seq<KittyEvent>) -> Seq<KittyEvent>
    decreases events.len(),
{
    if events.len() == 0 {
        Seq::empty()
    } else {
        match events.last() {
            KittyEvent::Response(_) => deferred(events.drop_last()),
            e => deferred(events.drop_last()).push(e),
        }
    }
}

/// What lists of bytes hold.
pub open spec fn byte_lists(v: Seq<Vec<u8>>) -> Seq<Seq<u8>> {
    v.map_values(|b: Vec<u8>| b@)
}

/// Parts events into answers, which go out before the text around them is processed, and events
/// that are handled after it.
pub fn split_events(events: Vec<KittyEvent>) -> (r: (Vec<Vec<u8>>, Vec<KittyEvent>))
    ensures
        byte_lists(r.0@) == answers(events@),
        r.1@ == deferred(events@),
{
    let ghost all = events@;
    let mut rest: Vec<KittyEvent> = events;
    let mut reversed: Vec<KittyEvent> = Vec::new();
    assert(all.take(all.len() as int) =~= all);
    while rest.len() > 0
        invariant
            reversed@.len() + rest@.len() == all.len(),
            rest@ == all.take(rest@.len() as int),
            forall|k: int|
                0 <= k < reversed@.len() ==> #[trigger] reversed@[k] == all[all.len() - 1 - k],
        decreases rest@.len(),
    {
        let ghost before = rest@;
        if let Some(e) = rest.pop() {
            assert(e == all[before.len() - 1]);
            assert(rest@ =~= all.take(before.len() - 1));
            reversed.push(e);
        }
    }
    let mut out: Vec<Vec<u8>> = Vec::new();
    let mut later: Vec<KittyEvent> = Vec::new();
    assert(all.take(0) =~= Seq::<KittyEvent>::empty());
    assert(byte_lists(out@) =~= Seq::<Seq<u8>>::empty());
    while reversed.len() > 0
        invariant
            reversed@.len() <= all.len(),
            forall|k: int|
                0 <= k < reversed@.len() ==> #[trigger] reversed@[k] == all[all.len() - 1 - k],
            byte_lists(out@) == answers(all.take(all.len() - reversed@.len())),
            later@ == deferred(all.take(all.len() - reversed@.len())),
        decreases reversed@.len(),
    {
        let ghost n = all.len() - reversed@.len();
        if let Some(e) = reversed.pop() {
            assert(e == all[n]);
            assert(all.take(n + 1).drop_last() =~= all.take(n));
            assert(all.take(n + 1).last() == e);
            let ghost before = byte_lists(out@);
            match e {
                KittyEvent::Response(bytes) => {
                    let ghost b = bytes@;
                    out.push(bytes);
                    assert(byte_lists(out@) =~= before.push(b));
                },
                other => {
                    later.push(other);
                },
            }
        }
    }
    assert(all.take(all.len() as int) =~= all);
    (out, later)
}

/// Brings the viewport back to the screen after output, where that is wanted and the primary screen
/// is shown.
pub fn follow_output(grid: &mut Grid, auto_scroll: bool)
    ensures
        final(grid)@ == (if auto_scroll && old(grid)@.alt_lines is None {
            old(grid)@.viewing(0)
        } else {
            old(grid)@
        }),
{
    if auto_scroll && !grid.is_alt_screen() {
        grid.scroll_viewport_bottom();
    }
}

} // verus!
