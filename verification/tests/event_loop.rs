//! What the event loop decides.

use ftty::color::Color;
use ftty::config::Config;
use ftty::event_loop::actions::{
    apply_reload, check_reload, decide_pipe, focus_report, handle_key, handle_key_action,
    ime_bytes, ActionRequest, FontChange, FontUpdate, KeyOutcome, PipeDecision, PipeSource,
    ReloadCheck,
};
use ftty::event_loop::clipboard::{
    best_text_mime, paste_payload, route_paste, Offers, PasteRoute,
};
use ftty::event_loop::geometry::{
    cell_at_pointer, configured_size, initial_window_size, resize_terminal,
};
use ftty::event_loop::kitty::{follow_output, handle_kitty_event, split_events};
use ftty::event_loop::pointer::{
    hover_span, reports_pointer, wheel, x11_button_index, HoveredHyperlinkSpan, PointerShape,
    PointerState, PressOutcome, PressPlace, SelectionPoint, SelectionType, WheelAction,
};
use ftty::event_loop::tick::{
    dispatch_timeout, may_write, on_read, on_signal, on_write, should_register_pty, FrameState,
    LoopSignal, PendingConfigure, ReadEvent, ReadStep, SignalAction, SyncTracker, WriteEvent,
    WriteStep,
};
use ftty::event_loop::{saturating_u16, terminal_size};
use ftty::font::CellMetrics;
use ftty::grid::{CellFlags, CursorShape, Grid, Row};
use ftty::input::{
    Binding, KeyAction, KeyReading, KeySymbol, KeyboardHandler, Modifiers,
};
use ftty::kitty::{KittyEvent, KittyParser};

fn dimensions() {
    let metrics = CellMetrics {
        cell_width: 9,
        cell_height: 18,
        ascent: 14,
    };
    assert_eq!(terminal_size([720, 480], metrics, [0, 0]), (80, 26));
    assert_eq!(terminal_size([720, 480], metrics, [18, 18]), (76, 24));
    assert_eq!(terminal_size([1, 1], metrics, [0, 0]), (1, 1));
    assert_eq!(
        terminal_size([u32::MAX, u32::MAX], metrics, [0, 0]),
        (u16::MAX, u16::MAX)
    );
}

#[test]
fn event_loop_terminal_dimensions_use_metrics_and_fit_the_pty() {
    dimensions();
}

#[test]
fn tests_terminal_dimensions_use_metrics_and_fit_the_pty() {
    dimensions();
}

fn buttons() {
    assert_eq!(x11_button_index(0x110), Some(0));
    assert_eq!(x11_button_index(0x111), Some(1));
    assert_eq!(x11_button_index(0x112), Some(2));
    assert_eq!(x11_button_index(0x113), None);
}

#[test]
fn event_loop_x11_buttons_map_to_protocol_indexes() {
    buttons();
}

#[test]
fn tests_x11_buttons_map_to_protocol_indexes() {
    buttons();
}

fn filled_grid() -> Grid {
    let mut grid = Grid::new(80, 24, 100);
    for _ in 0..50 {
        grid.write_char(
            'A',
            Color::DefaultForeground,
            Color::DefaultBackground,
            CellFlags::empty(),
        );
        grid.newline();
    }
    grid
}

fn scrolling_and_zoom() {
    let mut grid = filled_grid();
    assert_eq!(grid.viewport_offset(), 0);

    // Page Up
    let r = handle_key_action(&mut grid, KeyAction::ScrollbackUpPage);
    assert!(matches!(r, ActionRequest::Redraw));
    assert_eq!(grid.viewport_offset(), 24);

    // Scroll to Top
    handle_key_action(&mut grid, KeyAction::ScrollbackHome);
    assert_eq!(grid.viewport_offset(), grid.scrollback.len());

    // Line Down
    let top = grid.viewport_offset();
    handle_key_action(&mut grid, KeyAction::ScrollbackDownLine);
    assert_eq!(grid.viewport_offset(), top - 1);

    // Scroll to Bottom
    handle_key_action(&mut grid, KeyAction::ScrollbackEnd);
    assert_eq!(grid.viewport_offset(), 0);

    // Font zoom actions
    for (action, change) in [
        (KeyAction::FontIncrease, FontChange::Increase),
        (KeyAction::FontDecrease, FontChange::Decrease),
        (KeyAction::FontReset, FontChange::Reset),
    ] {
        match handle_key_action(&mut grid, action) {
            ActionRequest::Font(c) => assert_eq!(c, change),
            other => panic!("unexpected {other:?}"),
        }
    }
}

#[test]
fn event_loop_test_handle_key_actions_scrolling_and_zoom() {
    scrolling_and_zoom();
}

#[test]
fn tests_test_handle_key_actions_scrolling_and_zoom() {
    scrolling_and_zoom();
}

#[test]
fn other_actions_are_handed_on() {
    let mut grid = filled_grid();
    let cmd = vec!["cat".to_string()];
    match handle_key_action(&mut grid, KeyAction::PipeScrollback(cmd.clone())) {
        ActionRequest::Pipe(PipeSource::Scrollback, c) => assert_eq!(c, cmd),
        other => panic!("unexpected {other:?}"),
    }
    assert!(matches!(
        handle_key_action(&mut grid, KeyAction::PrimaryPaste),
        ActionRequest::Paste
    ));
    assert_eq!(grid.viewport_offset(), 0);
}

#[test]
fn commands_are_limited() {
    let cmd = vec!["cat".to_string()];
    let none: Vec<String> = Vec::new();
    assert_eq!(decide_pipe(PipeSource::Visible, &none, false, 0), PipeDecision::Ignore);
    assert_eq!(decide_pipe(PipeSource::Visible, &cmd, true, 7), PipeDecision::Spawn);
    assert_eq!(decide_pipe(PipeSource::Visible, &cmd, false, 8), PipeDecision::Refuse);
    assert_eq!(decide_pipe(PipeSource::Selection, &cmd, true, 0), PipeDecision::Ignore);
}

fn reload_state() {
    let mut grid = Grid::new(80, 24, 100);
    for _ in 0..10 {
        grid.scrollback.push_back(Row::new(80));
    }
    let mut current = Config::default();
    current.font.size = Some(14.0f32.to_bits());
    current.scrollback.lines = Some(100);
    current.cursor.shape = Some(CursorShape::Block);
    let mut new = Config::default();
    new.font.size = Some(0.0f32.to_bits());
    new.scrollback.lines = Some(2);
    new.cursor.shape = Some(CursorShape::Underline);

    // An invalid size is refused before anything is applied.
    assert_eq!(check_reload(&current, &new, true), ReloadCheck::InvalidSize);
    assert_eq!(grid.scrollback.len(), 10);
    assert_eq!(grid.max_scrollback, 100);
    assert_eq!(grid.cursor.shape, CursorShape::Block);

    // With a valid size everything is applied.
    new.font.size = Some(15.0f32.to_bits());
    assert_eq!(check_reload(&current, &new, true), ReloadCheck::Ready);
    let update = apply_reload(&mut grid, &current, &new, true, false);
    assert_eq!(update, FontUpdate::Rescale);
    assert_eq!(grid.scrollback.len(), 2);
    assert_eq!(grid.max_scrollback, 2);
    assert_eq!(grid.cursor.shape, CursorShape::Underline);
}

#[test]
fn event_loop_test_failed_reload_preserves_state() {
    reload_state();
}

#[test]
fn tests_test_failed_reload_preserves_state() {
    reload_state();
}

#[test]
fn reloads_change_only_what_differs() {
    let mut grid = Grid::new(80, 24, 100);
    let current = Config::default();
    let mut new = Config::default();
    assert_eq!(
        apply_reload(&mut grid, &current, &new, false, false),
        FontUpdate::Nothing
    );
    new.window.padding = Some(ftty::config::Padding::Axes([20, 20]));
    assert_eq!(
        apply_reload(&mut grid, &current, &new, false, false),
        FontUpdate::Relayout
    );
    new.font.family = Some(ftty::config::FontFamilies::Single("Mono".to_string()));
    assert_eq!(check_reload(&current, &new, false), ReloadCheck::LoadFonts);
    assert_eq!(
        apply_reload(&mut grid, &current, &new, false, true),
        FontUpdate::Replace
    );
}

#[test]
fn windows_show_the_terminal_they_were_opened_for() {
    let metrics = CellMetrics {
        cell_width: 9,
        cell_height: 18,
        ascent: 14,
    };
    let size = initial_window_size(80, 24, metrics, [4, 6]);
    assert_eq!(size, [80 * 9 + 8, 24 * 18 + 12]);
    assert_eq!(terminal_size(size, metrics, [4, 6]), (80, 24));
    assert_eq!(initial_window_size(1, 1, metrics, [0, 0]), [100, 100]);

    let mut grid = Grid::new(80, 24, 100);
    let g = resize_terminal(&mut grid, [720, 480], metrics, [18, 18]);
    assert_eq!((g.cols, g.rows), (76, 24));
    assert_eq!((g.cell_width, g.cell_height), (9, 18));
    assert_eq!((g.viewport_width, g.viewport_height), (684, 444));
    assert_eq!((grid.cols, grid.rows), (76, 24));

    assert_eq!(configured_size([5, 6], 0, -1), [5, 6]);
    assert_eq!(configured_size([5, 6], 7, 0), [7, 6]);
    assert_eq!(saturating_u16(70000), u16::MAX);
}

#[test]
fn cells_under_the_pointer_are_counted_from_the_oldest_row() {
    let mut grid = filled_grid();
    let history = grid.scrollback.len();
    assert_eq!(cell_at_pointer(&grid, 3, 5), (history + 3, 3, 5));
    assert_eq!(cell_at_pointer(&grid, 999, 999), (history + 23, 23, 79));
    grid.scroll_viewport_up(4);
    assert_eq!(cell_at_pointer(&grid, 3, 5), (history - 1, 3, 5));
}

/// A pointer whose hovered cells come from the first row of a grid.
fn hover(p: &mut PointerState, grid: &Grid, col: usize) {
    let known = grid.lines[0].cells[col].hyperlink == 1;
    p.update_hover_state(hover_span(&grid.lines[0], 0, col, known, false), false);
}

fn hover_and_shape() {
    let mut grid = Grid::new(80, 24, 100);
    for col in 4..=6 {
        grid.lines[0].cells[col].set_hyperlink_id(Some(1));
    }
    grid.lines[0].cells[8].set_hyperlink_id(Some(0));
    let span = Some(HoveredHyperlinkSpan {
        line: 0,
        start_col: 4,
        end_col: 6,
    });

    // If pointer is not in surface, hover must be None
    let mut p = PointerState::new();
    hover(&mut p, &grid, 5);
    assert_eq!(p.hovered, None);

    // Enter surface; the first cell has no hyperlink
    p.in_surface = true;
    hover(&mut p, &grid, 0);
    assert_eq!(p.hovered, None);

    // Over column 5 the span [4..=6] is found
    p.needs_redraw = false;
    hover(&mut p, &grid, 5);
    assert_eq!(p.hovered, span);
    assert!(p.needs_redraw);

    // The sentinel id 0 produces no hover
    p.needs_redraw = false;
    hover(&mut p, &grid, 8);
    assert_eq!(p.hovered, None);
    assert!(p.needs_redraw);

    hover(&mut p, &grid, 5);
    assert!(p.hovered.is_some());

    // If mouse is pressed (dragging selection), hover is suppressed
    p.pressed = true;
    p.needs_redraw = false;
    hover(&mut p, &grid, 5);
    assert_eq!(p.hovered, None);
    assert!(p.needs_redraw);

    // When mouse is released, hover is restored
    p.pressed = false;
    hover(&mut p, &grid, 5);
    assert_eq!(p.hovered, span);
}

#[test]
fn event_loop_test_update_hover_state_and_pointer_shape() {
    hover_and_shape();
}

#[test]
fn tests_test_update_hover_state_and_pointer_shape() {
    hover_and_shape();
}

#[test]
fn test_plaintext_url_hover_with_ctrl() {
    let mut grid = Grid::new(80, 24, 100);
    let url = "https://github.com/xifan2333/ftty";
    for (i, c) in format!("Open {url} now!").chars().enumerate() {
        grid.lines[0].cells[i].c = c;
    }
    let row = &grid.lines[0];

    // Without Ctrl: no hover span
    assert_eq!(hover_span(row, 0, 10, false, false), None);

    // With Ctrl held: hover span detected!
    assert_eq!(
        hover_span(row, 0, 10, false, true),
        Some(HoveredHyperlinkSpan {
            line: 0,
            start_col: 5,
            end_col: 37,
        })
    );

    // Beside the address there is none.
    assert_eq!(hover_span(row, 0, 2, false, true), None);
    assert_eq!(hover_span(row, 0, 38, false, true), None);
    assert_eq!(hover_span(row, 0, 100, false, true), None);
}

#[test]
fn the_shape_follows_the_link() {
    let mut p = PointerState::new();
    assert_eq!(p.enter(7, None, true), Some(PointerShape::Text));
    let span = Some(HoveredHyperlinkSpan {
        line: 0,
        start_col: 1,
        end_col: 2,
    });
    assert_eq!(p.update_hover_state(span, true), Some(PointerShape::Pointer));
    assert_eq!(p.update_hover_state(span, true), None);
    p.leave();
    assert_eq!((p.hovered, p.shape, p.in_surface), (None, None, false));
    p.in_surface = true;
    assert_eq!(p.device_ready(), Some(PointerShape::Text));
}

fn place(line: usize, col: usize) -> PressPlace {
    PressPlace {
        line,
        col,
        word: (2, 6),
        last_col: 79,
        link: false,
    }
}

#[test]
fn clicks_select_cells_words_and_lines() {
    let mut p = PointerState::new();
    for (time, count, start, end, kind) in [
        (1000, 1, 4, 4, SelectionType::Simple),
        (1200, 2, 2, 6, SelectionType::Word),
        (1400, 3, 0, 79, SelectionType::Line),
        (1600, 1, 4, 4, SelectionType::Simple),
        (1950, 1, 4, 4, SelectionType::Simple),
    ] {
        assert_eq!(p.press(0x110, false, false, time, place(3, 4)), PressOutcome::Select);
        assert_eq!(p.click_count, count);
        assert_eq!(p.selection.start, SelectionPoint::new(3, start));
        assert_eq!(p.selection.end, SelectionPoint::new(3, end));
        assert_eq!(p.selection.kind, kind);
        assert!(p.pressed);
        assert_eq!(p.release(0x110), None);
        assert!(!p.pressed);
    }
    // Another cell begins anew.
    p.press(0x110, false, false, 1960, place(3, 5));
    assert_eq!(p.click_count, 1);
    p.motion(false, 8, 9);
    assert_eq!(p.selection.end, SelectionPoint::new(8, 9));
    p.motion(true, 1, 1);
    assert_eq!(p.selection.end, SelectionPoint::new(8, 9));
}

#[test]
fn reported_presses_are_released_again() {
    let mut p = PointerState::new();
    assert_eq!(p.motion_button(), 3);
    assert_eq!(p.press(0x112, true, false, 0, place(0, 0)), PressOutcome::Reported);
    assert_eq!((p.buttons_held, p.reported, p.button), (4, true, 2));
    assert_eq!(p.press(0x110, true, false, 0, place(0, 0)), PressOutcome::Reported);
    assert_eq!(p.motion_button(), 0);
    assert!(p.is_dragging());
    assert_eq!(p.release(0x110), Some(0));
    assert_eq!((p.buttons_held, p.reported), (4, true));
    assert_eq!(p.release(0x112), Some(2));
    assert_eq!((p.buttons_held, p.reported), (0, false));
    assert_eq!(p.release(0x112), None);
    assert!(!p.pressed);
}

#[test]
fn other_presses() {
    let mut p = PointerState::new();
    let linked = PressPlace {
        link: true,
        ..place(1, 2)
    };
    assert_eq!(p.press(0x111, false, false, 0, linked), PressOutcome::Paste);
    assert_eq!(p.press(0x112, false, false, 0, linked), PressOutcome::Nothing);
    assert_eq!(p.press(0x110, false, true, 0, linked), PressOutcome::OpenLink);
    assert_eq!(p.press(0x115, true, false, 0, linked), PressOutcome::Nothing);
    assert_eq!(p, PointerState::new());
}

#[test]
fn pointer_reports_yield_to_shift() {
    assert!(!reports_pointer(false, false, true));
    assert!(reports_pointer(true, false, true));
    assert!(!reports_pointer(true, true, true));
    assert!(reports_pointer(true, true, false));
}

#[test]
fn the_wheel_reports_sends_or_scrolls() {
    assert_eq!(wheel(0, true, false, true), WheelAction::Nothing);
    assert_eq!(
        wheel(-3, true, false, true),
        WheelAction::Report { button: 64, count: 3 }
    );
    assert_eq!(
        wheel(i32::MIN, true, false, false),
        WheelAction::Report { button: 64, count: 100 }
    );
    assert_eq!(
        wheel(2, true, true, true),
        WheelAction::Send(b"\x1b[B\x1b[B".to_vec())
    );
    assert_eq!(wheel(-1, false, false, true), WheelAction::Send(b"\x1b[A".to_vec()));
    assert_eq!(wheel(-5, false, false, false), WheelAction::ScrollUp(5));
    assert_eq!(wheel(500, false, false, false), WheelAction::ScrollDown(100));
}

#[test]
fn keys_are_shortcuts_or_go_to_the_program() {
    let keyboard = KeyboardHandler::new();
    let mods = Modifiers::default();
    let reading = KeyReading {
        symbol: KeySymbol { sym: 0x61, code: 0x61 },
        text: "a".to_string(),
        mods,
    };
    let bindings = vec![Binding {
        mods,
        symbol: reading.symbol,
        action: KeyAction::ScrollbackHome,
    }];
    let mut grid = filled_grid();
    grid.scroll_viewport_up(5);
    let r = handle_key(&mut grid, &keyboard, Some(&reading), true, &bindings, true);
    assert!(matches!(r, KeyOutcome::Action(KeyAction::ScrollbackHome)));
    assert_eq!(grid.viewport_offset(), 5);

    let none = Vec::new();
    match handle_key(&mut grid, &keyboard, Some(&reading), true, &none, false) {
        KeyOutcome::Send(b) => assert_eq!(b, b"a"),
        other => panic!("unexpected {other:?}"),
    }
    assert_eq!(grid.viewport_offset(), 5);
    handle_key(&mut grid, &keyboard, Some(&reading), true, &none, true);
    assert_eq!(grid.viewport_offset(), 0);
    let r = handle_key(&mut grid, &keyboard, Some(&reading), false, &bindings, true);
    assert!(matches!(r, KeyOutcome::Nothing));
}

#[test]
fn programs_learn_of_focus_and_input_methods() {
    assert_eq!(focus_report(true, true), b"\x1b[I");
    assert_eq!(focus_report(true, false), b"\x1b[O");
    assert!(focus_report(false, true).is_empty());
    assert_eq!(
        ime_bytes(2, 1, Some("\u{4e2d}")),
        [b"\x08\x08\x1b[3~".to_vec(), "\u{4e2d}".as_bytes().to_vec()].concat()
    );
    assert!(ime_bytes(0, 0, None).is_empty());
}

#[test]
fn pastes_are_marked_and_routed() {
    assert_eq!(paste_payload(b"hi".to_vec(), false), b"hi");
    assert_eq!(paste_payload(b"hi".to_vec(), true), b"\x1b[200~hi\x1b[201~");
    assert_eq!(
        route_paste(vec![1; 4096], false),
        PasteRoute::Direct(vec![1; 4096])
    );
    assert_eq!(
        route_paste(vec![1; 5000], true),
        PasteRoute::Background(vec![1; 5000])
    );
    assert_eq!(
        route_paste(vec![1; 5000], false),
        PasteRoute::Direct(vec![1; 4096])
    );
}

#[test]
fn the_best_text_is_chosen() {
    let mimes = |v: &[&str]| v.iter().map(|s| s.to_string()).collect::<Vec<_>>();
    assert_eq!(
        best_text_mime(&mimes(&["UTF8_STRING", "text/plain", "text/plain;charset=utf-8"])),
        Some("text/plain;charset=utf-8")
    );
    assert_eq!(
        best_text_mime(&mimes(&["UTF8_STRING", "text/plain"])),
        Some("text/plain")
    );
    assert_eq!(best_text_mime(&mimes(&["image/png"])), None);
}

#[test]
fn clipboard_offer_is_created_and_dispatched_from_the_wire() {
    let mut offers = Offers::new();
    offers.announce(7);
    offers.add_mime(7, "text/plain;charset=utf-8".to_string());
    offers.select(Some(7));
    let current = offers.current.clone().unwrap();
    assert_eq!(current.offer, 7);
    assert_eq!(current.mime_types, ["text/plain;charset=utf-8"]);
    assert!(offers.pending.is_empty());

    // Types of the clipboard can still come in.
    offers.add_mime(7, "text/plain".to_string());
    offers.add_mime(9, "image/png".to_string());
    assert_eq!(offers.current.as_ref().unwrap().mime_types.len(), 2);

    // Only the newest offers are remembered.
    for id in 10..16 {
        offers.announce(id);
    }
    let ids: Vec<u32> = offers.pending.iter().map(|o| o.offer).collect();
    assert_eq!(ids, [12, 13, 14, 15]);
    offers.select(Some(12));
    let ids: Vec<u32> = offers.pending.iter().map(|o| o.offer).collect();
    assert_eq!(ids, [15, 13, 14]);
    offers.select(None);
    assert!(offers.current.is_none() && offers.pending.is_empty());
}

#[test]
fn test_pty_registration_guarded_by_wayland_configured() {
    // Unmapped or initializing: must reject registration
    assert!(!should_register_pty(false, false));
    // Configured: must accept registration
    assert!(should_register_pty(false, true));
    // Once registered: must not register a second time
    assert!(!should_register_pty(true, true));
}

#[test]
fn signals_reads_and_writes() {
    assert_eq!(on_signal(LoopSignal::ChildChanged, true), SignalAction::Nothing);
    assert_eq!(on_signal(LoopSignal::ChildChanged, false), SignalAction::Stop);
    assert_eq!(on_signal(LoopSignal::Interrupt, true), SignalAction::Stop);
    assert_eq!(on_signal(LoopSignal::Terminate, true), SignalAction::Stop);
    assert_eq!(on_signal(LoopSignal::User1, true), SignalAction::ReloadConfig);
    assert_eq!(on_signal(LoopSignal::Other, false), SignalAction::Nothing);

    assert_eq!(on_read(10, ReadEvent::Bytes(5)), (15, ReadStep::Continue));
    assert_eq!(on_read(65535, ReadEvent::Bytes(1)), (65536, ReadStep::Pause));
    assert_eq!(on_read(10, ReadEvent::Bytes(0)), (10, ReadStep::Stop));
    assert_eq!(on_read(10, ReadEvent::WouldBlock), (10, ReadStep::Wait));
    assert_eq!(on_read(10, ReadEvent::Failed), (10, ReadStep::Stop));

    assert_eq!(on_write(WriteEvent::Wrote(3)), WriteStep::Advance(3));
    assert_eq!(on_write(WriteEvent::Wrote(0)), WriteStep::Stop);
    assert_eq!(on_write(WriteEvent::Interrupted), WriteStep::Retry);
    assert_eq!(on_write(WriteEvent::WouldBlock), WriteStep::Wait);
    assert_eq!(on_write(WriteEvent::Failed), WriteStep::Stop);
    assert!(may_write(1, 99) && !may_write(0, 0) && !may_write(1, 100));
    assert_eq!(dispatch_timeout(true), Some(50));
    assert_eq!(dispatch_timeout(false), None);
}

#[test]
fn frames_are_not_held_back_forever() {
    let mut t = SyncTracker::new();
    assert!(t.turn(1, true, 1000));
    assert!(t.turn(1, true, 1150));
    assert!(!t.turn(1, true, 1151));
    // A new request begins anew, and so does the same one after it was overruled.
    assert!(t.turn(2, true, 2000));
    assert!(!t.turn(2, false, 2001));
    assert_eq!(t.start, None);
    assert!(t.turn(2, true, 9000));
}

#[test]
fn frames_are_drawn_when_nothing_holds_them() {
    let ready = FrameState {
        needs_redraw: true,
        sync_active: false,
        frame_pending: false,
        has_renderer: true,
    };
    assert!(ready.draws());
    assert!(!FrameState { sync_active: true, ..ready }.draws());
    assert!(!FrameState { frame_pending: true, ..ready }.draws());
    let blind = FrameState {
        has_renderer: false,
        ..ready
    };
    assert!(blind.refreshes_hover() && !blind.draws());
}

#[test]
fn bursts_of_sizes_collapse() {
    let mut c = PendingConfigure::new();
    c.propose([1, 2]);
    assert_eq!(c.apply([9, 9]), None);
    c.configure();
    c.propose([3, 4]);
    c.configure();
    assert_eq!(c.apply([9, 9]), Some([3, 4]));
    assert_eq!(c.apply([9, 9]), None);
    c.configure();
    assert_eq!(c.apply([9, 9]), Some([9, 9]));
}

/// The events of a stream.
fn events(stream: &[u8]) -> Vec<KittyEvent> {
    KittyParser::new().filter_bytes(stream).1
}

#[test]
fn transmitted_images_are_shown_at_the_cursor_and_answered() {
    let mut grid = Grid::new(10, 4, 100);
    grid.cursor.row = 1;
    grid.cursor.col = 2;
    let mut seen = events(b"\x1b_Ga=T,f=32,s=1,v=1,i=5,p=3;AAAAAA==\x1b\\");
    let answer = handle_kitty_event(&mut grid, seen.remove(0), (4, 2));
    assert_eq!(answer, Some(b"\x1b_Gi=5,p=3;OK\x1b\\".to_vec()));
    assert!(grid.images.contains_key(&5));
    let p = &grid.placements[0];
    assert_eq!((p.image_id, p.placement_id), (5, 3));
    assert_eq!((p.line, p.col, p.cols, p.rows), (1, 2, 4, 2));
    assert_eq!(grid.cursor.col, 6);

    // A placement of a stored image.
    let mut seen = events(b"\x1b_Ga=p,i=5,p=9,c=3,q=1;\x1b\\");
    assert_eq!(handle_kitty_event(&mut grid, seen.remove(0), (1, 1)), None);
    assert_eq!(grid.placements.len(), 2);
    assert_eq!(grid.cursor.col, 6);

    // An unknown image is refused.
    let mut seen = events(b"\x1b_Ga=p,i=77;\x1b\\");
    let answer = handle_kitty_event(&mut grid, seen.remove(0), (1, 1));
    assert_eq!(answer, Some(b"\x1b_Gi=77;ENOENT:image not found\x1b\\".to_vec()));
    assert_eq!(grid.placements.len(), 2);

    // Deleting forgets it.
    let mut seen = events(b"\x1b_Ga=d,d=A;\x1b\\");
    handle_kitty_event(&mut grid, seen.remove(0), (1, 1));
    assert!(grid.placements.is_empty());
}

#[test]
fn answers_come_before_the_rest() {
    let stream = b"\x1b_Ga=T,f=32,s=1,v=1,i=5;AAAAAA==\x1b\\\x1b_Gi=42,a=q;\x1b\\";
    let (answers, rest) = split_events(events(stream));
    assert_eq!(answers, vec![b"\x1b_Gi=42;OK\x1b\\".to_vec()]);
    assert_eq!(rest.len(), 1);
    assert!(matches!(rest[0], KittyEvent::Transmit { .. }));
}

#[test]
fn output_brings_the_viewport_back() {
    let mut grid = filled_grid();
    grid.scroll_viewport_up(5);
    follow_output(&mut grid, false);
    assert_eq!(grid.viewport_offset(), 5);
    follow_output(&mut grid, true);
    assert_eq!(grid.viewport_offset(), 0);
}
