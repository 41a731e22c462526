//! The pointer: buttons, clicks, selections, hovered links and the wheel.

use crate::event_loop::actions::{push_repeated, repeated};
use crate::grid::row::{Cell, Row};
use crate::text::{chars_of, is_white_space, white_space};
use vstd::prelude::*;
use vstd::std_specs::bits::u8_trailing_zeros;

verus! {

/// How long after a click the next one on the same cell counts with it, in milliseconds.
pub const MULTI_CLICK_MS: u32 = 350;

/// How many steps of the wheel one event can make.
pub const MAX_WHEEL_STEPS: u32 = 100;

/// Maps a Linux input button code to the X11 mouse button index used on the wire.
pub fn x11_button_index(button: u32) -> (r: Option<u8>)
    ensures
        r == button_index(button),
{
    match button {
        0x110 => Some(0),
        0x111 => Some(1),
        0x112 => Some(2),
        _ => None,
    }
}

/// The number of the left, the middle and the right button.
pub open spec fn button_index(button: u32) -> Option<u8> {
    if button == 0x110 {
        Some(0)
    } else if button == 0x111 {
        Some(1)
    } else if button == 0x112 {
        Some(2)
    } else {
        None
    }
}

/// A cell by its line, counted from the oldest row of the history, and its column.
#[derive(Debug, Clone, Copy, PartialEq, Eq, Structural)]
pub struct SelectionPoint {
    pub line: usize,
    pub col: usize,
}

impl SelectionPoint {
    pub fn new(line: usize, col: usize) -> (r: Self)
        ensures
            r == (SelectionPoint { line, col }),
    {
        SelectionPoint { line, col }
    }
}

/// What a selection grows by.
#[derive(Debug, Clone, Copy, PartialEq, Eq, Structural)]
pub enum SelectionType {
    Simple,
    Word,
    Line,
}

/// Selected text: from one cell to another.
#[derive(Debug, Clone, Copy, PartialEq, Eq, Structural)]
pub struct Selection {
    pub start: SelectionPoint,
    pub end: SelectionPoint,
    pub kind: SelectionType,
}

impl Selection {
    pub fn new(start: SelectionPoint, end: SelectionPoint, kind: SelectionType) -> (r: Self)
        ensures
            r == (Selection { start, end, kind }),
    {
        Selection { start, end, kind }
    }
}

/// The cells of a link under the pointer.
#[derive(Debug, Clone, Copy, PartialEq, Eq, Structural)]
pub struct HoveredHyperlinkSpan {
    pub line: usize,
    pub start_col: usize,
    pub end_col: usize,
}

/// The shapes of the pointer.
#[derive(Debug, Clone, Copy, PartialEq, Eq, Structural)]
pub enum PointerShape {
    Pointer,
    Text,
}

/// The longest run of cells around a column that all belong to the link of that column.
pub open spec fn link_run(cells: Seq<Cell>, col: int, start: int, end: int) -> bool {
    &&& 0 <= start <= col <= end < cells.len()
    &&& forall|i: int| start <= i <= end ==> (#[trigger] cells[i]).hyperlink == cells[col].hyperlink
    &&& start > 0 ==> cells[start - 1].hyperlink != cells[col].hyperlink
    &&& end + 1 < cells.len() ==> cells[end + 1].hyperlink != cells[col].hyperlink
}

/// There is only one such run.
pub proof fn law_link_runs_are_unique(
    cells: Seq<Cell>,
    col: int,
    start: int,
    end: int,
    start2: int,
    end2: int,
)
    requires
        link_run(cells, col, start, end),
        link_run(cells, col, start2, end2),
    ensures
        start == start2,
        end == end2,
{
    if start < start2 {
        assert(cells[start2 - 1].hyperlink == cells[col].hyperlink);
    }
    if start2 < start {
        assert(cells[start - 1].hyperlink == cells[col].hyperlink);
    }
    if end < end2 {
        assert(cells[end + 1].hyperlink == cells[col].hyperlink);
    }
    if end2 < end {
        assert(cells[end2 + 1].hyperlink == cells[col].hyperlink);
    }
}

/// The number of the link at a column of a row.
pub fn link_at(row: &Row, col: usize) -> (r: Option<u32>)
    ensures
        r == (if col < row.cells@.len() && row.cells@[col as int].hyperlink != 0 {
            Some(row.cells@[col as int].hyperlink)
        } else {
            None
        }),
{
    if col < row.cells.len() {
        row.cells[col].hyperlink_id()
    } else {
        None
    }
}

/// Finds the cells of the link at a column of a row. `known` says that the link leads somewhere.
pub fn link_span(row: &Row, line: usize, col: usize, known: bool) -> (r: Option<
    HoveredHyperlinkSpan,
>)
    ensures
        match r {
            Some(s) => {
                &&& known && col < row.cells@.len() && row.cells@[col as int].hyperlink != 0
                &&& s.line == line
                &&& link_run(row.cells@, col as int, s.start_col as int, s.end_col as int)
            },
            None => !(known && col < row.cells@.len() && row.cells@[col as int].hyperlink != 0),
        },
{
    if !known || col >= row.cells.len() || row.cells[col].hyperlink == 0 {
        return None;
    }
    let id: u32 = row.cells[col].hyperlink;
    let total: usize = row.cells.len();
    let mut start: usize = col;
    while start > 0 && row.cells[start - 1].hyperlink == id
        invariant
            start <= col < total,
            total == row.cells@.len(),
            forall|i: int| start <= i <= col ==> (#[trigger] row.cells@[i]).hyperlink == id,
            id == row.cells@[col as int].hyperlink,
        decreases start,
    {
        start -= 1;
    }
    let mut end: usize = col;
    while end + 1 < total && row.cells[end + 1].hyperlink == id
        invariant
            start <= col <= end < total,
            total == row.cells@.len(),
            forall|i: int| start <= i <= end ==> (#[trigger] row.cells@[i]).hyperlink == id,
            id == row.cells@[col as int].hyperlink,
        decreases total - end,
    {
        end += 1;
    }
    Some(HoveredHyperlinkSpan { line, start_col: start, end_col: end })
}

/// Whether a cell parts words.
pub open spec fn parts_words(cell: Cell) -> bool {
    white_space(cell.c)
}

/// Whether the cells from a column on spell a text.
pub open spec fn spells_at(cells: Seq<Cell>, col: int, text: Seq<char>) -> bool {
    &&& col + text.len() <= cells.len()
    &&& forall|k: int| 0 <= k < text.len() ==> (#[trigger] cells[col + k]).c == text[k]
}

/// Whether an address begins at a column.
pub open spec fn address_at(cells: Seq<Cell>, col: int) -> bool {
    spells_at(cells, col, "http://"@) || spells_at(cells, col, "https://"@)
}

/// Whether no cell from a column up to another parts words.
pub open spec fn solid(cells: Seq<Cell>, from: int, to: int) -> bool {
    forall|i: int| from <= i < to ==> !parts_words(#[trigger] cells[i])
}

/// The address around a column: it begins with its scheme, runs to the end of the word, and is no
/// part of another address in that word.
pub open spec fn address_run(cells: Seq<Cell>, col: int, start: int, end: int) -> bool {
    &&& 0 <= start <= col <= end < cells.len()
    &&& address_at(cells, start)
    &&& solid(cells, start, end + 1)
    &&& end + 1 < cells.len() ==> parts_words(cells[end + 1])
    &&& forall|i: int|
        0 <= i < start && #[trigger] address_at(cells, i) ==> !solid(cells, i, start)
}

/// Tells whether the cells from a column on spell a text.
fn spelled(row: &Row, col: usize, text: &str) -> (r: bool)
    requires
        col < row.cells@.len(),
    ensures
        r == spells_at(row.cells@, col as int, text@),
{
    let chars: Vec<char> = chars_of(text);
    let total: usize = row.cells.len();
    let n: usize = chars.len();
    if n > total - col {
        return false;
    }
    let mut k: usize = 0;
    while k < n
        invariant
            k <= n,
            n == chars@.len(),
            chars@ == text@,
            col + n <= total,
            total == row.cells@.len(),
            forall|j: int| 0 <= j < k ==> (#[trigger] row.cells@[col + j]).c == text@[j],
        decreases n - k,
    {
        if row.cells[col + k].c != chars[k] {
            assert(row.cells@[col + k].c != text@[k as int]);
            return false;
        }
        k += 1;
    }
    true
}

/// Finds the address that is written out around a column of a row.
pub fn address_span(row: &Row, line: usize, col: usize) -> (r: Option<HoveredHyperlinkSpan>)
    ensures
        match r {
            Some(s) => s.line == line && address_run(
                row.cells@,
                col as int,
                s.start_col as int,
                s.end_col as int,
            ),
            None => forall|start: int, end: int|
                !#[trigger] address_run(row.cells@, col as int, start, end),
        },
{
    let ghost cells = row.cells@;
    let total: usize = row.cells.len();
    if col >= total {
        return None;
    }
    if is_white_space(row.cells[col].c) {
        assert(parts_words(cells[col as int]));
        return None;
    }
    let mut first: usize = col;
    while first > 0 && !is_white_space(row.cells[first - 1].c)
        invariant
            first <= col < total,
            total == row.cells@.len(),
            solid(row.cells@, first as int, col + 1),
        decreases first,
    {
        first -= 1;
    }
    let mut last: usize = col;
    while last + 1 < total && !is_white_space(row.cells[last + 1].c)
        invariant
            col <= last < total,
            total == row.cells@.len(),
            solid(row.cells@, first as int, last + 1),
        decreases total - last,
    {
        last += 1;
    }
    let mut i: usize = first;
    while i <= col
        invariant
            first <= i <= col + 1,
            col <= last < total,
            total == row.cells@.len(),
            cells == row.cells@,
            solid(cells, first as int, last + 1),
            first > 0 ==> parts_words(cells[first - 1]),
            last + 1 < total ==> parts_words(cells[last + 1]),
            forall|k: int| first <= k < i ==> !#[trigger] address_at(cells, k),
        decreases col + 1 - i,
    {
        if spelled(row, i, "http://") || spelled(row, i, "https://") {
            assert forall|k: int| 0 <= k < i && #[trigger] address_at(cells, k) implies !solid(
                cells,
                k,
                i as int,
            ) by {
                assert(k < first);
                assert(parts_words(cells[first - 1]));
            }
            assert(address_run(cells, col as int, i as int, last as int));
            return Some(HoveredHyperlinkSpan { line, start_col: i, end_col: last });
        }
        assert(!address_at(cells, i as int));
        i += 1;
    }
    assert forall|start: int, end: int| !#[trigger] address_run(cells, col as int, start, end) by {
        if address_run(cells, col as int, start, end) {
            if start < first {
                assert(parts_words(cells[first - 1]));
                assert(false);
            }
            assert(address_at(cells, start));
        }
    }
    None
}

/// Finds what the pointer hovers over: the link at a column, or, with the control key, the address
/// that is written there.
pub fn hover_span(row: &Row, line: usize, col: usize, known: bool, ctrl: bool) -> (r: Option<
    HoveredHyperlinkSpan,
>)
    ensures
        ({
            let linked = known && col < row.cells@.len() && row.cells@[col as int].hyperlink != 0;
            match r {
                Some(s) => {
                    &&& s.line == line
                    &&& if linked {
                        link_run(row.cells@, col as int, s.start_col as int, s.end_col as int)
                    } else {
                        ctrl && address_run(
                            row.cells@,
                            col as int,
                            s.start_col as int,
                            s.end_col as int,
                        )
                    }
                },
                None => !linked && (ctrl ==> forall|start: int, end: int|
                    !#[trigger] address_run(row.cells@, col as int, start, end)),
            }
        }),
{
    match link_span(row, line, col, known) {
        Some(s) => Some(s),
        None => if ctrl {
            address_span(row, line, col)
        } else {
            None
        },
    }
}

/// The bit of a button.
pub open spec fn button_bit(index: u8) -> u8 {
    1u8 << index
}

/// What follows a press of a button.
#[derive(Debug, Clone, Copy, PartialEq, Eq, Structural)]
pub enum PressOutcome {
    Nothing,
    /// The program got the press.
    Reported,
    Paste,
    /// The link under the pointer is opened.
    OpenLink,
    /// A selection begins.
    Select,
}

/// What follows a step of the wheel.
#[derive(Debug, PartialEq, Eq)]
pub enum WheelAction {
    Nothing,
    /// The program gets presses of a button.
    Report { button: u8, count: usize },
    /// The program gets arrow keys.
    Send(Vec<u8>),
    ScrollUp(usize),
    ScrollDown(usize),
}

/// Where a press happened and what is known of the place.
#[derive(Debug, Clone, Copy, PartialEq, Eq)]
pub struct PressPlace {
    pub line: usize,
    pub col: usize,
    /// The first and the last column of the word there.
    pub word: (usize, usize),
    /// The last column of the grid.
    pub last_col: usize,
    /// Whether a link that leads somewhere is there.
    pub link: bool,
}

/// The state of the pointer.
#[derive(Debug, Clone, Copy, PartialEq, Eq)]
pub struct PointerState {
    pub in_surface: bool,
    pub serial: u32,
    pub pressed: bool,
    /// Bits of the buttons that are held down and were reported to the program.
    pub buttons_held: u8,
    /// Set while a press was reported to the program.
    pub reported: bool,
    /// The button most recently reported to the program.
    pub button: u8,
    pub last_click_time: u32,
    pub click_count: u8,
    pub last_click_cell: Option<(usize, usize)>,
    pub selection: Selection,
    pub hovered: Option<HoveredHyperlinkSpan>,
    pub shape: Option<PointerShape>,
    pub needs_redraw: bool,
}

/// A pointer outside the window, with nothing selected.
pub open spec fn initial_pointer() -> PointerState {
    PointerState {
        in_surface: false,
        serial: 0,
        pressed: false,
        buttons_held: 0,
        reported: false,
        button: 0,
        last_click_time: 0,
        click_count: 0,
        last_click_cell: None,
        selection: Selection {
            start: SelectionPoint { line: 0, col: 0 },
            end: SelectionPoint { line: 0, col: 0 },
            kind: SelectionType::Simple,
        },
        hovered: None,
        shape: None,
        needs_redraw: true,
    }
}

/// How many clicks a click makes with those before it: up to three on one cell.
pub open spec fn clicks_after(p: PointerState, cell: (usize, usize), time: u32) -> u8 {
    let since = time - p.last_click_time;
    if p.last_click_cell == Some(cell) && since < MULTI_CLICK_MS {
        (p.click_count % 3 + 1) as u8
    } else {
        1
    }
}

/// What a number of clicks selects: from the cell, the word or the line.
pub open spec fn selection_for(clicks: u8, place: PressPlace) -> Selection {
    let (start, end, kind) = if clicks == 2 {
        (place.word.0, place.word.1, SelectionType::Word)
    } else if clicks == 3 {
        (0usize, place.last_col, SelectionType::Line)
    } else {
        (place.col, place.col, SelectionType::Simple)
    };
    Selection {
        start: SelectionPoint { line: place.line, col: start },
        end: SelectionPoint { line: place.line, col: end },
        kind,
    }
}

impl PointerState {
    pub fn new() -> (r: Self)
        ensures
            r == initial_pointer(),
    {
        PointerState {
            in_surface: false,
            serial: 0,
            pressed: false,
            buttons_held: 0,
            reported: false,
            button: 0,
            last_click_time: 0,
            click_count: 0,
            last_click_cell: None,
            selection: Selection::new(
                SelectionPoint::new(0, 0),
                SelectionPoint::new(0, 0),
                SelectionType::Simple,
            ),
            hovered: None,
            shape: None,
            needs_redraw: true,
        }
    }

    /// The shape that the pointer should have.
    pub open spec fn wanted_shape(self) -> PointerShape {
        if self.hovered is Some {
            PointerShape::Pointer
        } else {
            PointerShape::Text
        }
    }

    /// Whether the shape of the pointer is to be sent to the compositor.
    pub open spec fn reshapes(self, has_device: bool) -> bool {
        self.in_surface && self.serial != 0 && has_device && self.shape != Some(self.wanted_shape())
    }

    /// The state once the shape was sent, where it was to be sent.
    pub open spec fn reshaped(self, has_device: bool) -> PointerState {
        if self.reshapes(has_device) {
            PointerState { shape: Some(self.wanted_shape()), ..self }
        } else {
            self
        }
    }

    /// The state over a link, or over none. A pointer outside the window or with a pressed button
    /// hovers over none.
    pub open spec fn hovering(self, found: Option<HoveredHyperlinkSpan>, has_device: bool)
        -> PointerState {
        let span = if !self.in_surface || self.pressed {
            None
        } else {
            found
        };
        if self.hovered == span {
            self
        } else {
            (PointerState { hovered: span, needs_redraw: true, ..self }).reshaped(has_device)
        }
    }

    /// Chooses the shape of the pointer by what is under it, and returns the one to send.
    pub fn update_cursor_shape(&mut self, has_device: bool) -> (r: Option<PointerShape>)
        ensures
            *final(self) == old(self).reshaped(has_device),
            r == (if old(self).reshapes(has_device) {
                Some(old(self).wanted_shape())
            } else {
                None
            }),
    {
        if !self.in_surface || self.serial == 0 || !has_device {
            return None;
        }
        let shape: PointerShape = if self.hovered.is_some() {
            PointerShape::Pointer
        } else {
            PointerShape::Text
        };
        if let Some(present) = self.shape {
            if present == shape {
                return None;
            }
        }
        self.shape = Some(shape);
        Some(shape)
    }

    /// Notes the link under the pointer, and returns the shape to send.
    pub fn update_hover_state(&mut self, found: Option<HoveredHyperlinkSpan>, has_device: bool)
        -> (r: Option<PointerShape>)
        ensures
            *final(self) == old(self).hovering(found, has_device),
            r == (if final(self).shape != old(self).shape {
                final(self).shape
            } else {
                None
            }),
    {
        let span: Option<HoveredHyperlinkSpan> = if !self.in_surface || self.pressed {
            None
        } else {
            found
        };
        let same: bool = match (self.hovered, span) {
            (Some(a), Some(b)) => a == b,
            (None, None) => true,
            _ => false,
        };
        if same {
            return None;
        }
        self.hovered = span;
        self.needs_redraw = true;
        self.update_cursor_shape(has_device)
    }

    /// The pointer enters the window over a link, or over none. Returns the shape to send.
    pub fn enter(&mut self, serial: u32, found: Option<HoveredHyperlinkSpan>, has_device: bool) -> (r:
        Option<PointerShape>)
        ensures
            *final(self) == (PointerState { in_surface: true, serial, shape: None, ..*old(self) })
                .hovering(found, has_device).reshaped(has_device),
            r == final(self).shape,
    {
        self.in_surface = true;
        self.serial = serial;
        self.shape = None;
        let first: Option<PointerShape> = self.update_hover_state(found, has_device);
        match self.update_cursor_shape(has_device) {
            Some(shape) => Some(shape),
            None => first,
        }
    }

    /// The pointer leaves the window, or is gone.
    pub fn leave(&mut self)
        ensures
            *final(self) == (PointerState {
                in_surface: false,
                hovered: None,
                needs_redraw: old(self).needs_redraw || old(self).hovered is Some,
                shape: None,
                ..*old(self)
            }),
    {
        self.in_surface = false;
        if self.hovered.is_some() {
            self.hovered = None;
            self.needs_redraw = true;
        }
        self.shape = None;
    }

    /// The device for shapes became available. Returns the shape to send.
    pub fn device_ready(&mut self) -> (r: Option<PointerShape>)
        ensures
            *final(self) == (if old(self).in_surface && old(self).serial != 0 {
                (PointerState { shape: None, ..*old(self) }).reshaped(true)
            } else {
                *old(self)
            }),
            r == (if old(self).in_surface && old(self).serial != 0 {
                Some(old(self).wanted_shape())
            } else {
                None
            }),
    {
        if self.in_surface && self.serial != 0 {
            self.shape = None;
            return self.update_cursor_shape(true);
        }
        None
    }

    /// Whether a motion is one with a held button.
    pub open spec fn dragging(self) -> bool {
        self.buttons_held != 0 || self.reported
    }

    /// Tells whether a motion is one with a held button.
    pub fn is_dragging(&self) -> (r: bool)
        ensures
            r == self.dragging(),
    {
        self.buttons_held != 0 || self.reported
    }

    /// The button that a motion is reported with: the first held one, or three without one.
    pub fn motion_button(&self) -> (r: u8)
        ensures
            r == (if self.buttons_held != 0 {
                u8_trailing_zeros(self.buttons_held) as u8
            } else if self.reported {
                self.button
            } else {
                3
            }),
    {
        if self.buttons_held != 0 {
            self.buttons_held.trailing_zeros() as u8
        } else if self.reported {
            self.button
        } else {
            3
        }
    }

    /// The pointer moved to a cell. Where the program did not take the motion, a pressed pointer
    /// moves the end of the selection.
    pub fn motion(&mut self, consumed: bool, line: usize, col: usize)
        ensures
            *final(self) == (if !consumed && old(self).pressed {
                PointerState {
                    selection: Selection {
                        end: SelectionPoint { line, col },
                        ..old(self).selection
                    },
                    needs_redraw: true,
                    ..*old(self)
                }
            } else {
                *old(self)
            }),
    {
        if !consumed && self.pressed {
            self.selection.end = SelectionPoint::new(line, col);
            self.needs_redraw = true;
        }
    }

    /// A button is pressed. `consumed` says that the program took the press, `ctrl` that the
    /// control key is held.
    pub fn press(&mut self, button: u32, consumed: bool, ctrl: bool, time: u32, place: PressPlace)
        -> (r: PressOutcome)
        ensures
            match button_index(button) {
                None => *final(self) == *old(self) && r == PressOutcome::Nothing,
                Some(index) => if consumed {
                    &&& *final(self) == (PointerState {
                        buttons_held: old(self).buttons_held | button_bit(index),
                        reported: true,
                        button: index,
                        ..*old(self)
                    })
                    &&& r == PressOutcome::Reported
                } else if index == 1 {
                    *final(self) == *old(self) && r == PressOutcome::Paste
                } else if index == 2 {
                    *final(self) == *old(self) && r == PressOutcome::Nothing
                } else if ctrl && place.link {
                    *final(self) == *old(self) && r == PressOutcome::OpenLink
                } else {
                    let clicks = clicks_after(*old(self), (place.line, place.col), time);
                    &&& *final(self) == (PointerState {
                        click_count: clicks,
                        last_click_time: time,
                        last_click_cell: Some((place.line, place.col)),
                        pressed: true,
                        selection: selection_for(clicks, place),
                        needs_redraw: true,
                        ..*old(self)
                    })
                    &&& r == PressOutcome::Select
                },
            },
    {
        let index: u8 = match x11_button_index(button) {
            Some(index) => index,
            None => {
                return PressOutcome::Nothing;
            },
        };
        if consumed {
            self.buttons_held = self.buttons_held | (1u8 << index);
            self.reported = true;
            self.button = index;
            return PressOutcome::Reported;
        }
        if index == 1 {
            return PressOutcome::Paste;
        }
        if index != 0 {
            return PressOutcome::Nothing;
        }
        if ctrl && place.link {
            return PressOutcome::OpenLink;
        }
        let same_cell: bool = match self.last_click_cell {
            Some((line, col)) => line == place.line && col == place.col,
            None => false,
        };
        if same_cell && time.saturating_sub(self.last_click_time) < MULTI_CLICK_MS {
            self.click_count = self.click_count % 3 + 1;
        } else {
            self.click_count = 1;
        }
        self.last_click_time = time;
        self.last_click_cell = Some((place.line, place.col));
        self.pressed = true;
        self.selection =
        if self.click_count == 2 {
            Selection::new(
                SelectionPoint::new(place.line, place.word.0),
                SelectionPoint::new(place.line, place.word.1),
                SelectionType::Word,
            )
        } else if self.click_count == 3 {
            Selection::new(
                SelectionPoint::new(place.line, 0),
                SelectionPoint::new(place.line, place.last_col),
                SelectionType::Line,
            )
        } else {
            Selection::new(
                SelectionPoint::new(place.line, place.col),
                SelectionPoint::new(place.line, place.col),
                SelectionType::Simple,
            )
        };
        self.needs_redraw = true;
        PressOutcome::Select
    }

    /// A button is released. Returns the button to report to the program, where it got the press.
    pub fn release(&mut self, button: u32) -> (r: Option<u8>)
        ensures
            match button_index(button) {
                None => *final(self) == *old(self) && r is None,
                Some(index) => {
                    let was_held = old(self).buttons_held & button_bit(index) != 0;
                    let held = if was_held {
                        old(self).buttons_held & !button_bit(index)
                    } else {
                        old(self).buttons_held
                    };
                    &&& *final(self) == (PointerState {
                        buttons_held: held,
                        reported: if was_held {
                            held != 0
                        } else {
                            old(self).reported
                        },
                        pressed: old(self).pressed && index != 0,
                        ..*old(self)
                    })
                    &&& r == (if was_held {
                        Some(index)
                    } else {
                        None
                    })
                },
            },
    {
        let index: u8 = match x11_button_index(button) {
            Some(index) => index,
            None => {
                return None;
            },
        };
        let was_held: bool = self.buttons_held & (1u8 << index) != 0;
        if was_held {
            self.buttons_held = self.buttons_held & !(1u8 << index);
            self.reported = self.buttons_held != 0;
        }
        if index == 0 {
            self.pressed = false;
        }
        if was_held {
            Some(index)
        } else {
            None
        }
    }
}

/// A release of a button that was not held before takes back what its reported press noted.
pub proof fn law_release_undoes_press(held: u8, index: u8)
    requires
        index < 3,
        held & button_bit(index) == 0,
    ensures
        (held | button_bit(index)) & button_bit(index) != 0,
        (held | button_bit(index)) & !button_bit(index) == held,
{
    assert(index < 3 && held & (1u8 << index) == 0 ==> (held | (1u8 << index)) & (1u8 << index) != 0
        && (held | (1u8 << index)) & !(1u8 << index) == held) by (bit_vector);
}

/// Clicks go round: a fourth click on a cell selects as the first does.
pub proof fn law_clicks_go_round(p: PointerState, cell: (usize, usize), time: u32)
    ensures
        1 <= clicks_after(p, cell, time) <= 3,
        p.click_count == 3 ==> clicks_after(p, cell, time) == 1,
{
}

/// Tells whether an event of the pointer goes to the program: it has to track the mouse, and a
/// press with shift stays here, so that text can always be selected.
pub fn reports_pointer(tracking: bool, shift: bool, pressed: bool) -> (r: bool)
    ensures
        r == (tracking && !(shift && pressed)),
{
    tracking && !(shift && pressed)
}

/// How many steps a turn of the wheel makes.
pub open spec fn wheel_steps(lines: i32) -> usize {
    let n = if lines < 0 {
        -lines
    } else {
        lines as int
    };
    if n > MAX_WHEEL_STEPS {
        MAX_WHEEL_STEPS as usize
    } else {
        n as usize
    }
}

/// What tells a program that an arrow key was pressed: up, or down.
pub open spec fn arrow(up: bool) -> Seq<u8> {
    seq![
        0x1bu8,
        0x5b,
        if up {
            0x41
        } else {
            0x42
        },
    ]
}

/// Decides what a turn of the wheel does. Programs that track the mouse get buttons unless shift is
/// held; others on the alternate screen get arrow keys; else the viewport moves.
pub fn wheel(lines: i32, reporting: bool, shift: bool, alt_screen: bool) -> (r: WheelAction)
    ensures
        if lines == 0 {
            r is Nothing
        } else if reporting && !shift {
            r == (WheelAction::Report {
                button: if lines < 0 {
                    64
                } else {
                    65
                },
                count: wheel_steps(lines),
            })
        } else if alt_screen {
            r matches WheelAction::Send(b) && b@ == repeated(
                arrow(lines < 0),
                wheel_steps(lines) as nat,
            )
        } else if lines < 0 {
            r == WheelAction::ScrollUp(wheel_steps(lines))
        } else {
            r == WheelAction::ScrollDown(wheel_steps(lines))
        },
{
    if lines == 0 {
        return WheelAction::Nothing;
    }
    let wide: i64 = lines as i64;
    let magnitude: i64 = if wide < 0 {
        -wide
    } else {
        wide
    };
    let count: usize = if magnitude > MAX_WHEEL_STEPS as i64 {
        MAX_WHEEL_STEPS as usize
    } else {
        magnitude as usize
    };
    if reporting && !shift {
        let button: u8 = if lines < 0 {
            64
        } else {
            65
        };
        return WheelAction::Report { button, count };
    }
    if alt_screen {
        let mut key: Vec<u8> = vec![0x1b, 0x5b];
        if lines < 0 {
            key.push(0x41);
        } else {
            key.push(0x42);
        }
        assert(key@ =~= arrow(lines < 0));
        let mut out: Vec<u8> = Vec::new();
        push_repeated(&mut out, &key, count);
        assert(out@ =~= repeated(arrow(lines < 0), count as nat));
        return WheelAction::Send(out);
    }
    if lines < 0 {
        WheelAction::ScrollUp(count)
    } else {
        WheelAction::ScrollDown(count)
    }
}

} // verus!
