//! Kitty graphics protocol: command parameters, image data and the events of its parser.

pub mod command;
pub mod decode;
pub mod laws;
pub mod parser;

use vstd::prelude::*;

pub use command::{kitty_response, parse_control_keys};
pub use parser::KittyParser;

verus! {

/// Kitty graphics action requested by the client.
#[derive(Debug, Clone, Copy, PartialEq, Eq, Structural)]
pub enum KittyAction {
    TransmitAndDisplay,
    TransmitAndDisplayWithResponse,
    Query,
    Place,
    Delete,
}

impl Default for KittyAction {
    fn default() -> (r: Self)
        ensures
            r == KittyAction::TransmitAndDisplay,
    {
        KittyAction::TransmitAndDisplay
    }
}

/// Pixel format of image payload.
#[derive(Debug, Clone, Copy, PartialEq, Eq, Structural)]
pub enum KittyFormat {
    Rgba32,
    Rgb24,
    Png,
}

impl Default for KittyFormat {
    fn default() -> (r: Self)
        ensures
            r == KittyFormat::Rgba32,
    {
        KittyFormat::Rgba32
    }
}

/// Transmission medium for image payload.
#[derive(Debug, Clone, Copy, PartialEq, Eq, Structural)]
pub enum KittyMedium {
    Direct,
    File,
    TempFile,
    SharedMemory,
}

impl Default for KittyMedium {
    fn default() -> (r: Self)
        ensures
            r == KittyMedium::Direct,
    {
        KittyMedium::Direct
    }
}

/// Delete target selector for `a=d`.
#[derive(Debug, Clone, Copy, PartialEq, Eq, Structural)]
pub enum DeleteTarget {
    All,
    ById(u32),
    ByPlacement(u32),
    AtCursor,
}

impl Default for DeleteTarget {
    fn default() -> (r: Self)
        ensures
            r == DeleteTarget::All,
    {
        DeleteTarget::All
    }
}

/// Parsed Kitty APC command parameters.
#[derive(Debug, Clone, Copy, PartialEq, Eq, Structural)]
pub struct KittyCommand {
    pub action: KittyAction,
    pub format: KittyFormat,
    pub medium: KittyMedium,
    pub delete_target: DeleteTarget,
    pub image_id: Option<u32>,
    /// Whether the client sent an explicit `i=` key. The protocol only requires an
    /// `OK`/error acknowledgement when the client opted in by supplying an image id.
    pub id_explicit: bool,
    pub placement_id: Option<u32>,
    pub width: Option<u32>,
    pub height: Option<u32>,
    pub cols: Option<u32>,
    pub rows: Option<u32>,
    pub offset_x: u32,
    pub offset_y: u32,
    pub z_index: i32,
    pub more_chunks: bool,
    pub do_not_move_cursor: bool,
    pub quiet: u8,
    pub is_virtual: bool,
}

/// A command without any parameter.
pub open spec fn blank_command() -> KittyCommand {
    KittyCommand {
        action: KittyAction::TransmitAndDisplay,
        format: KittyFormat::Rgba32,
        medium: KittyMedium::Direct,
        delete_target: DeleteTarget::All,
        image_id: None,
        id_explicit: false,
        placement_id: None,
        width: None,
        height: None,
        cols: None,
        rows: None,
        offset_x: 0,
        offset_y: 0,
        z_index: 0,
        more_chunks: false,
        do_not_move_cursor: false,
        quiet: 0,
        is_virtual: false,
    }
}

impl Default for KittyCommand {
    fn default() -> (r: Self)
        ensures
            r == blank_command(),
    {
        KittyCommand {
            action: KittyAction::TransmitAndDisplay,
            format: KittyFormat::Rgba32,
            medium: KittyMedium::Direct,
            delete_target: DeleteTarget::All,
            image_id: None,
            id_explicit: false,
            placement_id: None,
            width: None,
            height: None,
            cols: None,
            rows: None,
            offset_x: 0,
            offset_y: 0,
            z_index: 0,
            more_chunks: false,
            do_not_move_cursor: false,
            quiet: 0,
            is_virtual: false,
        }
    }
}

/// Loaded RGBA image data ready for GPU texture upload.
#[derive(Debug, Clone, PartialEq, Eq)]
pub struct ImageData {
    pub id: u32,
    pub width: u32,
    pub height: u32,
    pub rgba: Vec<u8>,
}

/// What an image holds.
#[verifier::ext_equal]
pub struct ImageModel {
    pub id: u32,
    pub width: u32,
    pub height: u32,
    pub rgba: Seq<u8>,
}

impl View for ImageData {
    type V = ImageModel;

    open spec fn view(&self) -> ImageModel {
        ImageModel { id: self.id, width: self.width, height: self.height, rgba: self.rgba@ }
    }
}

/// On-screen image placement anchored to grid coordinates.
#[derive(Debug, Clone, Copy, PartialEq, Eq, Structural)]
pub struct ImagePlacement {
    pub image_id: u32,
    pub placement_id: u32,
    pub line: usize,
    pub col: usize,
    pub cols: usize,
    pub rows: usize,
    pub offset_x: u32,
    pub offset_y: u32,
    pub z_index: i32,
}

/// Event emitted by the Kitty APC parser.
#[derive(Debug, Clone, PartialEq)]
pub enum KittyEvent {
    /// Transmit and place new image
    Transmit { command: KittyCommand, image: ImageData },
    /// Place an existing image by ID
    Place { command: KittyCommand },
    /// Delete image(s)
    Delete { target: DeleteTarget },
    /// Query support or acknowledge command; contains bytes to write to PTY
    Response(Vec<u8>),
    /// The image's bytes lie in the named file or shared memory object. Once they are read,
    /// `decode::complete_load` turns them into the event to handle in place of this one.
    Load { command: KittyCommand, image_id: u32, name: String },
}

/// What an event holds.
#[verifier::ext_equal]
pub enum EventModel {
    Transmit { command: KittyCommand, image: ImageModel },
    Place { command: KittyCommand },
    Delete { target: DeleteTarget },
    Response(Seq<u8>),
    Load { command: KittyCommand, image_id: u32, name: Seq<char> },
}

impl View for KittyEvent {
    type V = EventModel;

    open spec fn view(&self) -> EventModel {
        match *self {
            KittyEvent::Transmit { command, image } => EventModel::Transmit {
                command,
                image: image@,
            },
            KittyEvent::Place { command } => EventModel::Place { command },
            KittyEvent::Delete { target } => EventModel::Delete { target },
            KittyEvent::Response(bytes) => EventModel::Response(bytes@),
            KittyEvent::Load { command, image_id, name } => EventModel::Load {
                command,
                image_id,
                name: name@,
            },
        }
    }
}

/// What an optional event holds.
pub open spec fn event_model(e: Option<KittyEvent>) -> Option<EventModel> {
    match e {
        Some(e) => Some(e@),
        None => None,
    }
}

} // verus!
