//! Verified core of a Wayland terminal emulator: cell grid, image protocol, key encoding,
//! configuration rules, glyph atlas and the decisions of its event loop.

pub mod collections;
pub mod color;
pub mod config;
pub mod error;
pub mod event_loop;
pub mod font;
pub mod grid;
pub mod ime;
pub mod input;
pub mod kitty;
pub mod text;
