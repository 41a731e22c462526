//! The decisions of the event loop: what to do with input, output, resizes, reloads and time. The
//! loop itself performs them.

pub mod actions;
pub mod clipboard;
pub mod geometry;
pub mod kitty;
pub mod laws;
pub mod pointer;
pub mod tick;

pub use geometry::{saturating_u16, terminal_size};
