//! Verified core of a screenshot annotation tool: text entry with input-method
//! composition, the editor state machine and pixel-level raster operations.

pub mod text_input;

pub use text_input::{apply_text_events, process_text_ev, TextEv};
pub mod raster;
pub mod style;
pub mod editor;
pub mod laws;
