//! Core of a keyboard-driven terminal file browser.
//!
//! The crate holds the three parts of the browser that carry its invariants:
//! a modal input interpreter that turns keys into actions, a directory-listing
//! model that applies those actions under strict ordering and cursor bounds,
//! and a double-buffered screen model whose diff pass yields the writes a
//! terminal needs to catch up. All terminal, filesystem and process work is
//! left to the surrounding binary, which feeds this crate plain values.

pub mod action;
pub mod app_state;
pub mod input_state;
pub mod text;
pub mod ui;
pub mod virtual_screen;
pub mod virtual_screen_buffer;

use vstd::prelude::*;

verus! {

/// The choices the browser starts with: the directory to browse first, and
/// whether to report the directory being browsed when the program closes.
pub struct AppConfig {
    pub print_working_directory: bool,
    pub start_dir: String,
}

} // verus!
