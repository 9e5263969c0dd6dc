//! The closed vocabulary of user-triggerable operations, and the key events
//! that the interpreter consumes. Both are plain values: the surrounding
//! binary converts the terminal backend's key type into [`Key`] before any
//! key reaches this crate.

use vstd::prelude::*;

verus! {

/// One discrete key event, as the terminal hands them out.
#[derive(Debug, Clone, Copy, PartialEq, Eq)]
pub enum Key {
    Escape,
    Backspace,
    Up,
    Down,
    Left,
    Right,
    Home,
    End,
    F(u8),
    Char(char),
}

/// Describes a complete operation that the user can perform.
#[derive(Debug, Clone, PartialEq, Eq)]
pub enum Action {
    /// Exits the browser.
    Quit,
    /// Cancels the current operation and returns the user to normal mode.
    Cancel,
    /// Moves the cursor up `count` times.
    Up(u64),
    /// Moves the cursor down `count` times.
    Down(u64),
    /// Moves the cursor to the top of the list.
    Top,
    /// Moves the cursor to the bottom of the list.
    Bottom,
    /// Activates the selected entry: enters it if it is a directory, or asks
    /// the operating system to open it if it is a file.
    Activate,
    /// Deletes the selected entry.
    Delete,
    /// Creates a file here.
    CreateFile(String),
    /// Creates a directory here.
    CreateDirectory(String),
    /// Reloads the directory being browsed.
    Refresh,
    /// Moves the cursor to the first entry whose name starts with the text.
    Find(String),
    /// Moves the cursor to the next entry matching the stored find target.
    FindNext,
    /// Runs a command issued by the command bar.
    RunCommand(String),
    /// Dumps the current buffer so it can be inspected when the program
    /// closes.
    DebugDumpVisible,
    /// A fallback action to indicate to the user why a key does nothing.
    Unknown(Key),
}

} // verus!
