//! What can go wrong in the editor. Every error is recoverable: the event
//! loop reports it and goes on with the next event.

use vstd::prelude::*;
use vstd::string::StringExecFns;

verus! {

/// The kinds of failure that the editor knows.
#[derive(Clone, Copy, PartialEq, Eq, Structural, Debug)]
pub enum EditorError {
    /// A file could not be read or written.
    IoError,
    /// A change was asked for at a row beyond the end-of-buffer sentinel.
    OutOfBounds,
    /// The system clipboard could not be reached.
    ClipboardUnavailable,
}

impl EditorError {
    /// The text shown to the user for this error.
    pub open spec fn spec_message(self) -> Seq<char> {
        match self {
            EditorError::IoError => "file could not be read or written"@,
            EditorError::OutOfBounds => "position is outside the buffer"@,
            EditorError::ClipboardUnavailable => "clipboard is unavailable"@,
        }
    }

    /// The text shown to the user for this error.
    pub fn message(&self) -> (text: String)
        ensures
            text@ == self.spec_message(),
    {
        match self {
            EditorError::IoError => String::from_str("file could not be read or written"),
            EditorError::OutOfBounds => String::from_str("position is outside the buffer"),
            EditorError::ClipboardUnavailable => String::from_str("clipboard is unavailable"),
        }
    }
}

/// There is no row under the cursor whose text could be copied.
#[derive(Clone, Copy, PartialEq, Eq, Structural, Debug)]
pub struct CopyError;

impl CopyError {
    /// The text shown to the user for this error.
    pub fn message(&self) -> (text: String)
        ensures
            text@ == "Cannot copy content"@,
    {
        String::from_str("Cannot copy content")
    }
}

} // verus!
