//! The error taxonomy of the library: every failure a core operation can
//! report, each with a human-readable message.

use vstd::prelude::*;

verus! {

/// Why a core operation failed.
#[derive(Debug)]
pub enum NoteError {
    /// A target file or directory, a template, or a required name source is
    /// missing.
    NotFound(String),
    /// The inputs cannot drive the requested action.
    InvalidInput(String),
    /// An underlying filesystem or deserialization failure.
    Io(String),
    /// An external process could not be run or read.
    ExternalProcess(String),
}

impl NoteError {
    /// The message carried by the error.
    pub fn message(&self) -> (r: &String)
        ensures
            match self {
                NoteError::NotFound(m) => r == m,
                NoteError::InvalidInput(m) => r == m,
                NoteError::Io(m) => r == m,
                NoteError::ExternalProcess(m) => r == m,
            },
    {
        match self {
            NoteError::NotFound(m) => m,
            NoteError::InvalidInput(m) => m,
            NoteError::Io(m) => m,
            NoteError::ExternalProcess(m) => m,
        }
    }
}

} // verus!
