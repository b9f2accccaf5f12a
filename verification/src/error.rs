//! The error type shared by the session and the pipeline.

use vstd::prelude::*;

verus! {

/// What went wrong.
#[derive(Debug, Clone, Copy, PartialEq, Eq, Structural)]
pub enum ErrorKind {
    /// The engine did not hand out a new handle.
    EngineCreateFailed,
    /// The engine refused the configuration.
    EngineInitFailed,
    /// The handle lacks an entry point that the session needs.
    MissingCapability,
    /// Reading the input or writing the output failed.
    IoFailure,
    /// The image encoder refused the raster.
    EncodeOutputFailed,
    /// The session was asked for work in a state that does not allow it.
    SessionNotOpen,
    /// An error known by its message alone.
    Other,
}

/// An error: its kind and a message for people.
#[derive(Debug)]
pub struct Error {
    /// What went wrong.
    pub kind: ErrorKind,
    /// The message.
    pub message: String,
}

impl Error {
    /// An error of the given kind with the given message.
    pub fn new(kind: ErrorKind, msg: &str) -> (e: Error)
        ensures
            e.kind == kind,
            e.message@ == msg@,
    {
        Error { kind, message: msg.to_owned() }
    }

    /// An error that carries a message and no particular kind.
    pub fn msg(msg: &str) -> (e: Error)
        ensures
            e.kind == ErrorKind::Other,
            e.message@ == msg@,
    {
        Error::new(ErrorKind::Other, msg)
    }

    /// The message, as the text to show for this error.
    pub fn to_string(&self) -> (s: String)
        ensures
            s@ == self.message@,
    {
        self.message.clone()
    }
}

} // verus!
