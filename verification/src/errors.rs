//! The error kinds this core reports. All of them are recovered at the
//! command boundary: none terminates the session.

use vstd::prelude::*;

verus! {

/// A selection-dependent command ran without a usable selection.
#[derive(Debug)]
pub enum SelectionError {
    /// The current selection is empty.
    NoSelection,
    /// A range expression was malformed, referenced an index out of
    /// bounds, or there was no listing to resolve it against.
    InvalidRange,
}

/// Log streaming failed.
#[derive(Debug)]
pub enum LogError {
    /// The target object has no container to read logs from.
    NoContainer,
    /// The output-file template referenced an unknown field or was
    /// malformed.
    PathTemplateError,
    /// Editor output was requested with no override, session setting or
    /// environment fallback.
    NoEditorConfigured,
    /// The remote read failed; the message is surfaced verbatim.
    Transport(String),
    /// Local file I/O failed; the message is surfaced verbatim.
    Io(String),
}

/// Starting, inspecting or stopping a port forward failed.
#[derive(Debug)]
pub enum ForwardError {
    /// A port specification did not have the `local:remote` shape.
    InvalidPortSpec,
    /// The forwarding binary was not found.
    BinaryNotFound,
    /// The forwarding process could not be spawned; the message is
    /// surfaced verbatim.
    SpawnFailed(String),
    /// No live forward has the given index.
    NotFound,
}

impl SelectionError {
    /// A short description, for reporting through a sink.
    pub fn describe(&self) -> (r: &'static str)
        ensures
            *self is NoSelection ==> r@ == "no selection"@,
            *self is InvalidRange ==> r@ == "invalid range"@,
    {
        match self {
            SelectionError::NoSelection => "no selection",
            SelectionError::InvalidRange => "invalid range",
        }
    }
}

} // verus!
