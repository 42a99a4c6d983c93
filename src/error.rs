use vstd::prelude::*;

verus! {

/// The kinds of failure that a request can end in.
#[derive(Clone, Copy, Debug, PartialEq, Eq, Structural)]
pub enum ErrorKind {
    /// The request named something unusable: a malformed address, a document
    /// that is not open.
    InvalidParams,
    /// The server could not do its part: a temporary file, a process, a timeout.
    Internal,
    /// The compiler answered with something that does not decode.
    Parse,
}

/// A failure of one request, reported to the editor for that request only.
#[derive(Clone, Debug, PartialEq, Eq)]
pub struct LspError {
    pub kind: ErrorKind,
    pub message: String,
}

impl LspError {
    /// A failure of kind `kind`, described by `message`.
    pub fn new(kind: ErrorKind, message: &str) -> (r: Self)
        ensures
            r.kind == kind,
            r.message@ == message@,
    {
        LspError { kind, message: message.to_owned() }
    }
}

} // verus!
