//! The error taxonomy of the lyric core.

use vstd::prelude::*;

verus! {

/// An error raised while tokenizing or parsing an LRC document, or while
/// reading it from disk.
#[derive(Debug, Clone, PartialEq, Eq)]
pub enum LrcError {
    /// A bracket matched the timestamp shape but its numeric groups could not
    /// be read as integers; the payload is the raw bracket text.
    InvalidTimestamp(String),
    /// A token appeared where the grammar does not allow it.
    UnexpectedToken(String),
    /// The document existed but could not be read.
    Io(String),
}

impl LrcError {
    /// A human-readable description, rendered verbatim to the user.
    pub fn message(&self) -> (r: String)
        ensures
            self is InvalidTimestamp ==> r@ == "Invalid timestamp: "@ + self->InvalidTimestamp_0@,
            self is UnexpectedToken ==> r@ == "Unexpected token: "@ + self->UnexpectedToken_0@,
            self is Io ==> r@ == "IO error: "@ + self->Io_0@,
    {
        match self {
            LrcError::InvalidTimestamp(s) => prefixed("Invalid timestamp: ", s),
            LrcError::UnexpectedToken(s) => prefixed("Unexpected token: ", s),
            LrcError::Io(s) => prefixed("IO error: ", s),
        }
    }
}

/// Concatenation of a fixed prefix and a detail string.
fn prefixed(prefix: &str, detail: &String) -> (r: String)
    ensures
        r@ == prefix@ + detail@,
{
    let mut r = prefix.to_owned();
    r.append(detail.as_str());
    r
}

} // verus!
