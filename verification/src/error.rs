//! The error type of the library.
//!
//! Each variant stands for one failure family and carries the message text
//! of the underlying condition: I/O, archive extraction, network, JSON
//! decoding, UTF-8 decoding, semantic-version parsing, or a plain domain
//! message.

use vstd::prelude::*;

verus! {

/// One failure, tagged with the family it came from.
#[derive(Debug, Clone)]
pub enum Error {
    Io(String),
    Zip(String),
    Http(String),
    Json(String),
    Utf8(String),
    SemVer(String),
    Msg(String),
}

impl Error {
    /// The message text carried by the error, whatever its family.
    pub fn message(&self) -> (r: &String)
        ensures
            r@ == self.text(),
    {
        match self {
            Error::Io(s) => s,
            Error::Zip(s) => s,
            Error::Http(s) => s,
            Error::Json(s) => s,
            Error::Utf8(s) => s,
            Error::SemVer(s) => s,
            Error::Msg(s) => s,
        }
    }

    /// The carried message, seen from specifications.
    pub open spec fn text(&self) -> Seq<char> {
        match self {
            Error::Io(s) => s@,
            Error::Zip(s) => s@,
            Error::Http(s) => s@,
            Error::Json(s) => s@,
            Error::Utf8(s) => s@,
            Error::SemVer(s) => s@,
            Error::Msg(s) => s@,
        }
    }
}

impl From<String> for Error {
    /// A bare message becomes the catch-all domain error.
    fn from(s: String) -> (r: Error) {
        Error::Msg(s)
    }
}

impl vstd::std_specs::convert::FromSpecImpl<String> for Error {
    open spec fn obeys_from_spec() -> bool {
        true
    }

    open spec fn from_spec(s: String) -> Error {
        Error::Msg(s)
    }
}

} // verus!
