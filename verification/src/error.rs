//! Errors the library reports.
use vstd::prelude::*;

verus! {

/// Why an operation failed.
#[derive(Debug)]
pub enum Error {
    /// A component, tool or guest failed; the text says how.
    Component(String),
    /// A configuration row is unusable.
    Config(String),
    /// A capability name that nobody exposed.
    UnknownKey(String),
}

impl Error {
    /// The failure's text.
    pub open spec fn text(self) -> Seq<char> {
        match self {
            Error::Component(m) => m@,
            Error::Config(m) => m@,
            Error::UnknownKey(m) => m@,
        }
    }

    /// The failure's text.
    pub fn message(&self) -> (r: &String)
        ensures
            *r == match *self {
                Error::Component(m) => m,
                Error::Config(m) => m,
                Error::UnknownKey(m) => m,
            },
    {
        match self {
            Error::Component(m) => m,
            Error::Config(m) => m,
            Error::UnknownKey(m) => m,
        }
    }
}

} // verus!
