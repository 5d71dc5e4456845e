//! The library's error type.

use vstd::prelude::*;

verus! {

/// A failed file-system or process operation, as far as the library needs
/// to know it.
#[derive(Debug)]
pub struct IoFault {
    /// The operation failed because the path it was given does not exist.
    pub not_found: bool,
    /// The rendered text of the failure.
    pub message: String,
}

#[derive(Debug)]
pub enum Error {
    /// A file-system or process operation failed.
    IO(IoFault),
    /// A failure that the library detected itself, with its description.
    Message(String),
}

impl Error {
    /// The text that describes this error.
    pub open spec fn text(&self) -> Seq<char> {
        match self {
            Error::IO(fault) => fault.message@,
            Error::Message(m) => m@,
        }
    }

    /// An error that carries the description `message`.
    pub fn other(message: String) -> (r: Error)
        ensures
            r is Message,
            r.text() == message@,
    {
        Error::Message(message)
    }

    /// The text that describes this error.
    pub fn to_string(&self) -> (r: String)
        ensures
            r@ == self.text(),
    {
        match self {
            Error::IO(fault) => fault.message.clone(),
            Error::Message(m) => m.clone(),
        }
    }
}

} // verus!
