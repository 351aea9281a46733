//! Error kinds shared by the codec and the dispatch engine.

use vstd::prelude::*;

verus! {

#[derive(Clone, Copy, Debug, PartialEq, Eq, Structural)]
pub enum ErrorKind {
    Internal,
    KeyError,
    /// No handler is registered for the id.
    NotFound,
    /// A handler is already registered for the id.
    AlreadyExists,
    Codec,
    /// The bound on concurrent invocations is reached.
    LimitReached,
    InvalidData,
    InvalidInput,
    IO,
    File,
    ValueError,
    Other,
    Config,
    Certificate,
    Endpoint,
}

/// An error: its kind and a description for people.
#[derive(Clone, Debug, PartialEq, Eq)]
pub struct Error {
    pub kind: ErrorKind,
    pub description: String,
}

impl ErrorKind {
    /// An error of this kind.
    pub fn error(self, description: &str) -> (r: Error)
        ensures
            r.kind == self,
            r.description@ == description@,
    {
        Error::new(self, description)
    }

    /// A failed result with an error of this kind.
    pub fn err<T>(self, description: &str) -> (r: Result<T, Error>)
        ensures
            r matches Err(e) && e.kind == self && e.description@ == description@,
    {
        Err(self.error(description))
    }
}

impl Error {
    pub fn new(kind: ErrorKind, description: &str) -> (r: Self)
        ensures
            r.kind == kind,
            r.description@ == description@,
    {
        Error { kind, description: description.to_owned() }
    }

    pub fn kind(&self) -> (r: ErrorKind)
        ensures
            r == self.kind,
    {
        self.kind
    }

    pub fn description(&self) -> (r: &str)
        ensures
            r@ == self.description@,
    {
        self.description.as_str()
    }
}

} // verus!
