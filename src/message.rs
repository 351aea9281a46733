//! Messages exchanged on a service stream.

use vstd::prelude::*;

verus! {

/// Protocol-level failures reported to a peer.
#[derive(Clone, Copy, Debug, PartialEq, Eq, Structural)]
pub enum Error {
    /// The input could not be decoded.
    Format,
    /// The request was cancelled.
    Cancelled,
    Internal,
    ServiceNotFound,
    ActionNotFound,
}

/// A request, a response, or an error.
pub enum Message<Req, Resp, Er = Error> {
    Request(Req),
    Response(Resp),
    Error(Er),
}

impl<Req, Resp, Er> Message<Req, Resp, Er> {
    pub fn is_request(&self) -> (r: bool)
        ensures
            r == self is Request,
    {
        match self {
            Message::Request(_) => true,
            _ => false,
        }
    }

    pub fn is_response(&self) -> (r: bool)
        ensures
            r == self is Response,
    {
        match self {
            Message::Response(_) => true,
            _ => false,
        }
    }

    pub fn is_error(&self) -> (r: bool)
        ensures
            r == self is Error,
    {
        match self {
            Message::Error(_) => true,
            _ => false,
        }
    }
}

} // verus!
