//! The error taxonomy of the protocol core.

use vstd::prelude::*;

verus! {

/// An error reported by the browser in an error reply to one call: the CDP
/// error code and message, carried verbatim.
#[derive(Debug)]
pub struct CallError {
    pub code: i64,
    pub message: String,
}

/// Everything that can go wrong between issuing a command and receiving its
/// reply.
#[derive(Debug)]
pub enum CdpError {
    /// The socket-level write or serialization failed.  Surfaced to the
    /// caller of the failed call; never retried by the core.
    Transport,
    /// An inbound frame could not be parsed or lacked an expected field.
    /// One bad frame does not terminate the reader loop.
    Protocol,
    /// The browser answered the call with an error object.
    Call(CallError),
    /// The connection died while the call was pending, or the call was
    /// attempted after the connection was already closed.
    ConnectionClosed,
}

impl CdpError {
    /// A short human-readable label for the error, usable by callers that
    /// would otherwise ask for a `Display` impl.
    pub fn describe(&self) -> (r: &'static str)
        ensures
            (self is Transport) ==> r@ == "transport failure"@,
            (self is Protocol) ==> r@ == "malformed protocol frame"@,
            (self is Call) ==> r@ == "browser reported an error"@,
            (self is ConnectionClosed) ==> r@ == "connection closed"@,
    {
        match self {
            CdpError::Transport => "transport failure",
            CdpError::Protocol => "malformed protocol frame",
            CdpError::Call(_) => "browser reported an error",
            CdpError::ConnectionClosed => "connection closed",
        }
    }
}

/// Outcome of the generic wait-with-timeout primitive when it does not
/// succeed.
pub enum WaitError<E> {
    /// The deadline elapsed with no successful poll.
    Timeout,
    /// The polled operation itself failed; propagated immediately, never
    /// retried.
    Inner(E),
}

} // verus!
