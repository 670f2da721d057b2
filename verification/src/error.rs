//! Error taxonomy of the client.
use vstd::prelude::*;

verus! {

/// Why an operation failed. Callers can tell a terminal condition from a
/// retryable one and a remote rejection from a local decoding problem.
#[derive(Clone, Copy, Debug, PartialEq, Eq, Structural)]
pub enum Error {
    /// The connection or command channel is closed. Terminal: every
    /// pending and future call fails with it, and it is never retried.
    TransportClosed,
    /// Repeated cancellations exhausted the retry ceiling.
    RequestTimeout,
    /// An error decoded from the far end, surfaced untouched.
    RemoteProtocol { code: u64 },
    /// A payload that could not be decoded.
    Codec,
    /// A failure of the REST collaborator.
    Http { status: u16 },
    /// A malformed scalar in a decoded field, such as a date.
    FieldParse,
}

impl Error {
    /// A short name of the error kind, for logs and messages.
    pub fn kind_name(&self) -> (r: &'static str)
        ensures
            r@ == spec_kind_name(*self),
    {
        match self {
            Error::TransportClosed => "transport closed",
            Error::RequestTimeout => "request timeout",
            Error::RemoteProtocol { .. } => "remote protocol error",
            Error::Codec => "codec error",
            Error::Http { .. } => "http error",
            Error::FieldParse => "field parse error",
        }
    }
}

/// The short name of each error kind.
pub open spec fn spec_kind_name(e: Error) -> Seq<char> {
    match e {
        Error::TransportClosed => "transport closed"@,
        Error::RequestTimeout => "request timeout"@,
        Error::RemoteProtocol { .. } => "remote protocol error"@,
        Error::Codec => "codec error"@,
        Error::Http { .. } => "http error"@,
        Error::FieldParse => "field parse error"@,
    }
}

} // verus!
