//! Errors that a session reports to its callers.
use vstd::prelude::*;

verus! {

#[verifier::external_type_specification]
#[verifier::external_body]
pub struct ExIoError(std::io::Error);

/// What went wrong with a session request.
#[derive(Debug)]
pub enum ClientError {
    /// The identity was asked for before authentication established it.
    NotInitialized,
    /// The session's credentials are no longer accepted.
    TokenExpired,
    /// The session is closed; nothing more can be sent on it.
    SessionClosed,
    /// The connection went away while the request waited for its response.
    ConnectionLost,
    /// No response came before the caller's deadline.
    Timeout,
    /// A request with this sequence number is still waiting for its response.
    SequenceInUse,
    /// The transport failed.
    IO(std::io::Error),
}

impl ClientError {
    /// A short description of the error.
    pub fn description(&self) -> (r: &'static str)
        ensures
            self is NotInitialized ==> r@ == "Client is not initialized"@,
            self is TokenExpired ==> r@ == "Token expired"@,
            self is SessionClosed ==> r@ == "Session closed"@,
            self is ConnectionLost ==> r@ == "Connection lost"@,
            self is Timeout ==> r@ == "Timed out waiting for the response"@,
            self is SequenceInUse ==> r@ == "Sequence number still in use"@,
            self is IO ==> r@ == "IO Error"@,
    {
        match self {
            ClientError::NotInitialized => "Client is not initialized",
            ClientError::TokenExpired => "Token expired",
            ClientError::SessionClosed => "Session closed",
            ClientError::ConnectionLost => "Connection lost",
            ClientError::Timeout => "Timed out waiting for the response",
            ClientError::SequenceInUse => "Sequence number still in use",
            ClientError::IO(_) => "IO Error",
        }
    }
}

impl From<std::io::Error> for ClientError {
    fn from(e: std::io::Error) -> (r: Self) {
        ClientError::IO(e)
    }
}

impl vstd::std_specs::convert::FromSpecImpl<std::io::Error> for ClientError {
    open spec fn obeys_from_spec() -> bool {
        true
    }

    open spec fn from_spec(e: std::io::Error) -> Self {
        ClientError::IO(e)
    }
}

} // verus!
