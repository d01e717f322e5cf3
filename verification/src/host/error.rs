//! The failures the host reports to a client.

use vstd::prelude::*;

verus! {

/// A failure of a request, as the client gets to see it.
#[derive(Debug, Clone, Copy, PartialEq, Eq, Structural)]
pub enum Error {
    /// The key exchange or the password proof did not go through. Which of
    /// the possible causes it was is not told.
    HandshakeFailed,
    /// The caller has no session, or one that is not authenticated.
    NotAuthenticated,
    /// Storage or encoding failed on the host.
    Internal,
}

/// The HTTP status for a refused request.
pub const STATUS_FORBIDDEN: u16 = 403;

/// The HTTP status for a failure on the host's side.
pub const STATUS_INTERNAL_SERVER_ERROR: u16 = 500;

impl Error {
    /// The text that describes the failure.
    pub open spec fn spec_description(self) -> Seq<char> {
        match self {
            Error::HandshakeFailed =>
                "could not establish a secure and trusted connection with the client"@,
            Error::NotAuthenticated => "not an authenticated client"@,
            Error::Internal => "internal server error"@,
        }
    }

    /// The text that describes the failure.
    pub fn description(&self) -> (text: &'static str)
        ensures
            text@ == self.spec_description(),
    {
        match self {
            Error::HandshakeFailed => {
                "could not establish a secure and trusted connection with the client"
            },
            Error::NotAuthenticated => "not an authenticated client",
            Error::Internal => "internal server error",
        }
    }

    /// The HTTP status that carries the failure: a refusal for the two
    /// failures that concern the caller's standing, a server error otherwise.
    pub open spec fn spec_status_code(self) -> u16 {
        match self {
            Error::HandshakeFailed => STATUS_FORBIDDEN,
            Error::NotAuthenticated => STATUS_FORBIDDEN,
            Error::Internal => STATUS_INTERNAL_SERVER_ERROR,
        }
    }

    /// The HTTP status that carries the failure.
    pub fn status_code(&self) -> (code: u16)
        ensures
            code == self.spec_status_code(),
    {
        match self {
            Error::HandshakeFailed => STATUS_FORBIDDEN,
            Error::NotAuthenticated => STATUS_FORBIDDEN,
            Error::Internal => STATUS_INTERNAL_SERVER_ERROR,
        }
    }
}

} // verus!
