//! The failures the client reports to its user.

use vstd::prelude::*;

verus! {

/// Why a handshake failed.
#[derive(Debug, Clone, Copy, PartialEq, Eq, Structural)]
pub enum HandshakeFailedReason {
    /// The host did not answer the probe.
    ServerNotResponding,
    /// The configuration holds no password for the host.
    UknownServer,
    /// The host's public key did not arrive, or was not 32 bytes.
    KeyExchangeFailed,
    /// The host did not accept the password proof.
    AuthenticationFailed,
}

/// A failure of something the client attempted.
#[derive(Debug, Clone, Copy, PartialEq, Eq, Structural)]
pub enum Error {
    /// The host refused the request: the session is missing, not
    /// authenticated, or expired.
    Forbidden,
    /// The handshake failed, for the given reason.
    HandshakeFailed(HandshakeFailedReason),
    /// The address is not a socket address.
    InvalidSocketAddr,
    /// The host did not answer.
    ServerNotResponding,
    /// The host reported a failure of its own.
    Internal,
    /// What the host sent is not what the protocol says it sends.
    DecodeFailure,
    /// What the host sent does not open under the session key: the key is
    /// wrong or the data was tampered with.
    AuthFailure,
}

impl HandshakeFailedReason {
    /// The text that describes the reason.
    pub open spec fn spec_description(self) -> Seq<char> {
        match self {
            HandshakeFailedReason::ServerNotResponding => "could not connect to server"@,
            HandshakeFailedReason::UknownServer =>
                "could not retrieve the password to the server from configuration"@,
            HandshakeFailedReason::KeyExchangeFailed =>
                "could not exchange cryptographic keys with the server"@,
            HandshakeFailedReason::AuthenticationFailed =>
                "could not authenticate, password probably incorrect"@,
        }
    }

    /// The text that describes the reason.
    pub fn description(&self) -> (text: &'static str)
        ensures
            text@ == self.spec_description(),
    {
        match self {
            HandshakeFailedReason::ServerNotResponding => "could not connect to server",
            HandshakeFailedReason::UknownServer => {
                "could not retrieve the password to the server from configuration"
            },
            HandshakeFailedReason::KeyExchangeFailed => {
                "could not exchange cryptographic keys with the server"
            },
            HandshakeFailedReason::AuthenticationFailed => {
                "could not authenticate, password probably incorrect"
            },
        }
    }
}

impl Error {
    /// The text that describes the failure. A failed handshake is described
    /// by its reason.
    pub open spec fn spec_description(self) -> Seq<char> {
        match self {
            Error::Forbidden => "not authenticated to server"@,
            Error::HandshakeFailed(reason) => reason.spec_description(),
            Error::InvalidSocketAddr => "not a valid socket addr"@,
            Error::ServerNotResponding => "could not connect to server"@,
            Error::Internal => "the server failed to answer the request"@,
            Error::DecodeFailure => "could not read the answer of the server"@,
            Error::AuthFailure => "could not decrypt the answer of the server"@,
        }
    }

    /// The text that describes the failure.
    pub fn description(&self) -> (text: &'static str)
        ensures
            text@ == self.spec_description(),
    {
        match self {
            Error::Forbidden => "not authenticated to server",
            Error::HandshakeFailed(reason) => reason.description(),
            Error::InvalidSocketAddr => "not a valid socket addr",
            Error::ServerNotResponding => "could not connect to server",
            Error::Internal => "the server failed to answer the request",
            Error::DecodeFailure => "could not read the answer of the server",
            Error::AuthFailure => "could not decrypt the answer of the server",
        }
    }
}

} // verus!
