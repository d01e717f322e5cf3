//! The client's side of the handshake.
//!
//! The handshake is four decisions around three exchanges with the host.
//! The client probes the host, looks up the host's password, and draws a key
//! pair (`Handshake::begin`). It sends its public key and, from the host's
//! public key in the answer, derives the session key and seals the password
//! under it (`Handshake::exchange`). It sends the sealed password and reads
//! the host's verdict (`Handshake::conclude`). Any failure ends the
//! handshake: nothing of it is kept and nothing is retried.

use crate::cipher::MAX_PLAINTEXT_SIZE;
use crate::cipher::SessionKey;
use crate::client::data::SharedCipher;
use crate::client::error::Error;
use crate::client::error::HandshakeFailedReason;
use crate::envelope::carries;
use crate::envelope::EncryptedMessage;
use crate::key_exchange::EphemeralKeyPair;
use crate::key_exchange::KEY_LENGTH;
use crate::key_exchange::x25519_public_key;
use crate::key_exchange::x25519_shared_secret;
use crate::utils::rng_fill_bytes;
use vstd::prelude::*;
use vstd::slice::slice_to_vec;

verus! {

/// The HTTP status of a request that was served.
pub const STATUS_OK: u16 = 200;

/// The HTTP status of a request that was refused.
pub const STATUS_FORBIDDEN: u16 = 403;

/// A handshake that has begun: the client's key pair and the password it is
/// going to prove.
pub struct Handshake {
    pair: EphemeralKeyPair,
    password: Vec<u8>,
}

impl Handshake {
    /// The client's secret.
    pub closed spec fn secret(self) -> Seq<u8> {
        self.pair.secret()
    }

    /// The client's public key.
    pub closed spec fn public(self) -> Seq<u8> {
        self.pair.public()
    }

    /// The password to prove.
    pub closed spec fn password(self) -> Seq<u8> {
        self.password@
    }

    /// Begins a handshake with a fresh random secret. See `begin_with`,
    /// which this function calls with the secret.
    pub fn begin(reachable: bool, password: Option<&Vec<u8>>) -> (r: Result<Handshake, Error>)
        ensures
            match r {
                Ok(handshake) => reachable && password is Some && handshake.password()
                    == password->0@ && handshake.public() == x25519_public_key(
                    handshake.secret(),
                ),
                Err(e) => if !reachable {
                    e == Error::HandshakeFailed(HandshakeFailedReason::ServerNotResponding)
                } else {
                    password is None && e == Error::HandshakeFailed(
                        HandshakeFailedReason::UknownServer,
                    )
                },
            },
    {
        let mut secret: [u8; 32] = [0;32];
        rng_fill_bytes(&mut secret);
        Self::begin_with(reachable, password, secret)
    }

    /// Begins a handshake, given whether the host answered the probe, the
    /// password that the configuration holds for the host, and the client's
    /// secret for the key exchange.
    ///
    /// Fails with `ServerNotResponding` when the host did not answer, and
    /// otherwise with `UknownServer` when there is no password.
    pub fn begin_with(reachable: bool, password: Option<&Vec<u8>>, secret: [u8; 32]) -> (r: Result<
        Handshake,
        Error,
    >)
        ensures
            match r {
                Ok(handshake) => {
                    &&& reachable
                    &&& password is Some
                    &&& handshake.password() == password->0@
                    &&& handshake.secret() == secret@
                    &&& handshake.public() == x25519_public_key(secret@)
                },
                Err(e) => if !reachable {
                    e == Error::HandshakeFailed(HandshakeFailedReason::ServerNotResponding)
                } else {
                    password is None && e == Error::HandshakeFailed(
                        HandshakeFailedReason::UknownServer,
                    )
                },
            },
    {
        if !reachable {
            return Err(Error::HandshakeFailed(HandshakeFailedReason::ServerNotResponding));
        }
        match password {
            Some(found) => Ok(
                Handshake {
                    pair: EphemeralKeyPair::from_secret(secret),
                    password: slice_to_vec(found.as_slice()),
                },
            ),
            None => Err(Error::HandshakeFailed(HandshakeFailedReason::UknownServer)),
        }
    }

    /// The body of the first request: the client's public key, 32 bytes.
    pub fn public_key(&self) -> (request: Vec<u8>)
        ensures
            request@ == self.public(),
            request@.len() == KEY_LENGTH,
    {
        let public = self.pair.public_key();
        slice_to_vec(public.as_slice())
    }

    /// Takes the host's answer to the first request, if there was one, and
    /// gives the session cipher and the body of the second request.
    ///
    /// The answer must be the host's public key, 32 bytes. The cipher's key
    /// is the secret shared between the client's secret and that key, and
    /// the request is an envelope that carries the password sealed under it.
    /// Without an answer of 32 bytes the handshake fails with
    /// `KeyExchangeFailed`. A password too long to seal cannot be proved:
    /// the handshake fails with `AuthenticationFailed`.
    pub fn exchange(self, answer: Option<&[u8]>) -> (r: Result<(SharedCipher, Vec<u8>), Error>)
        ensures
            match r {
                Ok((cipher, request)) => {
                    &&& answer is Some
                    &&& answer->0@.len() == KEY_LENGTH
                    &&& cipher@ == x25519_shared_secret(self.secret(), answer->0@)
                    &&& carries(request@, cipher@, self.password())
                },
                Err(e) => if answer is Some && answer->0@.len() == KEY_LENGTH {
                    e == Error::HandshakeFailed(HandshakeFailedReason::AuthenticationFailed)
                        && self.password().len() > MAX_PLAINTEXT_SIZE
                } else {
                    e == Error::HandshakeFailed(HandshakeFailedReason::KeyExchangeFailed)
                },
            },
            forall|host_secret: Seq<u8>|
                r is Ok && host_secret.len() == KEY_LENGTH && answer->0@
                    == #[trigger] x25519_public_key(host_secret) ==> r->Ok_0.0@
                    == x25519_shared_secret(host_secret, self.public()),
    {
        let body = match answer {
            Some(body) => body,
            None => {
                return Err(Error::HandshakeFailed(HandshakeFailedReason::KeyExchangeFailed));
            },
        };
        if body.len() != 32 {
            return Err(Error::HandshakeFailed(HandshakeFailedReason::KeyExchangeFailed));
        }
        let mut server_public_key: [u8; 32] = [0;32];
        let mut i: usize = 0;
        while i < 32
            invariant
                i <= 32,
                body@.len() == 32,
                forall|j: int| 0 <= j < i ==> server_public_key@[j] == body@[j],
            decreases 32 - i,
        {
            server_public_key[i] = body[i];
            i += 1;
        }
        assert(server_public_key@ =~= body@);
        let key: SessionKey = self.pair.diffie_hellman(&server_public_key);
        match EncryptedMessage::new(self.password.as_slice(), &key) {
            Ok(message) => Ok((SharedCipher::new(key), message.into_bytes())),
            Err(_) => Err(Error::HandshakeFailed(HandshakeFailedReason::AuthenticationFailed)),
        }
    }

    /// Takes the status of the host's answer to the second request, if
    /// there was an answer, and gives the session cipher when the host
    /// accepted the password. Anything but an answer with status 200 fails
    /// with `AuthenticationFailed`.
    pub fn conclude(cipher: SharedCipher, status: Option<u16>) -> (r: Result<SharedCipher, Error>)
        ensures
            match r {
                Ok(accepted) => status == Some(STATUS_OK) && accepted == cipher,
                Err(e) => status != Some(STATUS_OK) && e == Error::HandshakeFailed(
                    HandshakeFailedReason::AuthenticationFailed,
                ),
            },
    {
        match status {
            Some(code) => {
                if code == STATUS_OK {
                    Ok(cipher)
                } else {
                    Err(Error::HandshakeFailed(HandshakeFailedReason::AuthenticationFailed))
                }
            },
            None => Err(Error::HandshakeFailed(HandshakeFailedReason::AuthenticationFailed)),
        }
    }
}

} // verus!
