//! Ephemeral X25519 key agreement.
//!
//! Each side of a handshake draws a fresh 32-byte secret, sends the public
//! key that belongs to it, and combines its own secret with the public key it
//! received. Both arrive at the same 32 bytes, which become the session key.
//! The curve arithmetic is the `x25519-dalek` crate's.

use crate::cipher::SessionKey;
use crate::utils::rng_fill_bytes;
use vstd::prelude::*;
use x25519_dalek::PublicKey;
use x25519_dalek::StaticSecret;

verus! {

/// Bytes in a secret, in a public key and in a shared secret.
pub const KEY_LENGTH: usize = 32;

/// The X25519 public key that belongs to a 32-byte secret.
pub uninterp spec fn x25519_public_key(secret: Seq<u8>) -> Seq<u8>;

/// The X25519 shared secret of a 32-byte secret and another party's 32-byte
/// public key.
pub uninterp spec fn x25519_shared_secret(secret: Seq<u8>, their_public: Seq<u8>) -> Seq<u8>;

/// `PublicKey::from` on a secret made of the given bytes, as bytes: the
/// public key of that secret.
#[verifier::external_body]
fn x25519_public(secret: &[u8; 32]) -> (public: [u8; 32])
    ensures
        public@ == x25519_public_key(secret@),
{
    PublicKey::from(&StaticSecret::from(*secret)).to_bytes()
}

/// `StaticSecret::diffie_hellman` on a secret and a public key made of the
/// given bytes, as bytes. The crate computes the same product as for an
/// ephemeral secret, and documents of the exchange that the two parties'
/// shared secrets are the same: what one party gets from its secret and the
/// other's public key, the other gets from its own secret and the first
/// one's public key.
#[verifier::external_body]
fn x25519_diffie_hellman(secret: &[u8; 32], their_public: &[u8; 32]) -> (shared: [u8; 32])
    ensures
        shared@ == x25519_shared_secret(secret@, their_public@),
        forall|their_secret: Seq<u8>|
            their_secret.len() == KEY_LENGTH && their_public@ == #[trigger] x25519_public_key(
                their_secret,
            ) ==> shared@ == x25519_shared_secret(their_secret, x25519_public_key(secret@)),
{
    StaticSecret::from(*secret).diffie_hellman(&PublicKey::from(*their_public)).to_bytes()
}

/// One side's key pair for one handshake. The secret never leaves the value,
/// and agreeing on a session key uses the pair up.
pub struct EphemeralKeyPair {
    secret: [u8; 32],
    public: [u8; 32],
}

impl EphemeralKeyPair {
    /// The public key is the one that belongs to the secret.
    #[verifier::type_invariant]
    closed spec fn inv(self) -> bool {
        self.public@ == x25519_public_key(self.secret@)
    }

    /// The secret of the pair.
    pub closed spec fn secret(self) -> Seq<u8> {
        self.secret@
    }

    /// The public key of the pair.
    pub closed spec fn public(self) -> Seq<u8> {
        self.public@
    }

    /// A pair with a fresh random secret.
    pub fn generate() -> (pair: EphemeralKeyPair)
        ensures
            pair.secret().len() == KEY_LENGTH,
            pair.public() == x25519_public_key(pair.secret()),
    {
        let mut secret: [u8; 32] = [0;32];
        rng_fill_bytes(&mut secret);
        Self::from_secret(secret)
    }

    /// The pair of the given secret.
    pub fn from_secret(secret: [u8; 32]) -> (pair: EphemeralKeyPair)
        ensures
            pair.secret() == secret@,
            pair.public() == x25519_public_key(secret@),
    {
        let public = x25519_public(&secret);
        EphemeralKeyPair { secret, public }
    }

    /// The public key, to be sent to the other side.
    pub fn public_key(&self) -> (public: [u8; 32])
        ensures
            public@ == self.public(),
            public@ == x25519_public_key(self.secret()),
    {
        proof {
            use_type_invariant(self);
        }
        self.public
    }

    /// The session key agreed with the owner of `their_public`.
    ///
    /// The key is the X25519 shared secret of this pair's secret and the
    /// other side's public key. Agreement is symmetric: if `their_public`
    /// belongs to some secret, then the owner of that secret derives this
    /// same key from this pair's public key.
    pub fn diffie_hellman(self, their_public: &[u8; 32]) -> (key: SessionKey)
        ensures
            key@ == x25519_shared_secret(self.secret(), their_public@),
            forall|their_secret: Seq<u8>|
                their_secret.len() == KEY_LENGTH && their_public@ == #[trigger] x25519_public_key(
                    their_secret,
                ) ==> key@ == x25519_shared_secret(their_secret, self.public()),
    {
        proof {
            use_type_invariant(&self);
        }
        SessionKey::from_bytes(x25519_diffie_hellman(&self.secret, their_public))
    }
}

} // verus!
