//! The session cipher: AES-256-GCM-SIV under a 256-bit session key.
//!
//! The cipher itself is the `aes-gcm-siv` crate's. This module holds the key
//! as plain bytes, names what encryption yields, and states how decryption
//! relates to it, so that the rest of the library can reason about sealed
//! data without looking inside the cipher.

use aes_gcm_siv::aead::Aead;
use aes_gcm_siv::Aes256GcmSiv;
use aes_gcm_siv::KeyInit;
use vstd::prelude::*;

verus! {

/// Bytes in a session key.
pub const KEY_SIZE: usize = 32;

/// Bytes in a nonce.
pub const NONCE_SIZE: usize = 12;

/// Bytes of authentication tag that encryption appends to the plaintext.
pub const TAG_SIZE: usize = 16;

/// The longest plaintext the cipher encrypts, 2^36 bytes.
pub const MAX_PLAINTEXT_SIZE: u64 = 68719476736;

/// The longest ciphertext the cipher looks at, a full plaintext and its tag.
pub const MAX_CIPHERTEXT_SIZE: u64 = 68719476752;

/// The ciphertext, tag included, that AES-256-GCM-SIV yields for a 32-byte
/// key, a 12-byte nonce and a plaintext of at most `MAX_PLAINTEXT_SIZE`
/// bytes, with no associated data. Encryption is deterministic: the same
/// three inputs always give the same bytes.
pub uninterp spec fn aead_encrypt(key: Seq<u8>, nonce: Seq<u8>, plaintext: Seq<u8>) -> Seq<u8>;

/// `ciphertext` is what sealing `plaintext` under `key` and `nonce` yields.
pub open spec fn seals(
    key: Seq<u8>,
    nonce: Seq<u8>,
    plaintext: Seq<u8>,
    ciphertext: Seq<u8>,
) -> bool {
    &&& plaintext.len() <= MAX_PLAINTEXT_SIZE
    &&& ciphertext.len() == plaintext.len() + TAG_SIZE
    &&& ciphertext == aead_encrypt(key, nonce, plaintext)
}

/// `Aead::encrypt` of `Aes256GcmSiv`, keyed by `KeyInit::new`, on a bare
/// plaintext. The call fails only when the plaintext is longer than the
/// cipher's `P_MAX`, which the precondition rules out. It returns the
/// encrypted plaintext followed by the 16-byte tag, which is the value that
/// `aead_encrypt` names.
#[verifier::external_body]
pub(crate) fn aes_gcm_siv_encrypt(
    key: &[u8; 32],
    nonce: &[u8; 12],
    plaintext: &[u8],
) -> (r: Option<Vec<u8>>)
    requires
        plaintext@.len() <= MAX_PLAINTEXT_SIZE,
    ensures
        r is Some,
        r matches Some(c) ==> c@ == aead_encrypt(key@, nonce@, plaintext@),
        r matches Some(c) ==> c@.len() == plaintext@.len() + TAG_SIZE,
{
    Aes256GcmSiv::new(key.into()).encrypt(nonce.into(), plaintext).ok()
}

/// `Aead::decrypt` of `Aes256GcmSiv`, keyed by `KeyInit::new`, on a bare
/// ciphertext. The call splits off the trailing tag, decrypts the rest with
/// the keystream that the tag selects, recomputes the tag over the result and
/// returns the result only if the two tags agree. Encryption computes the
/// tag over the plaintext and then applies that same keystream. So whatever
/// comes back encrypts to the ciphertext given, and the encryption of a
/// plaintext always decrypts to that plaintext. The error carries nothing.
#[verifier::external_body]
pub(crate) fn aes_gcm_siv_decrypt(
    key: &[u8; 32],
    nonce: &[u8; 12],
    ciphertext: &[u8],
) -> (r: Option<Vec<u8>>)
    requires
        ciphertext@.len() <= MAX_CIPHERTEXT_SIZE,
    ensures
        r matches Some(p) ==> p@.len() + TAG_SIZE == ciphertext@.len(),
        r matches Some(p) ==> ciphertext@ == aead_encrypt(key@, nonce@, p@),
        forall|p: Seq<u8>|
            p.len() <= MAX_PLAINTEXT_SIZE && ciphertext@ == #[trigger] aead_encrypt(key@, nonce@, p)
                ==> r is Some && r->Some_0@ == p,
{
    Aes256GcmSiv::new(key.into()).decrypt(nonce.into(), ciphertext).ok()
}

/// The symmetric key of one session: 32 bytes, derived once per handshake.
#[derive(Clone, Copy)]
pub struct SessionKey {
    bytes: [u8; 32],
}

impl View for SessionKey {
    type V = Seq<u8>;

    closed spec fn view(&self) -> Seq<u8> {
        self.bytes@
    }
}

impl SessionKey {
    /// The key made of the given bytes.
    pub fn from_bytes(bytes: [u8; 32]) -> (key: SessionKey)
        ensures
            key@ == bytes@,
    {
        SessionKey { bytes }
    }

    /// The bytes of the key.
    pub fn as_bytes(&self) -> (bytes: &[u8; 32])
        ensures
            bytes@ == self@,
    {
        &self.bytes
    }

    /// A key is always 32 bytes long.
    pub proof fn lemma_len(self)
        ensures
            self@.len() == KEY_SIZE,
    {
    }
}

} // verus!
