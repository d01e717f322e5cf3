//! The encrypted envelope: a nonce and a ciphertext, and its encoding on the
//! wire.
//!
//! An envelope is the only thing that travels after the key exchange. On the
//! wire it is the 12 bytes of the nonce, the length of the ciphertext as a
//! little-endian `u64`, and the ciphertext. Bytes after that are ignored.

use crate::cipher::aes_gcm_siv_decrypt;
use crate::cipher::aes_gcm_siv_encrypt;
use crate::cipher::MAX_CIPHERTEXT_SIZE;
use crate::cipher::MAX_PLAINTEXT_SIZE;
use crate::cipher::NONCE_SIZE;
use crate::cipher::seals;
use crate::cipher::SessionKey;
use crate::utils::rng_fill_bytes;
use vstd::bytes::lemma_auto_spec_u64_to_from_le_bytes;
use vstd::bytes::spec_u64_from_le_bytes;
use vstd::bytes::spec_u64_to_le_bytes;
use vstd::prelude::*;

verus! {

/// Bytes in front of the ciphertext on the wire: the nonce and the length.
pub const HEADER_SIZE: usize = 20;

#[verifier::external_type_specification]
#[verifier::external_body]
pub struct ExBincodeErrorKind(bincode::ErrorKind);

/// What can go wrong with an envelope.
#[derive(Debug, Clone, Copy, PartialEq, Eq, Structural)]
pub enum EnvelopeError {
    /// The plaintext is longer than the cipher accepts.
    PlaintextTooLong,
    /// The ciphertext is not the sealing of anything under this key and nonce:
    /// the key is wrong or the envelope was tampered with.
    AuthFailure,
    /// The bytes do not hold an envelope.
    DecodeFailure,
}

/// An envelope as a mathematical value.
pub struct Envelope {
    pub nonce: Seq<u8>,
    pub data: Seq<u8>,
}

impl Envelope {
    /// The nonce has its 12 bytes and the ciphertext's length fits the wire.
    pub open spec fn wf(self) -> bool {
        &&& self.nonce.len() == NONCE_SIZE
        &&& self.data.len() <= u64::MAX
    }

    /// The bytes of the envelope on the wire.
    pub open spec fn encoding(self) -> Seq<u8> {
        self.nonce + spec_u64_to_le_bytes(self.data.len() as u64) + self.data
    }

    /// The envelope carries `plaintext` sealed under `key`.
    pub open spec fn is_sealing_of(self, key: Seq<u8>, plaintext: Seq<u8>) -> bool {
        seals(key, self.nonce, plaintext, self.data)
    }
}

/// The envelope at the start of `bytes`, if there is one: `bytes` must hold
/// the header and as many bytes after it as the header announces.
pub open spec fn decode_envelope(bytes: Seq<u8>) -> Option<Envelope> {
    if bytes.len() < HEADER_SIZE {
        None
    } else {
        let announced = spec_u64_from_le_bytes(
            bytes.subrange(NONCE_SIZE as int, HEADER_SIZE as int),
        );
        if bytes.len() - HEADER_SIZE < announced {
            None
        } else {
            Some(
                Envelope {
                    nonce: bytes.subrange(0, NONCE_SIZE as int),
                    data: bytes.subrange(HEADER_SIZE as int, HEADER_SIZE + announced),
                },
            )
        }
    }
}

/// `bytes` is an envelope, and nothing else, that carries `payload` sealed
/// under `key`.
pub open spec fn carries(bytes: Seq<u8>, key: Seq<u8>, payload: Seq<u8>) -> bool {
    &&& decode_envelope(bytes) is Some
    &&& decode_envelope(bytes)->0.encoding() == bytes
    &&& decode_envelope(bytes)->0.is_sealing_of(key, payload)
}

/// Decoding undoes encoding, whatever follows the envelope on the wire.
pub proof fn lemma_decode_encoding(envelope: Envelope, rest: Seq<u8>)
    requires
        envelope.wf(),
    ensures
        decode_envelope(envelope.encoding() + rest) == Some(envelope),
{
    lemma_auto_spec_u64_to_from_le_bytes();
    let length = spec_u64_to_le_bytes(envelope.data.len() as u64);
    let bytes = envelope.encoding() + rest;
    assert(bytes.subrange(NONCE_SIZE as int, HEADER_SIZE as int) =~= length);
    assert(bytes.subrange(0, NONCE_SIZE as int) =~= envelope.nonce);
    assert(bytes.subrange(HEADER_SIZE as int, HEADER_SIZE + envelope.data.len()) =~= envelope.data);
}

/// An envelope that decodes from `bytes` is encoded at the start of `bytes`.
pub proof fn lemma_encoding_of_decoded(bytes: Seq<u8>)
    requires
        decode_envelope(bytes) is Some,
    ensures
        decode_envelope(bytes)->0.wf(),
        decode_envelope(bytes)->0.encoding() == bytes.subrange(
            0,
            HEADER_SIZE + decode_envelope(bytes)->0.data.len(),
        ),
{
    lemma_auto_spec_u64_to_from_le_bytes();
    let envelope = decode_envelope(bytes)->0;
    let length = bytes.subrange(NONCE_SIZE as int, HEADER_SIZE as int);
    assert(spec_u64_to_le_bytes(spec_u64_from_le_bytes(length)) == length);
    assert(envelope.encoding() =~= bytes.subrange(0, HEADER_SIZE + envelope.data.len()));
}

/// `bincode::serialize` on a 12-byte array and a byte vector, taken as a
/// pair. With the function's fixed-width little-endian settings an array is
/// written as its bytes and a vector as its length in eight bytes followed
/// by its bytes. Writing into memory does not fail.
#[verifier::external_body]
fn bincode_serialize_envelope(nonce: &[u8; 12], data: &Vec<u8>) -> (r: Result<
    Vec<u8>,
    Box<bincode::ErrorKind>,
>)
    ensures
        match r {
            Ok(bytes) => bytes@ == nonce@ + spec_u64_to_le_bytes(data@.len() as u64) + data@,
            Err(_) => false,
        },
{
    bincode::serialize(&(nonce, data))
}

/// `bincode::deserialize` into a 12-byte array and a byte vector, taken as a
/// pair. It reads 12 bytes, then eight bytes of little-endian length, then
/// that many bytes, fails when the input ends before that, and ignores what
/// follows.
#[verifier::external_body]
fn bincode_deserialize_envelope(bytes: &[u8]) -> (r: Result<
    ([u8; 12], Vec<u8>),
    Box<bincode::ErrorKind>,
>)
    ensures
        match r {
            Ok(pair) => decode_envelope(bytes@) == Some(
                Envelope { nonce: pair.0@, data: pair.1@ },
            ),
            Err(_) => decode_envelope(bytes@) is None,
        },
{
    bincode::deserialize::<([u8; 12], Vec<u8>)>(bytes)
}

/// An encrypted envelope: a nonce and the ciphertext made with it.
#[derive(Debug, Clone)]
pub struct EncryptedMessage {
    nonce: [u8; 12],
    data: Vec<u8>,
}

impl View for EncryptedMessage {
    type V = Envelope;

    closed spec fn view(&self) -> Envelope {
        Envelope { nonce: self.nonce@, data: self.data@ }
    }
}

impl EncryptedMessage {
    /// Seals `unencrypted_data` under `cipher` with a fresh random nonce.
    ///
    /// Fails exactly when the data is longer than the cipher accepts.
    pub fn new(unencrypted_data: &[u8], cipher: &SessionKey) -> (r: Result<Self, EnvelopeError>)
        ensures
            match r {
                Ok(message) => message@.wf() && message@.is_sealing_of(
                    cipher@,
                    unencrypted_data@,
                ),
                Err(e) => e == EnvelopeError::PlaintextTooLong && unencrypted_data@.len()
                    > MAX_PLAINTEXT_SIZE,
            },
    {
        let mut nonce: [u8; 12] = [0;12];
        rng_fill_bytes(&mut nonce);
        Self::with_nonce(unencrypted_data, cipher, nonce)
    }

    /// Seals `unencrypted_data` under `cipher` with the given nonce.
    ///
    /// Fails exactly when the data is longer than the cipher accepts.
    pub fn with_nonce(unencrypted_data: &[u8], cipher: &SessionKey, nonce: [u8; 12]) -> (r: Result<
        Self,
        EnvelopeError,
    >)
        ensures
            match r {
                Ok(message) => {
                    &&& message@.wf()
                    &&& message@.nonce == nonce@
                    &&& message@.is_sealing_of(cipher@, unencrypted_data@)
                },
                Err(e) => e == EnvelopeError::PlaintextTooLong && unencrypted_data@.len()
                    > MAX_PLAINTEXT_SIZE,
            },
    {
        if unencrypted_data.len() as u64 > MAX_PLAINTEXT_SIZE {
            return Err(EnvelopeError::PlaintextTooLong);
        }
        match aes_gcm_siv_encrypt(cipher.as_bytes(), &nonce, unencrypted_data) {
            Some(data) => Ok(EncryptedMessage { nonce, data }),
            None => Err(EnvelopeError::PlaintextTooLong),
        }
    }

    /// Opens the envelope under `cipher`.
    ///
    /// Returns a plaintext exactly when the envelope is the sealing of that
    /// plaintext under this key; otherwise fails with `AuthFailure` and
    /// returns nothing of what was decrypted. So an envelope that `new` or
    /// `with_nonce` made of some data under a key opens under that key, and
    /// to that data.
    pub fn try_decrypt(&self, cipher: &SessionKey) -> (r: Result<Vec<u8>, EnvelopeError>)
        ensures
            match r {
                Ok(plaintext) => self@.is_sealing_of(cipher@, plaintext@),
                Err(e) => e == EnvelopeError::AuthFailure && forall|p: Seq<u8>|
                    !self@.is_sealing_of(cipher@, p),
            },
            forall|p: Seq<u8>| #[trigger]
                self@.is_sealing_of(cipher@, p) ==> (r matches Ok(plaintext) && plaintext@ == p),
    {
        if self.data.len() as u64 > MAX_CIPHERTEXT_SIZE {
            return Err(EnvelopeError::AuthFailure);
        }
        match aes_gcm_siv_decrypt(cipher.as_bytes(), &self.nonce, self.data.as_slice()) {
            Some(plaintext) => Ok(plaintext),
            None => Err(EnvelopeError::AuthFailure),
        }
    }

    /// The envelope on the wire. Decoding the bytes gives the envelope back.
    pub fn into_bytes(self) -> (bytes: Vec<u8>)
        ensures
            bytes@ == self@.encoding(),
            decode_envelope(bytes@) == Some(self@),
    {
        proof {
            assert(self.data.len() <= usize::MAX);
            lemma_decode_encoding(self@, Seq::empty());
            assert(self@.encoding() + Seq::<u8>::empty() =~= self@.encoding());
        }
        match bincode_serialize_envelope(&self.nonce, &self.data) {
            Ok(bytes) => bytes,
            Err(_) => Vec::new(),
        }
    }

    /// The envelope at the start of `data`, or `DecodeFailure` when `data`
    /// holds none.
    pub fn try_from_bytes(data: &[u8]) -> (r: Result<Self, EnvelopeError>)
        ensures
            match r {
                Ok(message) => message@.wf() && decode_envelope(data@) == Some(message@),
                Err(e) => e == EnvelopeError::DecodeFailure && decode_envelope(data@) is None,
            },
    {
        match bincode_deserialize_envelope(data) {
            Ok(pair) => Ok(EncryptedMessage { nonce: pair.0, data: pair.1 }),
            Err(_) => Err(EnvelopeError::DecodeFailure),
        }
    }
}

} // verus!
