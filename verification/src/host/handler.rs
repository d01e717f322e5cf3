//! The decisions behind the host's endpoints.
//!
//! Each function here is one endpoint without its transport: it takes the
//! shared state, the caller's identity and what the transport and the disk
//! delivered, and returns what to answer. Reading the directory and the
//! files, and removing files, is left to the caller.

use crate::cipher::MAX_PLAINTEXT_SIZE;
use crate::cipher::SessionKey;
use crate::envelope::carries;
use crate::envelope::decode_envelope;
use crate::envelope::EncryptedMessage;
use crate::host::data::AppState;
use crate::host::data::SessionState;
use crate::identity::SessionIdentity;
use crate::host::data::swept;
use crate::host::database::collected;
use crate::host::database::HostEntries;
use crate::host::database::index_of;
use crate::host::database::is_complete;
use crate::host::database::names;
use crate::host::database::thumbnails_read;
use crate::host::error::Error;
use crate::key_exchange::EphemeralKeyPair;
use crate::key_exchange::KEY_LENGTH;
use crate::key_exchange::x25519_public_key;
use crate::key_exchange::x25519_shared_secret;
use crate::utils::get_timestamp;
use crate::utils::rng_fill_bytes;
use crate::wire::encode_index;
use vstd::prelude::*;

verus! {

/// The step of the handshake that exchanges public keys.
pub const STEP_KEY_EXCHANGE: u8 = 0;

/// The step of the handshake that proves knowledge of the password.
pub const STEP_AUTHENTICATION: u8 = 1;

/// `body` is an envelope that carries `password` sealed under the key of
/// `session`.
pub open spec fn proves_password(session: SessionState, password: Seq<u8>, body: Seq<u8>) -> bool {
    &&& decode_envelope(body) is Some
    &&& decode_envelope(body)->0.is_sealing_of(session.key, password)
}

/// The sessions after a key exchange with `addr` at `now`: the expired ones
/// are gone, and `addr` has a fresh session, not authenticated, under the
/// secret shared between the host's secret and the client's public key.
pub open spec fn after_key_exchange(
    sessions: Map<SessionIdentity, SessionState>,
    lifetime: u64,
    addr: SessionIdentity,
    client_public: Seq<u8>,
    host_secret: Seq<u8>,
    now: u64,
) -> Map<SessionIdentity, SessionState> {
    swept(sessions, lifetime, now).insert(
        addr,
        SessionState {
            created_at: now,
            key: x25519_shared_secret(host_secret, client_public),
            authenticated: false,
        },
    )
}

/// The sessions after `addr` has proved that it knows the password.
pub open spec fn after_authentication(
    sessions: Map<SessionIdentity, SessionState>,
    addr: SessionIdentity,
) -> Map<SessionIdentity, SessionState> {
    sessions.insert(addr, SessionState { authenticated: true, ..sessions[addr] })
}

/// Whether `offered` is the password. Where the two have the same length
/// every byte is looked at, whatever the bytes before it were.
pub fn is_password(offered: &[u8], password: &[u8]) -> (same: bool)
    ensures
        same == (offered@ == password@),
{
    if offered.len() != password.len() {
        return false;
    }
    let mut difference: u8 = 0;
    let mut i: usize = 0;
    while i < offered.len()
        invariant
            i <= offered@.len(),
            offered@.len() == password@.len(),
            difference == 0 <==> forall|j: int| 0 <= j < i ==> offered@[j] == password@[j],
        decreases offered@.len() - i,
    {
        let left = offered[i];
        let right = password[i];
        let ghost before = difference;
        difference = difference | (left ^ right);
        assert((before | (left ^ right)) == 0 <==> before == 0 && left == right) by (bit_vector);
        i += 1;
    }
    assert(difference == 0 ==> offered@ =~= password@);
    difference == 0
}

/// The session key of `addr`, if it has an authenticated session.
pub fn authorize(state: &AppState, addr: SessionIdentity) -> (r: Result<SessionKey, Error>)
    ensures
        match r {
            Ok(key) => state.authenticated(addr) && key@ == state.sessions()[addr].key,
            Err(e) => e == Error::NotAuthenticated && !state.authenticated(addr),
        },
{
    match state.get(addr) {
        Some(session) => {
            if session.is_authenticated() {
                Ok(*session.key())
            } else {
                Err(Error::NotAuthenticated)
            }
        },
        None => Err(Error::NotAuthenticated),
    }
}

/// The liveness probe: fine for a caller with an authenticated session,
/// `NotAuthenticated` for any other.
pub fn status(state: &AppState, addr: SessionIdentity) -> (r: Result<(), Error>)
    ensures
        r is Ok <==> state.authenticated(addr),
        r matches Err(e) ==> e == Error::NotAuthenticated,
{
    match authorize(state, addr) {
        Ok(_) => Ok(()),
        Err(e) => Err(e),
    }
}

/// One step of the handshake, with a fresh random secret for the host's
/// side of the key exchange and the time of the system clock: what
/// `handshake_with` does for some secret and some time.
pub fn handshake(state: &mut AppState, addr: SessionIdentity, id: u8, body: &[u8]) -> (r: Result<
    Vec<u8>,
    Error,
>)
    ensures
        final(state).config == old(state).config,
        r matches Err(e) ==> e == Error::HandshakeFailed && final(state).sessions()
            == old(state).sessions(),
        id == STEP_KEY_EXCHANGE ==> (r is Ok <==> body@.len() == KEY_LENGTH),
        id == STEP_KEY_EXCHANGE && r is Ok ==> r->Ok_0@.len() == KEY_LENGTH,
        id == STEP_KEY_EXCHANGE && r is Ok ==> exists|host_secret: Seq<u8>, now: u64|
            r->Ok_0@ == x25519_public_key(host_secret) && final(state).sessions()
                == #[trigger] after_key_exchange(
                old(state).sessions(),
                old(state).config.client_expiration_time,
                addr,
                body@,
                host_secret,
                now,
            ),
        id == STEP_KEY_EXCHANGE && r is Ok ==> forall|client_secret: Seq<u8>|
            client_secret.len() == KEY_LENGTH && body@ == #[trigger] x25519_public_key(
                client_secret,
            ) ==> final(state).sessions()[addr].key == x25519_shared_secret(
                client_secret,
                r->Ok_0@,
            ),
        id == STEP_AUTHENTICATION ==> (r is Ok <==> old(state).sessions().contains_key(addr)
            && proves_password(old(state).sessions()[addr], old(state).config.password@, body@)),
        id == STEP_AUTHENTICATION && r is Ok ==> r->Ok_0@.len() == 0 && final(state).sessions()
            == after_authentication(old(state).sessions(), addr),
        id > STEP_AUTHENTICATION ==> r is Err,
{
    let mut secret: [u8; 32] = [0;32];
    rng_fill_bytes(&mut secret);
    handshake_with(state, addr, id, body, secret, get_timestamp())
}

/// One step of the handshake, given the host's secret for the key exchange
/// and the time.
///
/// Step 0 takes the client's public key, which must be 32 bytes. It removes
/// the expired sessions, gives the caller a fresh session, not
/// authenticated, under the key agreed between the host's secret and the
/// client's public key, and answers with the host's public key. The client
/// that holds the secret of its public key derives that same key from the
/// answer.
///
/// Step 1 takes an envelope. It succeeds, with an empty answer, exactly when
/// the caller has a session and the envelope carries the configured password
/// sealed under that session's key; the session is then authenticated.
///
/// Every other case fails with `HandshakeFailed` and changes no session.
pub fn handshake_with(
    state: &mut AppState,
    addr: SessionIdentity,
    id: u8,
    body: &[u8],
    host_secret: [u8; 32],
    now: u64,
) -> (r: Result<Vec<u8>, Error>)
    ensures
        final(state).config == old(state).config,
        r matches Err(e) ==> e == Error::HandshakeFailed && final(state).sessions()
            == old(state).sessions(),
        id == STEP_KEY_EXCHANGE ==> (r is Ok <==> body@.len() == KEY_LENGTH),
        id == STEP_KEY_EXCHANGE && r is Ok ==> r->Ok_0@.len() == KEY_LENGTH,
        id == STEP_KEY_EXCHANGE && r is Ok ==> r->Ok_0@ == x25519_public_key(host_secret@)
            && final(state).sessions() == after_key_exchange(
            old(state).sessions(),
            old(state).config.client_expiration_time,
            addr,
            body@,
            host_secret@,
            now,
        ),
        id == STEP_KEY_EXCHANGE && r is Ok ==> forall|client_secret: Seq<u8>|
            client_secret.len() == KEY_LENGTH && body@ == #[trigger] x25519_public_key(
                client_secret,
            ) ==> final(state).sessions()[addr].key == x25519_shared_secret(
                client_secret,
                r->Ok_0@,
            ),
        id == STEP_AUTHENTICATION ==> (r is Ok <==> old(state).sessions().contains_key(addr)
            && proves_password(old(state).sessions()[addr], old(state).config.password@, body@)),
        id == STEP_AUTHENTICATION && r is Ok ==> r->Ok_0@.len() == 0 && final(state).sessions()
            == after_authentication(old(state).sessions(), addr),
        id > STEP_AUTHENTICATION ==> r is Err,
{
    if id == STEP_KEY_EXCHANGE {
        if body.len() != 32 {
            return Err(Error::HandshakeFailed);
        }
        let mut client_public_key: [u8; 32] = [0;32];
        let mut i: usize = 0;
        while i < 32
            invariant
                i <= 32,
                body@.len() == 32,
                forall|j: int| 0 <= j < i ==> client_public_key@[j] == body@[j],
            decreases 32 - i,
        {
            client_public_key[i] = body[i];
            i += 1;
        }
        assert(client_public_key@ =~= body@);
        let pair = EphemeralKeyPair::from_secret(host_secret);
        let server_public_key = pair.public_key();
        let key = pair.diffie_hellman(&client_public_key);
        state.add_client_at(addr, key.as_bytes(), now);
        let mut reply: Vec<u8> = Vec::new();
        let mut k: usize = 0;
        while k < 32
            invariant
                k <= 32,
                reply@.len() == k,
                forall|j: int| 0 <= j < k ==> reply@[j] == server_public_key@[j],
            decreases 32 - k,
        {
            reply.push(server_public_key[k]);
            k += 1;
        }
        assert(reply@ =~= server_public_key@);
        return Ok(reply);
    }
    if id == STEP_AUTHENTICATION {
        let key = match state.get(addr) {
            Some(session) => *session.key(),
            None => {
                return Err(Error::HandshakeFailed);
            },
        };
        let message = match EncryptedMessage::try_from_bytes(body) {
            Ok(message) => message,
            Err(_) => {
                return Err(Error::HandshakeFailed);
            },
        };
        let offered = match message.try_decrypt(&key) {
            Ok(offered) => offered,
            Err(_) => {
                return Err(Error::HandshakeFailed);
            },
        };
        if !is_password(offered.as_slice(), state.config.password.as_slice()) {
            return Err(Error::HandshakeFailed);
        }
        let found = state.authenticate(addr);
        assert(found);
        return Ok(Vec::new());
    }
    Err(Error::HandshakeFailed)
}

/// The answer to a request for the recording index.
///
/// `listing` holds the names of the files in the recordings directory,
/// `cap` is the number of recordings to show at most, and position `i` of
/// `thumbnails` holds what reading the thumbnail of the `i`-th recording of
/// `HostEntries::select(listing, cap)` gave.
///
/// A caller without an authenticated session gets `NotAuthenticated`. Any
/// other caller gets an envelope, sealed under its session key, that carries
/// the index on the wire: the newest complete recordings whose thumbnail was
/// read, newest first. The answer is `Internal` only when the index is too
/// long for the cipher.
pub fn synchronize(
    state: &AppState,
    addr: SessionIdentity,
    listing: &Vec<Vec<u8>>,
    cap: usize,
    thumbnails: Vec<Option<Vec<u8>>>,
) -> (r: Result<Vec<u8>, Error>)
    ensures
        !state.authenticated(addr) ==> r == Err::<Vec<u8>, Error>(Error::NotAuthenticated),
        state.authenticated(addr) ==> ({
            let ids = index_of(names(listing@), cap as nat);
            let index = collected(ids, thumbnails_read(thumbnails@), ids.len());
            &&& index.len() <= cap
            &&& forall|i: int|
                0 <= i < index.len() ==> is_complete(names(listing@), (#[trigger] index[i]).0)
            &&& match r {
                Ok(bytes) => carries(bytes@, state.sessions()[addr].key, encode_index(index)),
                Err(e) => e == Error::Internal && encode_index(index).len() > MAX_PLAINTEXT_SIZE,
            }
        }),
{
    let key = match authorize(state, addr) {
        Ok(key) => key,
        Err(e) => {
            return Err(e);
        },
    };
    let entries = HostEntries::sync(listing, cap, thumbnails);
    let body = entries.into_bytes();
    seal_response(&key, body.as_slice())
}

/// The answer to a request for the video of a recording, given what reading
/// the video file gave.
///
/// A caller without an authenticated session gets `NotAuthenticated`,
/// whether or not there is a video. Any other caller gets `Internal` when
/// the video could not be read or is too long for the cipher, and otherwise
/// an envelope, sealed under its session key, that carries the video.
pub fn download(state: &AppState, addr: SessionIdentity, video: Option<&[u8]>) -> (r: Result<
    Vec<u8>,
    Error,
>)
    ensures
        !state.authenticated(addr) ==> r == Err::<Vec<u8>, Error>(Error::NotAuthenticated),
        state.authenticated(addr) ==> match r {
            Ok(bytes) => video matches Some(data) && carries(
                bytes@,
                state.sessions()[addr].key,
                data@,
            ),
            Err(e) => e == Error::Internal && (video matches Some(data) ==> data@.len()
                > MAX_PLAINTEXT_SIZE),
        },
{
    let key = match authorize(state, addr) {
        Ok(key) => key,
        Err(e) => {
            return Err(e);
        },
    };
    match video {
        Some(data) => seal_response(&key, data),
        None => Err(Error::Internal),
    }
}

/// The answer to a request to delete a recording, given whether removing
/// each of its two files succeeded.
///
/// A caller without an authenticated session gets `NotAuthenticated`. Any
/// other caller gets success exactly when both files were removed, and
/// `Internal` otherwise.
pub fn delete(
    state: &AppState,
    addr: SessionIdentity,
    thumbnail_removed: bool,
    video_removed: bool,
) -> (r: Result<(), Error>)
    ensures
        !state.authenticated(addr) ==> r == Err::<(), Error>(Error::NotAuthenticated),
        state.authenticated(addr) ==> (r is Ok <==> thumbnail_removed && video_removed),
        state.authenticated(addr) ==> (r matches Err(e) ==> e == Error::Internal),
{
    match authorize(state, addr) {
        Ok(_) => {
            if thumbnail_removed && video_removed {
                Ok(())
            } else {
                Err(Error::Internal)
            }
        },
        Err(e) => Err(e),
    }
}

/// An envelope on the wire that carries `payload` sealed under `key` with a
/// fresh nonce, or `Internal` when the payload is too long for the cipher.
pub fn seal_response(key: &SessionKey, payload: &[u8]) -> (r: Result<Vec<u8>, Error>)
    ensures
        match r {
            Ok(bytes) => carries(bytes@, key@, payload@),
            Err(e) => e == Error::Internal && payload@.len() > MAX_PLAINTEXT_SIZE,
        },
{
    match EncryptedMessage::new(payload, key) {
        Ok(message) => Ok(message.into_bytes()),
        Err(_) => Err(Error::Internal),
    }
}

} // verus!
