use laptev::cipher::SessionKey;
use laptev::client::controller::Laptev;
use laptev::client::controller::Response;
use laptev::client::data::SharedCipher;
use laptev::envelope::EncryptedMessage;
use laptev::host::config::Config;
use laptev::host::data::AppState;
use laptev::host::database::HostEntries;
use laptev::host::error::Error;
use laptev::host::handler::authorize;
use laptev::host::handler::delete;
use laptev::host::handler::download;
use laptev::host::handler::handshake;
use laptev::host::handler::handshake_with;
use laptev::host::handler::seal_response;
use laptev::host::handler::status;
use laptev::host::handler::synchronize;
use laptev::key_exchange::EphemeralKeyPair;

const CLIENT: u128 = 0xffff_0a00_0001;
const STRANGER: u128 = 0xffff_0a00_0002;
const PASSWORD: &[u8] = b"correct horse battery staple";

fn fresh_state() -> AppState {
    AppState::new(Config::with_password(PASSWORD.to_vec()))
}

fn exchange_keys(state: &mut AppState, addr: u128) -> SessionKey {
    let pair = EphemeralKeyPair::generate();
    let reply = handshake(state, addr, 0, &pair.public_key()).unwrap();
    let host_public: [u8; 32] = reply.try_into().unwrap();
    pair.diffie_hellman(&host_public)
}

fn authenticated_state(addr: u128) -> (AppState, SessionKey) {
    let mut state = fresh_state();
    let key = exchange_keys(&mut state, addr);
    let proof = EncryptedMessage::new(PASSWORD, &key).unwrap().into_bytes();
    assert_eq!(handshake(&mut state, addr, 1, &proof), Ok(Vec::new()));
    (state, key)
}

fn listing(names: &[&str]) -> Vec<Vec<u8>> {
    names.iter().map(|name| name.as_bytes().to_vec()).collect()
}

fn open(bytes: &[u8], key: &SessionKey) -> Vec<u8> {
    EncryptedMessage::try_from_bytes(bytes).unwrap().try_decrypt(key).unwrap()
}

#[test]
fn the_key_exchange_gives_both_sides_the_same_key() {
    let mut state = fresh_state();
    let pair = EphemeralKeyPair::generate();
    let reply = handshake(&mut state, CLIENT, 0, &pair.public_key()).unwrap();
    assert_eq!(reply.len(), 32);
    let host_public: [u8; 32] = reply.try_into().unwrap();
    let key = pair.diffie_hellman(&host_public);
    let session = state.get(CLIENT).unwrap();
    assert_eq!(session.cipher.as_bytes(), key.as_bytes());
    assert!(!session.is_authenticated());
}

#[test]
fn the_key_exchange_with_given_secrets_is_exact() {
    let mut state = fresh_state();
    let client = EphemeralKeyPair::from_secret([1u8; 32]);
    let host = EphemeralKeyPair::from_secret([2u8; 32]);
    let reply =
        handshake_with(&mut state, CLIENT, 0, &client.public_key(), [2u8; 32], 777).unwrap();
    assert_eq!(reply, host.public_key().to_vec());
    let expected = host.diffie_hellman(&client.public_key());
    let session = state.get(CLIENT).unwrap();
    assert_eq!(session.timestamp, 777);
    assert_eq!(session.cipher.as_bytes(), expected.as_bytes());
    assert!(!session.is_authenticated());
}

#[test]
fn a_public_key_of_another_length_fails_the_key_exchange() {
    for length in [0usize, 1, 31, 33, 64] {
        let mut state = fresh_state();
        let body = vec![5u8; length];
        assert_eq!(handshake(&mut state, CLIENT, 0, &body), Err(Error::HandshakeFailed));
        assert!(state.get(CLIENT).is_none());
    }
}

#[test]
fn a_failed_key_exchange_leaves_the_sessions_alone() {
    let (mut state, key) = authenticated_state(CLIENT);
    assert_eq!(handshake(&mut state, CLIENT, 0, &[1, 2, 3]), Err(Error::HandshakeFailed));
    let session = state.get(CLIENT).unwrap();
    assert!(session.is_authenticated());
    assert_eq!(session.cipher.as_bytes(), key.as_bytes());
}

#[test]
fn a_key_exchange_sweeps_expired_sessions() {
    let mut state = fresh_state();
    state.add_client_at(STRANGER, &[1u8; 32], 100);
    let client = EphemeralKeyPair::generate();
    let _ = handshake_with(&mut state, CLIENT, 0, &client.public_key(), [3u8; 32], 100 + 1800);
    assert!(state.get(STRANGER).is_none());
    assert!(state.get(CLIENT).is_some());
}

#[test]
fn the_right_password_authenticates_the_session() {
    let mut state = fresh_state();
    let key = exchange_keys(&mut state, CLIENT);
    assert_eq!(status(&state, CLIENT), Err(Error::NotAuthenticated));
    let proof = EncryptedMessage::new(PASSWORD, &key).unwrap().into_bytes();
    assert_eq!(handshake(&mut state, CLIENT, 1, &proof), Ok(Vec::new()));
    assert!(state.get(CLIENT).unwrap().is_authenticated());
    assert_eq!(status(&state, CLIENT), Ok(()));
}

#[test]
fn the_wrong_password_fails_and_changes_nothing() {
    let mut state = fresh_state();
    let key = exchange_keys(&mut state, CLIENT);
    let proof = EncryptedMessage::new(b"wrong password", &key).unwrap().into_bytes();
    assert_eq!(handshake(&mut state, CLIENT, 1, &proof), Err(Error::HandshakeFailed));
    let session = state.get(CLIENT).unwrap();
    assert!(!session.is_authenticated());
    assert_eq!(session.cipher.as_bytes(), key.as_bytes());
    let files = listing(&["1.jpg", "1.h264"]);
    assert_eq!(
        synchronize(&state, CLIENT, &files, 25, vec![Some(vec![1u8])]),
        Err(Error::NotAuthenticated)
    );
}

#[test]
fn a_password_that_is_a_prefix_or_an_extension_fails() {
    let mut state = fresh_state();
    let key = exchange_keys(&mut state, CLIENT);
    let shorter = &PASSWORD[..PASSWORD.len() - 1];
    let mut longer = PASSWORD.to_vec();
    longer.push(b'!');
    for offered in [shorter, &longer[..], b""] {
        let proof = EncryptedMessage::new(offered, &key).unwrap().into_bytes();
        assert_eq!(handshake(&mut state, CLIENT, 1, &proof), Err(Error::HandshakeFailed));
    }
    assert!(!state.get(CLIENT).unwrap().is_authenticated());
}

#[test]
fn the_client_may_try_again_within_the_same_session() {
    let mut state = fresh_state();
    let key = exchange_keys(&mut state, CLIENT);
    let wrong = EncryptedMessage::new(b"wrong", &key).unwrap().into_bytes();
    assert_eq!(handshake(&mut state, CLIENT, 1, &wrong), Err(Error::HandshakeFailed));
    let right = EncryptedMessage::new(PASSWORD, &key).unwrap().into_bytes();
    assert_eq!(handshake(&mut state, CLIENT, 1, &right), Ok(Vec::new()));
    assert_eq!(handshake(&mut state, CLIENT, 1, &right), Ok(Vec::new()));
    assert!(state.get(CLIENT).unwrap().is_authenticated());
}

#[test]
fn a_password_sealed_under_another_key_fails() {
    let mut state = fresh_state();
    let _ = exchange_keys(&mut state, CLIENT);
    let other = SessionKey::from_bytes([9u8; 32]);
    let proof = EncryptedMessage::new(PASSWORD, &other).unwrap().into_bytes();
    assert_eq!(handshake(&mut state, CLIENT, 1, &proof), Err(Error::HandshakeFailed));
    assert!(!state.get(CLIENT).unwrap().is_authenticated());
}

#[test]
fn a_tampered_or_malformed_proof_fails() {
    let mut state = fresh_state();
    let key = exchange_keys(&mut state, CLIENT);
    let proof = EncryptedMessage::new(PASSWORD, &key).unwrap().into_bytes();
    let mut tampered = proof.clone();
    tampered[25] ^= 1;
    assert_eq!(handshake(&mut state, CLIENT, 1, &tampered), Err(Error::HandshakeFailed));
    assert_eq!(handshake(&mut state, CLIENT, 1, &proof[..19]), Err(Error::HandshakeFailed));
    assert_eq!(handshake(&mut state, CLIENT, 1, &[]), Err(Error::HandshakeFailed));
    assert_eq!(handshake(&mut state, CLIENT, 1, PASSWORD), Err(Error::HandshakeFailed));
    assert!(!state.get(CLIENT).unwrap().is_authenticated());
}

#[test]
fn a_proof_without_a_session_fails() {
    let mut state = fresh_state();
    let key = exchange_keys(&mut state, CLIENT);
    let proof = EncryptedMessage::new(PASSWORD, &key).unwrap().into_bytes();
    assert_eq!(handshake(&mut state, STRANGER, 1, &proof), Err(Error::HandshakeFailed));
    assert!(state.get(STRANGER).is_none());
    assert!(!state.get(CLIENT).unwrap().is_authenticated());
}

#[test]
fn there_is_no_third_step() {
    let (mut state, key) = authenticated_state(CLIENT);
    let proof = EncryptedMessage::new(PASSWORD, &key).unwrap().into_bytes();
    for id in [2u8, 3, 100, 255] {
        assert_eq!(handshake(&mut state, CLIENT, id, &proof), Err(Error::HandshakeFailed));
        assert_eq!(handshake(&mut state, CLIENT, id, &[7u8; 32]), Err(Error::HandshakeFailed));
    }
    assert!(state.get(CLIENT).unwrap().is_authenticated());
}

#[test]
fn without_an_authenticated_session_every_operation_is_refused() {
    let mut state = fresh_state();
    let files = listing(&["1.jpg", "1.h264"]);
    let video = b"video".to_vec();
    for stage in 0..2 {
        if stage == 1 {
            let _ = exchange_keys(&mut state, CLIENT);
        }
        assert_eq!(status(&state, CLIENT), Err(Error::NotAuthenticated));
        assert!(matches!(authorize(&state, CLIENT), Err(Error::NotAuthenticated)));
        assert_eq!(
            synchronize(&state, CLIENT, &files, 25, vec![Some(vec![1u8])]),
            Err(Error::NotAuthenticated)
        );
        assert_eq!(download(&state, CLIENT, Some(&video)), Err(Error::NotAuthenticated));
        assert_eq!(download(&state, CLIENT, None), Err(Error::NotAuthenticated));
        assert_eq!(delete(&state, CLIENT, true, true), Err(Error::NotAuthenticated));
        assert_eq!(delete(&state, CLIENT, false, false), Err(Error::NotAuthenticated));
    }
}

#[test]
fn the_session_of_one_client_does_not_serve_another() {
    let (state, _key) = authenticated_state(CLIENT);
    assert_eq!(status(&state, CLIENT), Ok(()));
    assert_eq!(status(&state, STRANGER), Err(Error::NotAuthenticated));
    assert_eq!(download(&state, STRANGER, Some(b"video")), Err(Error::NotAuthenticated));
    assert_eq!(delete(&state, STRANGER, true, true), Err(Error::NotAuthenticated));
}

#[test]
fn a_swept_session_is_refused() {
    let (mut state, _key) = authenticated_state(CLIENT);
    let created = state.get(CLIENT).unwrap().timestamp;
    state.sweep(created + 1800);
    assert_eq!(status(&state, CLIENT), Err(Error::NotAuthenticated));
    assert_eq!(download(&state, CLIENT, Some(b"video")), Err(Error::NotAuthenticated));
}

#[test]
fn authorizing_gives_the_session_key() {
    let (state, key) = authenticated_state(CLIENT);
    assert_eq!(authorize(&state, CLIENT).unwrap().as_bytes(), key.as_bytes());
}

#[test]
fn the_index_arrives_sealed_sorted_and_capped() {
    let (state, key) = authenticated_state(CLIENT);
    let files = listing(&[
        "10.jpg", "10.h264", "30.jpg", "30.h264", "20.h264", "20.jpg", "40.jpg", "50.h264",
    ]);
    let ids = HostEntries::select(&files, 2);
    assert_eq!(ids, vec![30, 20]);
    let thumbnails = vec![Some(b"thirty".to_vec()), Some(b"twenty".to_vec())];
    let answer = synchronize(&state, CLIENT, &files, 2, thumbnails).unwrap();
    let response = Response { status: 200, body: answer };
    let entries = Laptev::sync(Some(&response), &SharedCipher::new(key)).unwrap();
    let listed: Vec<(u64, Vec<u8>)> = entries
        .0
        .iter()
        .map(|entry| (entry.timestamp, entry.thumbnail.as_ref().to_vec()))
        .collect();
    assert_eq!(listed, vec![(30, b"thirty".to_vec()), (20, b"twenty".to_vec())]);
}

#[test]
fn a_recording_whose_thumbnail_was_not_read_is_left_out() {
    let (state, key) = authenticated_state(CLIENT);
    let files = listing(&["1.jpg", "1.h264", "2.jpg", "2.h264", "3.jpg", "3.h264"]);
    let thumbnails = vec![Some(b"c".to_vec()), None, Some(b"a".to_vec())];
    let answer = synchronize(&state, CLIENT, &files, 25, thumbnails).unwrap();
    let plaintext = open(&answer, &key);
    let expected: Vec<(u64, Vec<u8>)> = vec![(3, b"c".to_vec()), (1, b"a".to_vec())];
    assert_eq!(plaintext, bincode::serialize(&expected).unwrap());
}

#[test]
fn an_empty_directory_gives_an_empty_index() {
    let (state, key) = authenticated_state(CLIENT);
    let answer = synchronize(&state, CLIENT, &Vec::new(), 25, Vec::new()).unwrap();
    assert_eq!(open(&answer, &key), vec![0u8; 8]);
}

#[test]
fn a_video_arrives_sealed_under_the_session_key() {
    let (state, key) = authenticated_state(CLIENT);
    let video: Vec<u8> = (0..5000u32).map(|i| (i % 251) as u8).collect();
    let answer = download(&state, CLIENT, Some(&video)).unwrap();
    assert_eq!(answer.len(), 12 + 8 + video.len() + 16);
    assert_eq!(open(&answer, &key), video);
    assert!(EncryptedMessage::try_from_bytes(&answer)
        .unwrap()
        .try_decrypt(&SessionKey::from_bytes([0u8; 32]))
        .is_err());
}

#[test]
fn a_video_that_could_not_be_read_is_an_internal_failure() {
    let (state, _key) = authenticated_state(CLIENT);
    assert_eq!(download(&state, CLIENT, None), Err(Error::Internal));
}

#[test]
fn deleting_succeeds_only_when_both_files_went() {
    let (state, _key) = authenticated_state(CLIENT);
    assert_eq!(delete(&state, CLIENT, true, true), Ok(()));
    assert_eq!(delete(&state, CLIENT, true, false), Err(Error::Internal));
    assert_eq!(delete(&state, CLIENT, false, true), Err(Error::Internal));
    assert_eq!(delete(&state, CLIENT, false, false), Err(Error::Internal));
}

#[test]
fn after_a_deletion_the_download_fails_and_the_index_forgets() {
    let (state, key) = authenticated_state(CLIENT);
    let mut files = listing(&["42.jpg", "42.h264", "41.jpg", "41.h264"]);
    assert_eq!(HostEntries::select(&files, 25), vec![42, 41]);
    files.retain(|name| name != b"42.jpg" && name != b"42.h264");
    assert_eq!(delete(&state, CLIENT, true, true), Ok(()));
    assert_eq!(download(&state, CLIENT, None), Err(Error::Internal));
    let answer = synchronize(&state, CLIENT, &files, 25, vec![Some(b"t".to_vec())]).unwrap();
    let expected: Vec<(u64, Vec<u8>)> = vec![(41, b"t".to_vec())];
    assert_eq!(open(&answer, &key), bincode::serialize(&expected).unwrap());
}

#[test]
fn a_sealed_answer_is_an_envelope_and_nothing_else() {
    let key = SessionKey::from_bytes([4u8; 32]);
    let answer = seal_response(&key, b"payload").unwrap();
    assert_eq!(answer.len(), 12 + 8 + 7 + 16);
    assert_eq!(&answer[12..20], &[23, 0, 0, 0, 0, 0, 0, 0]);
    assert_eq!(open(&answer, &key), b"payload".to_vec());
}

#[test]
fn failures_are_described_and_carried_by_a_status() {
    assert_eq!(
        Error::HandshakeFailed.description(),
        "could not establish a secure and trusted connection with the client"
    );
    assert_eq!(Error::NotAuthenticated.description(), "not an authenticated client");
    assert_eq!(Error::Internal.description(), "internal server error");
    assert_eq!(Error::HandshakeFailed.status_code(), 403);
    assert_eq!(Error::NotAuthenticated.status_code(), 403);
    assert_eq!(Error::Internal.status_code(), 500);
}
