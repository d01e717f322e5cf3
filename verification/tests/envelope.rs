use aes_gcm_siv::aead::Aead;
use aes_gcm_siv::Aes256GcmSiv;
use aes_gcm_siv::KeyInit;
use laptev::cipher::SessionKey;
use laptev::envelope::EncryptedMessage;
use laptev::envelope::EnvelopeError;
use laptev::utils::rng_fill_bytes;
use rand::SeedableRng;

const RFC_KEY: [u8; 32] = [
    1, 0, 0, 0, 0, 0, 0, 0, 0, 0, 0, 0, 0, 0, 0, 0, 0, 0, 0, 0, 0, 0, 0, 0, 0, 0, 0, 0, 0, 0, 0, 0,
];

const RFC_NONCE: [u8; 12] = [3, 0, 0, 0, 0, 0, 0, 0, 0, 0, 0, 0];

fn random_key() -> SessionKey {
    let mut bytes = [0u8; 32];
    rng_fill_bytes(&mut bytes);
    SessionKey::from_bytes(bytes)
}

#[test]
fn encrypted_message() {
    let cipher = SessionKey::from_bytes(
        Aes256GcmSiv::generate_key(rand::rngs::StdRng::from_entropy()).into(),
    );
    let initial_data: Vec<u8> = vec![101, 21, 211, 1];
    let encrypted_message = EncryptedMessage::new(&initial_data, &cipher).unwrap();
    assert_eq!(
        initial_data,
        encrypted_message.try_decrypt(&cipher).unwrap()
    )
}

#[test]
fn sealing_eight_bytes_gives_the_published_ciphertext() {
    let key = SessionKey::from_bytes(RFC_KEY);
    let plaintext = [1u8, 0, 0, 0, 0, 0, 0, 0];
    let message = EncryptedMessage::with_nonce(&plaintext, &key, RFC_NONCE).unwrap();
    let mut expected: Vec<u8> = RFC_NONCE.to_vec();
    expected.extend_from_slice(&[24, 0, 0, 0, 0, 0, 0, 0]);
    expected.extend_from_slice(&[
        0xc2, 0xef, 0x32, 0x8e, 0x5c, 0x71, 0xc8, 0x3b, 0x84, 0x31, 0x22, 0x13, 0x0f, 0x73, 0x64,
        0xb7, 0x61, 0xe0, 0xb9, 0x74, 0x27, 0xe3, 0xdf, 0x28,
    ]);
    assert_eq!(message.into_bytes(), expected);
}

#[test]
fn sealing_nothing_gives_the_published_tag() {
    let key = SessionKey::from_bytes(RFC_KEY);
    let message = EncryptedMessage::with_nonce(&[], &key, RFC_NONCE).unwrap();
    let mut expected: Vec<u8> = RFC_NONCE.to_vec();
    expected.extend_from_slice(&[16, 0, 0, 0, 0, 0, 0, 0]);
    expected.extend_from_slice(&[
        0x07, 0xf5, 0xf4, 0x16, 0x9b, 0xbf, 0x55, 0xa8, 0x40, 0x0c, 0xd4, 0x7e, 0xa6, 0xfd, 0x40,
        0x0f,
    ]);
    assert_eq!(message.into_bytes(), expected);
}

#[test]
fn sealing_agrees_with_the_cipher_used_directly() {
    let mut key = [0u8; 32];
    rng_fill_bytes(&mut key);
    let nonce = [7u8; 12];
    let plaintext = b"a message of some length, not a multiple of sixteen";
    let cipher = Aes256GcmSiv::new(&key.into());
    let direct = cipher.encrypt(&nonce.into(), plaintext.as_ref()).unwrap();
    let message =
        EncryptedMessage::with_nonce(plaintext, &SessionKey::from_bytes(key), nonce).unwrap();
    let bytes = message.into_bytes();
    assert_eq!(&bytes[..12], &nonce);
    assert_eq!(&bytes[20..], &direct[..]);
    assert_eq!(direct.len(), plaintext.len() + 16);
}

#[test]
fn open_undoes_seal_for_plaintexts_of_many_lengths() {
    let key = random_key();
    for length in [0usize, 1, 15, 16, 17, 31, 32, 33, 255, 4096, 100_000] {
        let plaintext: Vec<u8> = (0..length).map(|i| (i * 7 + 3) as u8).collect();
        let message = EncryptedMessage::new(&plaintext, &key).unwrap();
        assert_eq!(message.try_decrypt(&key), Ok(plaintext));
    }
}

#[test]
fn open_undoes_seal_across_the_wire() {
    let key = random_key();
    let plaintext = b"over the wire and back".to_vec();
    let bytes = EncryptedMessage::new(&plaintext, &key).unwrap().into_bytes();
    assert_eq!(bytes.len(), 12 + 8 + plaintext.len() + 16);
    let received = EncryptedMessage::try_from_bytes(&bytes).unwrap();
    assert_eq!(received.try_decrypt(&key), Ok(plaintext));
}

#[test]
fn the_ciphertext_is_not_the_plaintext() {
    let key = random_key();
    let plaintext = vec![0u8; 64];
    let bytes = EncryptedMessage::new(&plaintext, &key).unwrap().into_bytes();
    assert_ne!(&bytes[20..84], &plaintext[..]);
}

#[test]
fn a_thousand_seals_use_a_thousand_nonces() {
    let key = random_key();
    let mut nonces: Vec<Vec<u8>> = Vec::new();
    for _ in 0..1000 {
        let bytes = EncryptedMessage::new(b"same plaintext", &key).unwrap().into_bytes();
        nonces.push(bytes[..12].to_vec());
    }
    nonces.sort();
    nonces.dedup();
    assert_eq!(nonces.len(), 1000);
}

#[test]
fn flipping_any_bit_of_a_sealed_envelope_never_opens() {
    let key = random_key();
    let plaintext = b"do not touch".to_vec();
    let bytes = EncryptedMessage::new(&plaintext, &key).unwrap().into_bytes();
    for position in 0..bytes.len() {
        for bit in 0..8 {
            let mut tampered = bytes.clone();
            tampered[position] ^= 1 << bit;
            let opened = match EncryptedMessage::try_from_bytes(&tampered) {
                Ok(message) => message.try_decrypt(&key),
                Err(e) => Err(e),
            };
            assert!(opened.is_err());
            if position < 12 || position >= 20 {
                assert_eq!(opened, Err(EnvelopeError::AuthFailure));
            }
        }
    }
}

#[test]
fn opening_under_another_key_fails() {
    let message = EncryptedMessage::new(b"secret", &random_key()).unwrap();
    assert_eq!(message.try_decrypt(&random_key()), Err(EnvelopeError::AuthFailure));
}

#[test]
fn an_envelope_shorter_than_its_tag_does_not_open() {
    let mut bytes = vec![0u8; 12];
    bytes.extend_from_slice(&[3, 0, 0, 0, 0, 0, 0, 0]);
    bytes.extend_from_slice(&[1, 2, 3]);
    let message = EncryptedMessage::try_from_bytes(&bytes).unwrap();
    assert_eq!(message.try_decrypt(&random_key()), Err(EnvelopeError::AuthFailure));
}

#[test]
fn bytes_without_a_whole_header_are_no_envelope() {
    for length in 0..20 {
        let bytes = vec![0u8; length];
        assert!(matches!(
            EncryptedMessage::try_from_bytes(&bytes),
            Err(EnvelopeError::DecodeFailure)
        ));
    }
    let header_only = vec![0u8; 20];
    assert!(EncryptedMessage::try_from_bytes(&header_only).is_ok());
}

#[test]
fn a_header_that_announces_more_than_there_is_is_no_envelope() {
    let mut bytes = vec![9u8; 12];
    bytes.extend_from_slice(&[5, 0, 0, 0, 0, 0, 0, 0]);
    bytes.extend_from_slice(&[1, 2, 3, 4]);
    assert!(matches!(
        EncryptedMessage::try_from_bytes(&bytes),
        Err(EnvelopeError::DecodeFailure)
    ));
    bytes.push(5);
    assert!(EncryptedMessage::try_from_bytes(&bytes).is_ok());
    let mut huge = vec![9u8; 12];
    huge.extend_from_slice(&[255; 8]);
    huge.extend_from_slice(&[0; 64]);
    assert!(matches!(
        EncryptedMessage::try_from_bytes(&huge),
        Err(EnvelopeError::DecodeFailure)
    ));
}

#[test]
fn bytes_after_the_envelope_are_ignored() {
    let key = random_key();
    let plaintext = b"payload".to_vec();
    let bytes = EncryptedMessage::new(&plaintext, &key).unwrap().into_bytes();
    let mut longer = bytes.clone();
    longer.extend_from_slice(b"trailing");
    let received = EncryptedMessage::try_from_bytes(&longer).unwrap();
    assert_eq!(received.try_decrypt(&key), Ok(plaintext));
    assert_eq!(received.into_bytes(), bytes);
}

#[test]
fn the_wire_form_is_that_of_bincode() {
    let key = random_key();
    let nonce = [0xabu8; 12];
    let message = EncryptedMessage::with_nonce(b"layout", &key, nonce).unwrap();
    let bytes = message.clone().into_bytes();
    let data = bytes[20..].to_vec();
    let expected = bincode::serialize(&(nonce, data.clone())).unwrap();
    assert_eq!(bytes, expected);
    let decoded: ([u8; 12], Vec<u8>) = bincode::deserialize(&bytes).unwrap();
    assert_eq!(decoded, (nonce, data));
}

#[test]
fn a_session_key_keeps_its_bytes() {
    let mut bytes = [0u8; 32];
    for (i, byte) in bytes.iter_mut().enumerate() {
        *byte = i as u8;
    }
    let key = SessionKey::from_bytes(bytes);
    assert_eq!(key.as_bytes(), &bytes);
}
