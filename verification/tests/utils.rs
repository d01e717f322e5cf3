use laptev::host::config::Config;
use laptev::utils::get_rng;
use laptev::utils::get_timestamp;
use laptev::utils::rng_fill_bytes;
use rand::RngCore;

#[test]
fn the_clock_reads_after_the_epoch() {
    let first = get_timestamp();
    assert!(first > 1_000_000_000);
    let second = get_timestamp();
    assert!(second >= first);
    assert!(second - first < 60);
}

#[test]
fn filling_overwrites_the_buffer_and_keeps_its_length() {
    let mut bytes = [0u8; 64];
    rng_fill_bytes(&mut bytes);
    assert_eq!(bytes.len(), 64);
    assert_ne!(bytes, [0u8; 64]);
    let mut other = [0u8; 64];
    rng_fill_bytes(&mut other);
    assert_ne!(bytes, other);
}

#[test]
fn filling_an_empty_buffer_is_fine() {
    let mut bytes: [u8; 0] = [];
    rng_fill_bytes(&mut bytes);
    assert_eq!(bytes.len(), 0);
}

#[test]
fn generators_are_seeded_apart() {
    let mut first = get_rng();
    let mut second = get_rng();
    assert_ne!(first.next_u64(), second.next_u64());
}

#[test]
fn a_generated_configuration_has_the_defaults_and_a_random_password() {
    let config = Config::generate();
    assert_eq!(config.port, 12675);
    assert_eq!(config.client_expiration_time, 1800);
    assert_eq!(config.file_expiration_time, 259200);
    assert_eq!(config.password.len(), 128);
    assert_ne!(config.password, vec![0u8; 128]);
    assert_ne!(config.password, Config::generate().password);
}

#[test]
fn a_configuration_keeps_the_password_given() {
    let config = Config::with_password(vec![1, 2, 3]);
    assert_eq!(config.port, 12675);
    assert_eq!(config.password, vec![1, 2, 3]);
    assert_eq!(config.client_expiration_time, 1800);
    assert_eq!(config.file_expiration_time, 259200);
}
