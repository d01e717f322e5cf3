//! The host's configuration.

use crate::utils::rng_fill_bytes;
use vstd::prelude::*;
use vstd::slice::slice_to_vec;

verus! {

/// The port a generated configuration listens on.
pub const DEFAULT_PORT: u16 = 12675;

/// Bytes in a generated password.
pub const PASSWORD_SIZE: usize = 128;

/// Seconds a session lives in a generated configuration: half an hour.
pub const DEFAULT_CLIENT_EXPIRATION_TIME: u64 = 1800;

/// Seconds a recording is kept in a generated configuration: three days.
pub const DEFAULT_FILE_EXPIRATION_TIME: u64 = 259200;

/// What the host is configured with.
#[derive(Debug, Clone)]
pub struct Config {
    /// The port to listen on.
    pub port: u16,
    /// The password a client proves knowledge of.
    pub password: Vec<u8>,
    /// Seconds after which a session expires.
    pub client_expiration_time: u64,
    /// Seconds after which a recording is removed.
    pub file_expiration_time: u64,
}

impl Config {
    /// The default settings around the given password.
    pub fn with_password(password: Vec<u8>) -> (config: Config)
        ensures
            config.port == DEFAULT_PORT,
            config.password == password,
            config.client_expiration_time == DEFAULT_CLIENT_EXPIRATION_TIME,
            config.file_expiration_time == DEFAULT_FILE_EXPIRATION_TIME,
    {
        Config {
            port: DEFAULT_PORT,
            password,
            client_expiration_time: DEFAULT_CLIENT_EXPIRATION_TIME,
            file_expiration_time: DEFAULT_FILE_EXPIRATION_TIME,
        }
    }

    /// The default settings around a fresh random password of 128 bytes.
    pub fn generate() -> (config: Config)
        ensures
            config.port == DEFAULT_PORT,
            config.password@.len() == PASSWORD_SIZE,
            config.client_expiration_time == DEFAULT_CLIENT_EXPIRATION_TIME,
            config.file_expiration_time == DEFAULT_FILE_EXPIRATION_TIME,
    {
        let mut password: [u8; 128] = [0;128];
        rng_fill_bytes(&mut password);
        Self::with_password(slice_to_vec(&password))
    }
}

} // verus!
