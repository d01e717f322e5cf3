//! The client's configuration: the password of each host it knows, and how
//! to show what a host lists.

use crate::identity::SessionIdentity;
use crate::identity::LOCALHOST;
use std::collections::HashMap;
use vstd::prelude::*;

verus! {

broadcast use vstd::std_specs::hash::group_hash_axioms;

/// The number of recordings shown unless configured otherwise.
pub const DEFAULT_SIZE: usize = 25;

/// What the client is configured with.
#[derive(Debug, Clone)]
pub struct Config {
    /// The address shown when the client starts.
    pub default_address: String,
    /// The number of recordings to show at most.
    pub size: usize,
    /// The number of recordings to skip before the first one shown.
    pub skip: usize,
    /// The local time's offset from UTC, in seconds.
    pub local_offset: i32,
    /// The password of each known host, by the host's address.
    pub entries: HashMap<SessionIdentity, Vec<u8>>,
}

impl Config {
    /// The password to use with `host`, if the configuration holds one.
    pub fn password_for(&self, host: SessionIdentity) -> (password: Option<&Vec<u8>>)
        ensures
            match password {
                Some(found) => self.entries@.contains_key(host) && *found == self.entries@[host],
                None => !self.entries@.contains_key(host),
            },
    {
        self.entries.get(&host)
    }
}

impl Default for Config {
    /// The configuration of a client that knows the local host only, with an
    /// empty password, and shows 25 recordings in UTC.
    fn default() -> (config: Config)
        ensures
            config.default_address@ == "127.0.0.1:12675"@,
            config.size == DEFAULT_SIZE,
            config.skip == 0,
            config.local_offset == 0,
            config.entries@.dom() == set![LOCALHOST],
            config.entries@[LOCALHOST]@ == Seq::<u8>::empty(),
    {
        let mut entries: HashMap<SessionIdentity, Vec<u8>> = HashMap::new();
        let _ = entries.insert(LOCALHOST, Vec::new());
        assert(entries@.dom() =~= set![LOCALHOST]);
        Config {
            default_address: "127.0.0.1:12675".to_owned(),
            size: DEFAULT_SIZE,
            skip: 0,
            local_offset: 0,
            entries,
        }
    }
}

} // verus!
