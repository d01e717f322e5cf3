//! The session store: one session per client identity.
//!
//! A session is created by a key exchange, becomes authenticated when the
//! client proves that it knows the password, and is removed by the first
//! sweep that finds it expired. A new key exchange from the same identity
//! replaces the session that was there.

use crate::cipher::SessionKey;
use crate::host::config::Config;
use crate::identity::SessionIdentity;
use crate::utils::get_timestamp;
use std::collections::HashMap;
use vstd::prelude::*;

verus! {

broadcast use vstd::std_specs::hash::group_hash_axioms;

/// A session as a mathematical value.
pub struct SessionState {
    /// The second, since the epoch, at which the session was created.
    pub created_at: u64,
    /// The bytes of the session key.
    pub key: Seq<u8>,
    /// Whether the client has proved that it knows the password.
    pub authenticated: bool,
}

impl SessionState {
    /// The session has not yet reached the end of its life at `now`.
    pub open spec fn is_live(self, lifetime: u64, now: u64) -> bool {
        self.created_at + lifetime > now
    }
}

/// What the host holds for one client.
pub struct ClientData {
    /// The second, since the epoch, at which the session was created.
    pub timestamp: u64,
    /// The session key agreed in the key exchange.
    pub cipher: SessionKey,
    authenticated: bool,
}

impl View for ClientData {
    type V = SessionState;

    closed spec fn view(&self) -> SessionState {
        SessionState {
            created_at: self.timestamp,
            key: self.cipher@,
            authenticated: self.authenticated,
        }
    }
}

impl ClientData {
    /// Whether the client has proved that it knows the password.
    pub open spec fn spec_is_authenticated(&self) -> bool {
        self@.authenticated
    }

    /// A session created now, not authenticated.
    pub fn new(key: &[u8; 32]) -> (session: ClientData)
        ensures
            session@.key == key@,
            !session@.authenticated,
    {
        Self::created_at(key, get_timestamp())
    }

    /// A session created at `timestamp`, not authenticated.
    pub fn created_at(key: &[u8; 32], timestamp: u64) -> (session: ClientData)
        ensures
            session@ == (SessionState { created_at: timestamp, key: key@, authenticated: false }),
    {
        ClientData { timestamp, cipher: SessionKey::from_bytes(*key), authenticated: false }
    }

    /// Whether the client has proved that it knows the password.
    #[verifier::when_used_as_spec(spec_is_authenticated)]
    pub fn is_authenticated(&self) -> (authenticated: bool)
        ensures
            authenticated == self@.authenticated,
    {
        self.authenticated
    }

    /// Marks the session as authenticated. Nothing else changes.
    pub fn authenticate(&mut self)
        ensures
            final(self)@ == (SessionState { authenticated: true, ..old(self)@ }),
    {
        self.authenticated = true;
    }

    /// The second at which the session was created.
    pub fn created(&self) -> (timestamp: u64)
        ensures
            timestamp == self@.created_at,
    {
        self.timestamp
    }

    /// The session key.
    pub fn key(&self) -> (key: &SessionKey)
        ensures
            key@ == self@.key,
    {
        &self.cipher
    }

    /// Whether the session is still alive at `now`.
    pub fn live_at(&self, lifetime: u64, now: u64) -> (live: bool)
        ensures
            live == self@.is_live(lifetime, now),
    {
        now < self.timestamp || now - self.timestamp < lifetime
    }
}

/// The sessions that a sweep at `now` leaves in place: the live ones.
pub open spec fn swept(
    sessions: Map<SessionIdentity, SessionState>,
    lifetime: u64,
    now: u64,
) -> Map<SessionIdentity, SessionState> {
    sessions.restrict(Set::new(|addr: SessionIdentity| sessions[addr].is_live(lifetime, now)))
}

/// A session created at some second with lifetime `lifetime` is gone after
/// any sweep that runs `lifetime` seconds later, or later than that.
pub proof fn lemma_expired_session_is_swept(
    sessions: Map<SessionIdentity, SessionState>,
    addr: SessionIdentity,
    lifetime: u64,
    now: u64,
)
    requires
        sessions.contains_key(addr),
        now >= sessions[addr].created_at + lifetime,
    ensures
        !swept(sessions, lifetime, now).contains_key(addr),
{
}

/// A sweep leaves every session that has not expired as it is.
pub proof fn lemma_live_session_survives_sweep(
    sessions: Map<SessionIdentity, SessionState>,
    addr: SessionIdentity,
    lifetime: u64,
    now: u64,
)
    requires
        sessions.contains_key(addr),
        now < sessions[addr].created_at + lifetime,
    ensures
        swept(sessions, lifetime, now).contains_key(addr),
        swept(sessions, lifetime, now)[addr] == sessions[addr],
{
}

/// The state the host's request handlers share.
pub struct AppState {
    /// The configuration the host runs with.
    pub config: Config,
    /// The sessions, by client identity.
    pub db: HashMap<SessionIdentity, ClientData>,
}

impl AppState {
    /// The sessions as a mathematical map.
    pub open spec fn sessions(&self) -> Map<SessionIdentity, SessionState> {
        self.db@.map_values(|session: ClientData| session@)
    }

    /// `addr` has a session, and it is authenticated.
    pub open spec fn authenticated(&self, addr: SessionIdentity) -> bool {
        self.sessions().contains_key(addr) && self.sessions()[addr].authenticated
    }

    /// A state with the given configuration and no session.
    pub fn new(config: Config) -> (state: AppState)
        ensures
            state.config == config,
            state.sessions() == Map::<SessionIdentity, SessionState>::empty(),
    {
        let state = AppState { config, db: HashMap::new() };
        assert(state.sessions() =~= Map::<SessionIdentity, SessionState>::empty());
        state
    }

    /// The session of `addr`, if it has one.
    pub fn get(&self, addr: SessionIdentity) -> (session: Option<&ClientData>)
        ensures
            match session {
                Some(found) => self.sessions().contains_key(addr) && found@
                    == self.sessions()[addr],
                None => !self.sessions().contains_key(addr),
            },
    {
        self.db.get(&addr)
    }

    /// Removes the sessions that have expired by now: a sweep at the time
    /// that the system clock gives.
    pub fn update(&mut self)
        ensures
            final(self).config == old(self).config,
            exists|now: u64|
                final(self).sessions() == #[trigger] swept(
                    old(self).sessions(),
                    old(self).config.client_expiration_time,
                    now,
                ),
    {
        self.sweep(get_timestamp());
    }

    /// Removes the sessions that have expired at `now`: those created
    /// `client_expiration_time` seconds before `now`, or earlier. The others
    /// stay as they are.
    pub fn sweep(&mut self, now: u64)
        ensures
            final(self).config == old(self).config,
            final(self).sessions() == swept(
                old(self).sessions(),
                old(self).config.client_expiration_time,
                now,
            ),
            forall|addr: SessionIdentity|
                old(self).sessions().contains_key(addr) && now >= old(
                    self,
                ).sessions()[addr].created_at + old(self).config.client_expiration_time
                    ==> !final(self).sessions().contains_key(addr),
    {
        let lifetime = self.config.client_expiration_time;
        let mut expired: Vec<SessionIdentity> = Vec::new();
        for addr in it: self.db.keys()
            invariant
                forall|j: int|
                    0 <= j < expired@.len() ==> self.db@.contains_key(#[trigger] expired@[j])
                        && !self.db@[expired@[j]]@.is_live(lifetime, now),
                forall|addr: SessionIdentity| #[trigger]
                    self.db@.contains_key(addr) && !self.db@[addr]@.is_live(lifetime, now)
                        ==> expired@.contains(addr) || exists|i: int|
                        it.index() <= i < it.seq().len() && *it.seq()[i] == addr,
        {
            let ghost before = expired@;
            match self.db.get(addr) {
                Some(session) => {
                    if !session.live_at(lifetime, now) {
                        expired.push(*addr);
                        assert(expired@[expired@.len() - 1] == *addr);
                    }
                },
                None => {},
            }
            assert(forall|j: int| 0 <= j < before.len() ==> expired@[j] == before[j]);
        }
        let ghost target = swept(self.sessions(), lifetime, now);
        let mut i: usize = 0;
        while i < expired.len()
            invariant
                i <= expired@.len(),
                self.config == old(self).config,
                lifetime == old(self).config.client_expiration_time,
                target == swept(old(self).sessions(), lifetime, now),
                forall|addr: SessionIdentity| #[trigger]
                    target.contains_key(addr) ==> self.db@.contains_key(addr),
                forall|addr: SessionIdentity| #[trigger]
                    self.db@.contains_key(addr) ==> old(self).db@.contains_key(addr)
                        && self.db@[addr]
                        == old(self).db@[addr],
                forall|addr: SessionIdentity| #[trigger]
                    self.db@.contains_key(addr) && !target.contains_key(addr) ==> exists|j: int|
                        i <= j < expired@.len() && expired@[j] == addr,
                forall|j: int|
                    0 <= j < expired@.len() ==> !target.contains_key(#[trigger] expired@[j]),
            decreases expired@.len() - i,
        {
            let addr = expired[i];
            let _ = self.db.remove(&addr);
            i += 1;
        }
        assert(self.sessions() =~= target);
    }

    /// Starts a session for `addr` under `key`, created now, after removing
    /// the sessions that have expired by now: `add_client_at` at the time
    /// that the system clock gives.
    pub fn add_client(&mut self, addr: SessionIdentity, key: &[u8; 32])
        ensures
            final(self).config == old(self).config,
            exists|now: u64|
                final(self).sessions() == (#[trigger] swept(
                    old(self).sessions(),
                    old(self).config.client_expiration_time,
                    now,
                )).insert(addr, SessionState { created_at: now, key: key@, authenticated: false }),
    {
        self.add_client_at(addr, key, get_timestamp());
    }

    /// Starts a session for `addr` under `key`, created at `now`, after
    /// removing the sessions that have expired at `now`. A session that
    /// `addr` had is replaced.
    pub fn add_client_at(&mut self, addr: SessionIdentity, key: &[u8; 32], now: u64)
        ensures
            final(self).config == old(self).config,
            final(self).sessions() == swept(
                old(self).sessions(),
                old(self).config.client_expiration_time,
                now,
            ).insert(addr, SessionState { created_at: now, key: key@, authenticated: false }),
    {
        self.sweep(now);
        let ghost swept_sessions = self.sessions();
        let _ = self.db.insert(addr, ClientData::created_at(key, now));
        assert(self.sessions() =~= swept_sessions.insert(
            addr,
            SessionState { created_at: now, key: key@, authenticated: false },
        ));
    }

    /// Marks the session of `addr` as authenticated, and says whether there
    /// was one. Nothing else changes.
    pub fn authenticate(&mut self, addr: SessionIdentity) -> (found: bool)
        ensures
            found == old(self).sessions().contains_key(addr),
            final(self).config == old(self).config,
            !found ==> final(self).sessions() == old(self).sessions(),
            found ==> final(self).sessions() == old(self).sessions().insert(
                addr,
                SessionState { authenticated: true, ..old(self).sessions()[addr] },
            ),
    {
        match self.db.remove(&addr) {
            Some(session) => {
                let mut session = session;
                session.authenticate();
                let _ = self.db.insert(addr, session);
                assert(self.sessions() =~= old(self).sessions().insert(
                    addr,
                    SessionState { authenticated: true, ..old(self).sessions()[addr] },
                ));
                true
            },
            None => {
                assert(self.sessions() =~= old(self).sessions());
                false
            },
        }
    }
}

} // verus!
