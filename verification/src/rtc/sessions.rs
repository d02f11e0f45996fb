//! The sessions of a transport: who is pending, who is pooled, who failed.
//!
//! A session is found by its peer's address. A pending session waits for its
//! data channel; a pooled session has one. Removal always names the owner it
//! means, so that a late handler cannot remove the successor of its session.

use vstd::prelude::*;
use crate::addr::TransportAddr;
use crate::addr_map::AddrMap;
use crate::error::{Connection, ConnectionState, Failure, TransportError};
use crate::text::same_text;
use crate::rtc::lifecycle::{Physical, PhysicalPhase, PhysicalResources};

verus! {

/// Which side began a pending session.
#[derive(Clone, Copy, Debug, PartialEq, Eq, Structural)]
pub enum PendingDialOrigin {
    Local,
    Remote,
}

/// A session whose data channel is open. `peer` identifies its peer connection
/// and `generation` the physical slot that the connection was created in.
#[derive(Debug)]
pub struct PooledSession {
    pub session_id: String,
    pub peer: u64,
    pub generation: u64,
}

/// A session that waits for its data channel. `deadline` is a reading of the
/// monotonic clock in nanoseconds.
#[derive(Debug)]
pub struct PendingDial {
    pub session_id: String,
    pub phase_owner_id: String,
    pub peer: u64,
    pub generation: u64,
    pub created_at_ms: u64,
    pub origin: PendingDialOrigin,
    pub deadline: u64,
}

/// A pooled session as a mathematical value.
pub struct Session {
    pub id: Seq<char>,
    pub peer: u64,
    pub generation: u64,
}

/// A pending session as a mathematical value.
pub struct Dial {
    pub id: Seq<char>,
    pub phase_owner: Seq<char>,
    pub peer: u64,
    pub generation: u64,
    pub created_at_ms: u64,
    pub origin: PendingDialOrigin,
    pub deadline: u64,
}

impl View for PooledSession {
    type V = Session;

    open spec fn view(&self) -> Session {
        Session { id: self.session_id@, peer: self.peer, generation: self.generation }
    }
}

impl View for PendingDial {
    type V = Dial;

    open spec fn view(&self) -> Dial {
        Dial {
            id: self.session_id@,
            phase_owner: self.phase_owner_id@,
            peer: self.peer,
            generation: self.generation,
            created_at_ms: self.created_at_ms,
            origin: self.origin,
            deadline: self.deadline,
        }
    }
}

/// Names a session owner by its session, its peer connection, the generation of
/// its physical slot, or several of these.
#[derive(Debug)]
pub struct WebRtcSessionOwner {
    pub session_id: Option<String>,
    pub peer: Option<u64>,
    pub generation: Option<u64>,
}

/// A session owner's name as a mathematical value.
pub struct Owner {
    pub session: Option<Seq<char>>,
    pub peer: Option<u64>,
    pub generation: Option<u64>,
}

impl Owner {
    /// Whether everything that the name says is true of a session. A peer
    /// connection that is being closed has no leased slot.
    pub open spec fn matches(self, session: Seq<char>, peer: u64, lease: Option<u64>) -> bool {
        &&& self.session matches Some(expected) ==> expected == session
        &&& self.peer matches Some(expected) ==> expected == peer
        &&& self.generation matches Some(expected) ==> lease == Some(expected)
    }
}

impl View for WebRtcSessionOwner {
    type V = Owner;

    open spec fn view(&self) -> Owner {
        Owner {
            session: (match self.session_id {
                Some(id) => Some(id@),
                None => None,
            }),
            peer: self.peer,
            generation: self.generation,
        }
    }
}

impl WebRtcSessionOwner {
    /// The owner of one session on one peer connection.
    pub fn new(session_id: &str, peer: u64) -> (owner: WebRtcSessionOwner)
        ensures
            owner@ == (Owner { session: Some(session_id@), peer: Some(peer), generation: None }),
    {
        WebRtcSessionOwner { session_id: Some(session_id.to_owned()), peer: Some(peer), generation: None }
    }

    /// Whoever owns one generation of a physical slot.
    pub fn for_generation(generation: u64) -> (owner: WebRtcSessionOwner)
        ensures
            owner@ == (Owner { session: None, peer: None, generation: Some(generation) }),
    {
        WebRtcSessionOwner { session_id: None, peer: None, generation: Some(generation) }
    }

    pub fn matches(&self, session_id: &str, peer: u64, lease: Option<u64>) -> (yes: bool)
        ensures
            yes == self@.matches(session_id@, peer, lease),
    {
        let session_ok = match &self.session_id {
            Some(expected) => same_text(expected.as_str(), session_id),
            None => true,
        };
        let peer_ok = match self.peer {
            Some(expected) => expected == peer,
            None => true,
        };
        let generation_ok = match self.generation {
            Some(expected) => match lease {
                Some(actual) => actual == expected,
                None => false,
            },
            None => true,
        };
        session_ok && peer_ok && generation_ok
    }
}

/// The generation of a peer connection's slot while it is active.
pub open spec fn lease_of(physical: Physical, addr: Seq<u8>, generation: u64) -> Option<u64> {
    if physical.holds(addr, generation, PhysicalPhase::Active) {
        Some(generation)
    } else {
        None
    }
}

fn lease_generation(physical: &PhysicalResources, addr: &TransportAddr, generation: u64) -> (lease:
    Option<u64>)
    requires
        physical.inv(),
    ensures
        lease == lease_of(physical@, addr@, generation),
{
    let current = physical.generation(addr);
    let phase = physical.phase(addr);
    match (current, phase) {
        (Some(g), Some(PhysicalPhase::Active)) => if g == generation {
            Some(generation)
        } else {
            None
        },
        _ => None,
    }
}

/// The sessions of a transport as a mathematical value.
#[verifier::ext_equal]
pub struct Sessions {
    pub pool: Map<Seq<u8>, Session>,
    pub pending: Map<Seq<u8>, Dial>,
    pub failed: Map<Seq<u8>, Seq<char>>,
    pub ready: Set<Seq<u8>>,
}

impl Sessions {
    pub open spec fn empty() -> Sessions {
        Sessions {
            pool: Map::empty(),
            pending: Map::empty(),
            failed: Map::empty(),
            ready: Set::empty(),
        }
    }

    /// Whether the pooled session of an address is the one that is meant; every
    /// pooled session is where no owner is named.
    pub open spec fn pooled_is(
        self,
        addr: Seq<u8>,
        expected: Option<Owner>,
        physical: Physical,
    ) -> bool {
        &&& self.pool.dom().contains(addr)
        &&& expected matches Some(owner) ==> owner.matches(
            self.pool[addr].id,
            self.pool[addr].peer,
            lease_of(physical, addr, self.pool[addr].generation),
        )
    }

    /// Whether the pending session of an address is the one that is meant.
    pub open spec fn pending_is(
        self,
        addr: Seq<u8>,
        expected: Option<Owner>,
        physical: Physical,
    ) -> bool {
        &&& self.pending.dom().contains(addr)
        &&& expected matches Some(owner) ==> owner.matches(
            self.pending[addr].id,
            self.pending[addr].peer,
            lease_of(physical, addr, self.pending[addr].generation),
        )
    }

    /// The sessions after an address was cleaned up: the meant sessions are
    /// gone, and where any was, or no owner was named, the address is no longer
    /// ready and its failure is the given one.
    pub open spec fn cleaned(
        self,
        addr: Seq<u8>,
        expected: Option<Owner>,
        failure: Option<Seq<char>>,
        physical: Physical,
    ) -> Sessions {
        let pooled = self.pooled_is(addr, expected, physical);
        let pending = self.pending_is(addr, expected, physical);
        let settled = pooled || pending || expected is None;
        Sessions {
            pool: if pooled { self.pool.remove(addr) } else { self.pool },
            pending: if pending { self.pending.remove(addr) } else { self.pending },
            ready: if settled { self.ready.remove(addr) } else { self.ready },
            failed: if !settled {
                self.failed
            } else {
                match failure {
                    Some(reason) => self.failed.insert(addr, reason),
                    None => self.failed.remove(addr),
                }
            },
        }
    }

    /// The sessions after a pending session failed.
    pub open spec fn pending_failed(self, addr: Seq<u8>, reason: Seq<char>) -> Sessions {
        let pending = self.pending.remove(addr);
        if self.pool.dom().contains(addr) {
            Sessions { pending, ..self }
        } else {
            Sessions {
                pending,
                ready: self.ready.remove(addr),
                failed: self.failed.insert(addr, reason),
                ..self
            }
        }
    }
}

/// The sessions of a transport.
pub struct SessionTables {
    pool: AddrMap<PooledSession>,
    pending: AddrMap<PendingDial>,
    failed: AddrMap<String>,
    ready: AddrMap<()>,
}

/// The sessions that a clean-up removed; their peer connections are to be
/// closed.
#[derive(Debug)]
pub struct RemovedSessions {
    pub pooled: Option<PooledSession>,
    pub pending: Option<PendingDial>,
}

/// Whether a list holds each address of a set once, and no other.
pub open spec fn lists(addrs: Seq<Seq<u8>>, set: Set<Seq<u8>>) -> bool {
    addrs.no_duplicates() && addrs.to_set() == set
}

/// The peer connections of pooled sessions, in the order of their addresses.
pub open spec fn pooled_peers(sessions: Sessions, addrs: Seq<Seq<u8>>) -> Seq<u64> {
    addrs.map_values(|addr: Seq<u8>| sessions.pool[addr].peer)
}

/// The peer connections of pending sessions, in the order of their addresses.
pub open spec fn pending_peers(sessions: Sessions, addrs: Seq<Seq<u8>>) -> Seq<u64> {
    addrs.map_values(|addr: Seq<u8>| sessions.pending[addr].peer)
}

/// Whether the removed sessions are those that a clean-up was meant for.
pub open spec fn removed_are(
    removed: RemovedSessions,
    sessions: Sessions,
    addr: Seq<u8>,
    expected: Option<Owner>,
    physical: Physical,
) -> bool {
    &&& match removed.pooled {
        Some(s) => sessions.pooled_is(addr, expected, physical) && s@ == sessions.pool[addr],
        None => !sessions.pooled_is(addr, expected, physical),
    }
    &&& match removed.pending {
        Some(d) => sessions.pending_is(addr, expected, physical) && d@ == sessions.pending[addr],
        None => !sessions.pending_is(addr, expected, physical),
    }
}

impl RemovedSessions {
    /// Whether any session was removed.
    pub fn any(&self) -> (yes: bool)
        ensures
            yes == (self.pooled is Some || self.pending is Some),
    {
        self.pooled.is_some() || self.pending.is_some()
    }
}

impl View for SessionTables {
    type V = Sessions;

    closed spec fn view(&self) -> Sessions {
        Sessions {
            pool: self.pool@.map_values(|s: PooledSession| s@),
            pending: self.pending@.map_values(|d: PendingDial| d@),
            failed: self.failed@.map_values(|r: String| r@),
            ready: self.ready@.dom(),
        }
    }
}

impl SessionTables {
    pub closed spec fn inv(self) -> bool {
        &&& self.pool.inv()
        &&& self.pending.inv()
        &&& self.failed.inv()
        &&& self.ready.inv()
    }

    pub fn new() -> (tables: SessionTables)
        ensures
            tables.inv(),
            tables@ == Sessions::empty(),
    {
        let tables = SessionTables {
            pool: AddrMap::new(),
            pending: AddrMap::new(),
            failed: AddrMap::new(),
            ready: AddrMap::new(),
        };
        assert(tables@ =~= Sessions::empty());
        tables
    }

    // -----------------------------------------------------------------------
    // Single steps on the tables
    // -----------------------------------------------------------------------

    fn take_pooled(&mut self, addr: &TransportAddr) -> (taken: Option<PooledSession>)
        requires
            old(self).inv(),
        ensures
            final(self).inv(),
            final(self)@ == (Sessions { pool: old(self)@.pool.remove(addr@), ..old(self)@ }),
            match taken {
                Some(s) => old(self)@.pool.dom().contains(addr@) && s@ == old(self)@.pool[addr@],
                None => !old(self)@.pool.dom().contains(addr@),
            },
    {
        let taken = self.pool.remove(addr);
        assert(self@.pool =~= old(self)@.pool.remove(addr@));
        taken
    }

    fn take_pending(&mut self, addr: &TransportAddr) -> (taken: Option<PendingDial>)
        requires
            old(self).inv(),
        ensures
            final(self).inv(),
            final(self)@ == (Sessions { pending: old(self)@.pending.remove(addr@), ..old(self)@ }),
            match taken {
                Some(d) => old(self)@.pending.dom().contains(addr@) && d@
                    == old(self)@.pending[addr@],
                None => !old(self)@.pending.dom().contains(addr@),
            },
    {
        let taken = self.pending.remove(addr);
        assert(self@.pending =~= old(self)@.pending.remove(addr@));
        taken
    }

    fn clear_ready(&mut self, addr: &TransportAddr)
        requires
            old(self).inv(),
        ensures
            final(self).inv(),
            final(self)@ == (Sessions { ready: old(self)@.ready.remove(addr@), ..old(self)@ }),
    {
        self.ready.remove(addr);
        assert(self@.ready =~= old(self)@.ready.remove(addr@));
    }

    fn clear_failed(&mut self, addr: &TransportAddr)
        requires
            old(self).inv(),
        ensures
            final(self).inv(),
            final(self)@ == (Sessions { failed: old(self)@.failed.remove(addr@), ..old(self)@ }),
    {
        self.failed.remove(addr);
        assert(self@.failed =~= old(self)@.failed.remove(addr@));
    }

    fn set_failed(&mut self, addr: &TransportAddr, reason: String)
        requires
            old(self).inv(),
        ensures
            final(self).inv(),
            final(self)@ == (Sessions {
                failed: old(self)@.failed.insert(addr@, reason@),
                ..old(self)@
            }),
    {
        let ghost text = reason@;
        self.failed.insert(addr.clone(), reason);
        assert(self@.failed =~= old(self)@.failed.insert(addr@, text));
    }

    fn put_pooled(&mut self, addr: &TransportAddr, session: PooledSession) -> (previous: Option<
        PooledSession,
    >)
        requires
            old(self).inv(),
        ensures
            final(self).inv(),
            final(self)@ == (Sessions {
                pool: old(self)@.pool.insert(addr@, session@),
                ..old(self)@
            }),
            match previous {
                Some(s) => old(self)@.pool.dom().contains(addr@) && s@ == old(self)@.pool[addr@],
                None => !old(self)@.pool.dom().contains(addr@),
            },
    {
        let ghost entry = session@;
        let previous = self.pool.insert(addr.clone(), session);
        assert(self@.pool =~= old(self)@.pool.insert(addr@, entry));
        previous
    }

    fn put_pending(&mut self, addr: &TransportAddr, dial: PendingDial)
        requires
            old(self).inv(),
        ensures
            final(self).inv(),
            final(self)@ == (Sessions {
                pending: old(self)@.pending.insert(addr@, dial@),
                ..old(self)@
            }),
    {
        let ghost entry = dial@;
        self.pending.insert(addr.clone(), dial);
        assert(self@.pending =~= old(self)@.pending.insert(addr@, entry));
    }

    /// The pooled session of an address.
    pub fn pooled(&self, addr: &TransportAddr) -> (session: Option<&PooledSession>)
        requires
            self.inv(),
        ensures
            match session {
                Some(s) => self@.pool.dom().contains(addr@) && s@ == self@.pool[addr@],
                None => !self@.pool.dom().contains(addr@),
            },
    {
        self.pool.get(addr)
    }

    /// The pending session of an address.
    pub fn pending(&self, addr: &TransportAddr) -> (dial: Option<&PendingDial>)
        requires
            self.inv(),
        ensures
            match dial {
                Some(d) => self@.pending.dom().contains(addr@) && d@ == self@.pending[addr@],
                None => !self@.pending.dom().contains(addr@),
            },
    {
        self.pending.get(addr)
    }

    /// Why the last session of an address failed.
    pub fn failure(&self, addr: &TransportAddr) -> (reason: Option<&String>)
        requires
            self.inv(),
        ensures
            match reason {
                Some(r) => self@.failed.dom().contains(addr@) && r@ == self@.failed[addr@],
                None => !self@.failed.dom().contains(addr@),
            },
    {
        self.failed.get(addr)
    }

    pub fn is_ready(&self, addr: &TransportAddr) -> (yes: bool)
        requires
            self.inv(),
        ensures
            yes == self@.ready.contains(addr@),
    {
        self.ready.contains(addr)
    }

    fn pooled_is(
        &self,
        addr: &TransportAddr,
        expected: Option<&WebRtcSessionOwner>,
        physical: &PhysicalResources,
    ) -> (yes: bool)
        requires
            self.inv(),
            physical.inv(),
        ensures
            yes == self@.pooled_is(addr@, owner_view(expected), physical@),
    {
        match self.pooled(addr) {
            None => false,
            Some(session) => match expected {
                None => true,
                Some(owner) => {
                    let lease = lease_generation(physical, addr, session.generation);
                    owner.matches(session.session_id.as_str(), session.peer, lease)
                },
            },
        }
    }

    fn pending_is(
        &self,
        addr: &TransportAddr,
        expected: Option<&WebRtcSessionOwner>,
        physical: &PhysicalResources,
    ) -> (yes: bool)
        requires
            self.inv(),
            physical.inv(),
        ensures
            yes == self@.pending_is(addr@, owner_view(expected), physical@),
    {
        match self.pending(addr) {
            None => false,
            Some(dial) => match expected {
                None => true,
                Some(owner) => {
                    let lease = lease_generation(physical, addr, dial.generation);
                    owner.matches(dial.session_id.as_str(), dial.peer, lease)
                },
            },
        }
    }

    // -----------------------------------------------------------------------
    // Transitions
    // -----------------------------------------------------------------------

    /// Removes the meant sessions of an address and settles its failure.
    pub fn cleanup_webrtc_session(
        &mut self,
        addr: &TransportAddr,
        expected: Option<&WebRtcSessionOwner>,
        failure: Option<String>,
        physical: &PhysicalResources,
    ) -> (removed: RemovedSessions)
        requires
            old(self).inv(),
            physical.inv(),
        ensures
            final(self).inv(),
            final(self)@ == old(self)@.cleaned(
                addr@,
                owner_view(expected),
                text_view(failure),
                physical@,
            ),
            removed_are(removed, old(self)@, addr@, owner_view(expected), physical@),
    {
        let pooled = if self.pooled_is(addr, expected, physical) {
            self.take_pooled(addr)
        } else {
            None
        };
        let pending = if self.pending_is(addr, expected, physical) {
            self.take_pending(addr)
        } else {
            None
        };
        let removed = RemovedSessions { pooled, pending };
        if removed.any() || expected.is_none() {
            self.clear_ready(addr);
            match failure {
                Some(reason) => {
                    self.set_failed(addr, reason);
                },
                None => {
                    self.clear_failed(addr);
                },
            }
        }
        assert(self@ =~= old(self)@.cleaned(
            addr@,
            owner_view(expected),
            text_view(failure),
            physical@,
        ));
        removed
    }

    /// Removes the pending session of an address to make room for an offer,
    /// provided that it is still the expected one.
    pub fn evict_pending_webrtc_session_for_offer(
        &mut self,
        addr: &TransportAddr,
        expected_session: &str,
    ) -> (evicted: Option<PendingDial>)
        requires
            old(self).inv(),
        ensures
            final(self).inv(),
            match evicted {
                Some(d) => {
                    &&& old(self)@.pending.dom().contains(addr@)
                    &&& old(self)@.pending[addr@].id == expected_session@
                    &&& d@ == old(self)@.pending[addr@]
                    &&& final(self)@ == old(self)@.evicted(addr@)
                },
                None => {
                    &&& !(old(self)@.pending.dom().contains(addr@) && old(self)@.pending[addr@].id
                        == expected_session@)
                    &&& final(self)@ == old(self)@
                },
            },
    {
        let same = match self.pending(addr) {
            Some(dial) => same_text(dial.session_id.as_str(), expected_session),
            None => false,
        };
        if !same {
            return None;
        }
        let evicted = self.take_pending(addr);
        self.clear_ready(addr);
        self.clear_failed(addr);
        evicted
    }

    /// Admits a pending session: only while the transport accepts sessions, the
    /// peer's slot is active, and the address has no session yet. A failure
    /// that the address had is cleared.
    pub fn try_reserve_pending(
        &mut self,
        addr: &TransportAddr,
        dial: PendingDial,
        physical: &PhysicalResources,
    ) -> (admitted: bool)
        requires
            old(self).inv(),
            physical.inv(),
        ensures
            final(self).inv(),
            admitted == old(self)@.admits(addr@, physical@),
            final(self)@ == if admitted {
                (Sessions {
                    pending: old(self)@.pending.insert(addr@, dial@),
                    failed: old(self)@.failed.remove(addr@),
                    ..old(self)@
                })
            } else {
                old(self)@
            },
    {
        if !physical.is_accepting() {
            return false;
        }
        match physical.phase(addr) {
            Some(PhysicalPhase::Active) => {},
            _ => {
                return false;
            },
        }
        if self.pooled(addr).is_some() || self.pending(addr).is_some() {
            return false;
        }
        self.put_pending(addr, dial);
        self.clear_failed(addr);
        true
    }

    /// Fails the meant pending session of an address.
    pub fn mark_session_failed(
        &mut self,
        addr: &TransportAddr,
        expected: &WebRtcSessionOwner,
        reason: String,
        physical: &PhysicalResources,
    ) -> (failed: Option<PendingDial>)
        requires
            old(self).inv(),
            physical.inv(),
        ensures
            final(self).inv(),
            match failed {
                Some(d) => {
                    &&& old(self)@.pending_is(addr@, Some(expected@), physical@)
                    &&& d@ == old(self)@.pending[addr@]
                    &&& final(self)@ == old(self)@.pending_failed(addr@, reason@)
                },
                None => {
                    &&& !old(self)@.pending_is(addr@, Some(expected@), physical@)
                    &&& final(self)@ == old(self)@
                },
            },
    {
        if !self.pending_is(addr, Some(expected), physical) {
            return None;
        }
        let dial = self.take_pending(addr);
        self.finish_pending_failure(addr, reason);
        dial
    }

    /// Fails the pending session of an address if its phase is still owned by
    /// the given handler and its deadline has passed.
    pub fn mark_expired_pending_failed(
        &mut self,
        addr: &TransportAddr,
        expected_phase_owner_id: &str,
        expected_deadline: u64,
        now: u64,
        reason: String,
    ) -> (failed: Option<PendingDial>)
        requires
            old(self).inv(),
        ensures
            final(self).inv(),
            match failed {
                Some(d) => {
                    &&& old(self)@.expired(
                        addr@,
                        expected_phase_owner_id@,
                        expected_deadline,
                        now,
                    )
                    &&& d@ == old(self)@.pending[addr@]
                    &&& final(self)@ == old(self)@.pending_failed(addr@, reason@)
                },
                None => {
                    &&& !old(self)@.expired(
                        addr@,
                        expected_phase_owner_id@,
                        expected_deadline,
                        now,
                    )
                    &&& final(self)@ == old(self)@
                },
            },
    {
        let expired = match self.pending(addr) {
            Some(dial) => same_text(dial.phase_owner_id.as_str(), expected_phase_owner_id)
                && dial.deadline == expected_deadline && dial.deadline <= now,
            None => false,
        };
        if !expired {
            return None;
        }
        let dial = self.take_pending(addr);
        self.finish_pending_failure(addr, reason);
        dial
    }

    /// Records the failure of a pending session that was just removed, while
    /// the address has no session of its own.
    fn finish_pending_failure(&mut self, addr: &TransportAddr, reason: String)
        requires
            old(self).inv(),
            !old(self)@.pending.dom().contains(addr@),
        ensures
            final(self).inv(),
            final(self)@ == if old(self)@.pool.dom().contains(addr@) {
                old(self)@
            } else {
                (Sessions {
                    ready: old(self)@.ready.remove(addr@),
                    failed: old(self)@.failed.insert(addr@, reason@),
                    ..old(self)@
                })
            },
    {
        if self.pooled(addr).is_none() && self.pending(addr).is_none() {
            self.clear_ready(addr);
            self.set_failed(addr, reason);
        }
    }
}

/// The owner that an optional name gives.
pub open spec fn owner_view(owner: Option<&WebRtcSessionOwner>) -> Option<Owner> {
    match owner {
        Some(o) => Some(o@),
        None => None,
    }
}

/// The text of an optional string.
pub open spec fn text_view(text: Option<String>) -> Option<Seq<char>> {
    match text {
        Some(t) => Some(t@),
        None => None,
    }
}

impl Sessions {
    /// The sessions after the pending session of an address made room for an
    /// offer.
    pub open spec fn evicted(self, addr: Seq<u8>) -> Sessions {
        Sessions {
            pending: self.pending.remove(addr),
            ready: self.ready.remove(addr),
            failed: self.failed.remove(addr),
            ..self
        }
    }

    /// Whether a pending session for the address is admitted.
    pub open spec fn admits(self, addr: Seq<u8>, physical: Physical) -> bool {
        &&& physical.accepting
        &&& physical.phase_of(addr) == Some(PhysicalPhase::Active)
        &&& !self.pool.dom().contains(addr)
        &&& !self.pending.dom().contains(addr)
    }

    /// Whether the pending session of an address still belongs to the handler
    /// and its deadline has passed.
    pub open spec fn expired(
        self,
        addr: Seq<u8>,
        phase_owner: Seq<char>,
        deadline: u64,
        now: u64,
    ) -> bool {
        &&& self.pending.dom().contains(addr)
        &&& self.pending[addr].phase_owner == phase_owner
        &&& self.pending[addr].deadline == deadline
        &&& deadline <= now
    }
}


/// What the connect timer reports for a session that it ends.
pub open spec fn connect_timed_out() -> Seq<char> {
    "WebRTC connect timed out"@
}

impl Sessions {
    /// Whether the connect timer of a session still finds it pending.
    pub open spec fn times_out(
        self,
        addr: Seq<u8>,
        session: Seq<char>,
        deadline: u64,
        peer: u64,
    ) -> bool {
        &&& self.pending.dom().contains(addr)
        &&& !self.pool.dom().contains(addr)
        &&& self.pending[addr].id == session
        &&& self.pending[addr].deadline == deadline
        &&& self.pending[addr].peer == peer
    }

    /// Whether a pending session may become the pooled session of an address.
    pub open spec fn promotes(self, addr: Seq<u8>, session: Session, physical: Physical) -> bool {
        &&& physical.accepting
        &&& physical.holds(addr, session.generation, PhysicalPhase::Active)
        &&& self.pending.dom().contains(addr)
        &&& self.pending[addr].id == session.id
        &&& self.pending[addr].peer == session.peer
    }

    /// The sessions after a pending session became the pooled one.
    pub open spec fn promoted(self, addr: Seq<u8>, session: Session) -> Sessions {
        Sessions {
            pool: self.pool.insert(addr, session),
            pending: self.pending.remove(addr),
            failed: self.failed.remove(addr),
            ..self
        }
    }

    /// Whether a pooled session is the given one and its slot is active.
    pub open spec fn pooled_active(
        self,
        addr: Seq<u8>,
        session: Seq<char>,
        peer: u64,
        physical: Physical,
    ) -> bool {
        &&& physical.accepting
        &&& self.pool.dom().contains(addr)
        &&& self.pool[addr].id == session
        &&& self.pool[addr].peer == peer
        &&& physical.holds(addr, self.pool[addr].generation, PhysicalPhase::Active)
    }

    /// Whether a session is pending or pooled under this peer connection, whose
    /// slot is active.
    pub open spec fn owned_active(
        self,
        addr: Seq<u8>,
        session: Seq<char>,
        peer: u64,
        generation: u64,
        physical: Physical,
    ) -> bool {
        &&& {
            ||| self.pool.dom().contains(addr) && self.pool[addr].id == session
                && self.pool[addr].peer == peer
            ||| self.pending.dom().contains(addr) && self.pending[addr].id == session
                && self.pending[addr].peer == peer
        }
        &&& physical.accepting
        &&& physical.holds(addr, generation, PhysicalPhase::Active)
    }

    /// Why a signal may not be queued for a pending session, if it may not.
    pub open spec fn signal_refusal(
        self,
        addr: Seq<u8>,
        session: Seq<char>,
        peer: u64,
        generation: u64,
        expires_at_ms: u64,
        now: u64,
        now_ms: u64,
        physical: Physical,
    ) -> Option<Failure> {
        if !self.pending.dom().contains(addr) || self.pending[addr].id != session
            || self.pending[addr].peer != peer {
            Some(Failure::ConnectionRefused)
        } else if now >= self.pending[addr].deadline || now_ms >= expires_at_ms {
            Some(Failure::Timeout)
        } else if !physical.accepting || !physical.holds(addr, generation, PhysicalPhase::Active) {
            Some(Failure::ConnectionRefused)
        } else {
            None
        }
    }

    /// The connection state that an address shows.
    pub open spec fn state_of(self, addr: Seq<u8>) -> Connection {
        if self.pool.dom().contains(addr) {
            if self.ready.contains(addr) {
                Connection::Connected
            } else {
                Connection::Connecting
            }
        } else if self.failed.dom().contains(addr) {
            Connection::Failed(self.failed[addr])
        } else if self.pending.dom().contains(addr) {
            Connection::Connecting
        } else {
            Connection::Absent
        }
    }
}

impl SessionTables {
    /// The connect timer of a session: ends the session if it is still pending
    /// under the same peer connection and deadline.
    pub fn connect_timeout(
        &mut self,
        addr: &TransportAddr,
        session_id: &str,
        deadline: u64,
        peer: u64,
    ) -> (ended: Option<PendingDial>)
        requires
            old(self).inv(),
        ensures
            final(self).inv(),
            match ended {
                Some(d) => {
                    &&& old(self)@.times_out(addr@, session_id@, deadline, peer)
                    &&& d@ == old(self)@.pending[addr@]
                    &&& final(self)@ == old(self)@.pending_failed(addr@, connect_timed_out())
                },
                None => {
                    &&& !old(self)@.times_out(addr@, session_id@, deadline, peer)
                    &&& final(self)@ == old(self)@
                },
            },
    {
        let due = match self.pending(addr) {
            Some(dial) => self.pooled(addr).is_none() && same_text(
                dial.session_id.as_str(),
                session_id,
            ) && dial.deadline == deadline && dial.peer == peer,
            None => false,
        };
        if !due {
            return None;
        }
        let dial = self.take_pending(addr);
        self.clear_ready(addr);
        self.set_failed(addr, "WebRTC connect timed out".to_owned());
        dial
    }

    /// Turns the pending session of an address into its pooled session once the
    /// data channel is open. The session that was pooled before is handed back
    /// to be closed; a session that may not be pooled is handed back as an
    /// error and leaves everything as it was.
    pub fn promote_pending_webrtc_session(
        &mut self,
        addr: &TransportAddr,
        session: PooledSession,
        physical: &PhysicalResources,
    ) -> (result: Result<Option<PooledSession>, PooledSession>)
        requires
            old(self).inv(),
            physical.inv(),
        ensures
            final(self).inv(),
            match result {
                Ok(previous) => {
                    &&& old(self)@.promotes(addr@, session@, physical@)
                    &&& final(self)@ == old(self)@.promoted(addr@, session@)
                    &&& match previous {
                        Some(p) => old(self)@.pool.dom().contains(addr@) && p@
                            == old(self)@.pool[addr@],
                        None => !old(self)@.pool.dom().contains(addr@),
                    }
                },
                Err(rejected) => {
                    &&& !old(self)@.promotes(addr@, session@, physical@)
                    &&& rejected == session
                    &&& final(self)@ == old(self)@
                },
            },
    {
        let active = lease_generation(physical, addr, session.generation).is_some();
        let pending = match self.pending(addr) {
            Some(dial) => same_text(dial.session_id.as_str(), session.session_id.as_str())
                && dial.peer == session.peer,
            None => false,
        };
        if !physical.is_accepting() || !active || !pending {
            return Err(session);
        }
        self.take_pending(addr);
        self.clear_failed(addr);
        let previous = self.put_pooled(addr, session);
        Ok(previous)
    }

    /// Whether a pooled session is the given one and its slot is active: only
    /// then may its ready marker be sent.
    pub fn pooled_webrtc_session_is_active(
        &self,
        addr: &TransportAddr,
        session_id: &str,
        peer: u64,
        physical: &PhysicalResources,
    ) -> (yes: bool)
        requires
            self.inv(),
            physical.inv(),
        ensures
            yes == self@.pooled_active(addr@, session_id@, peer, physical@),
    {
        match self.pooled(addr) {
            Some(session) => physical.is_accepting() && same_text(
                session.session_id.as_str(),
                session_id,
            ) && session.peer == peer && lease_generation(
                physical,
                addr,
                session.generation,
            ).is_some(),
            None => false,
        }
    }

    /// Marks an address as ready if the meant session is pooled and active.
    pub fn mark_webrtc_ready_if_pooled(
        &mut self,
        addr: &TransportAddr,
        expected: &WebRtcSessionOwner,
        physical: &PhysicalResources,
    ) -> (marked: bool)
        requires
            old(self).inv(),
            physical.inv(),
        ensures
            final(self).inv(),
            marked == (physical@.accepting && old(self)@.pooled_is(
                addr@,
                Some(expected@),
                physical@,
            ) && physical@.holds(
                addr@,
                old(self)@.pool[addr@].generation,
                PhysicalPhase::Active,
            )),
            final(self)@ == if marked {
                (Sessions { ready: old(self)@.ready.insert(addr@), ..old(self)@ })
            } else {
                old(self)@
            },
    {
        let active = match self.pooled(addr) {
            Some(session) => lease_generation(physical, addr, session.generation).is_some(),
            None => false,
        };
        if !physical.is_accepting() || !active || !self.pooled_is(addr, Some(expected), physical) {
            return false;
        }
        self.ready.insert(addr.clone(), ());
        assert(self@.ready =~= old(self)@.ready.insert(addr@));
        true
    }

    /// Whether a session is pending or pooled under this peer connection, whose
    /// slot is active.
    pub fn session_generation_is_active_or_pooled(
        &self,
        addr: &TransportAddr,
        session_id: &str,
        peer: u64,
        generation: u64,
        physical: &PhysicalResources,
    ) -> (yes: bool)
        requires
            self.inv(),
            physical.inv(),
        ensures
            yes == self@.owned_active(addr@, session_id@, peer, generation, physical@),
    {
        let pooled = match self.pooled(addr) {
            Some(session) => same_text(session.session_id.as_str(), session_id) && session.peer
                == peer,
            None => false,
        };
        let pending = match self.pending(addr) {
            Some(dial) => same_text(dial.session_id.as_str(), session_id) && dial.peer == peer,
            None => false,
        };
        (pooled || pending) && physical.is_accepting() && lease_generation(
            physical,
            addr,
            generation,
        ).is_some()
    }

    /// Decides whether a signal may be queued for a pending session. `now` is a
    /// reading of the monotonic clock, `now_ms` one of the wall clock.
    pub fn queue_signal_for_pending(
        &self,
        addr: &TransportAddr,
        session_id: &str,
        peer: u64,
        generation: u64,
        expires_at_ms: u64,
        now: u64,
        now_ms: u64,
        physical: &PhysicalResources,
    ) -> (result: Result<(), TransportError>)
        requires
            self.inv(),
            physical.inv(),
        ensures
            match result {
                Ok(_) => self@.signal_refusal(
                    addr@,
                    session_id@,
                    peer,
                    generation,
                    expires_at_ms,
                    now,
                    now_ms,
                    physical@,
                ) is None,
                Err(error) => self@.signal_refusal(
                    addr@,
                    session_id@,
                    peer,
                    generation,
                    expires_at_ms,
                    now,
                    now_ms,
                    physical@,
                ) == Some(error@),
            },
    {
        match self.pending(addr) {
            None => Err(TransportError::ConnectionRefused),
            Some(dial) => {
                if !same_text(dial.session_id.as_str(), session_id) || dial.peer != peer {
                    return Err(TransportError::ConnectionRefused);
                }
                if now >= dial.deadline || now_ms >= expires_at_ms {
                    return Err(TransportError::Timeout);
                }
                if !physical.is_accepting() || lease_generation(
                    physical,
                    addr,
                    generation,
                ).is_none() {
                    return Err(TransportError::ConnectionRefused);
                }
                Ok(())
            },
        }
    }

    /// The connection state that an address shows.
    pub fn connection_state(&self, addr: &TransportAddr) -> (state: ConnectionState)
        requires
            self.inv(),
        ensures
            state@ == self@.state_of(addr@),
    {
        if self.pooled(addr).is_some() {
            return if self.is_ready(addr) {
                ConnectionState::Connected
            } else {
                ConnectionState::Connecting
            };
        }
        match self.failure(addr) {
            Some(reason) => {
                return ConnectionState::Failed(reason.clone());
            },
            None => {},
        }
        if self.pending(addr).is_some() {
            ConnectionState::Connecting
        } else {
            ConnectionState::Absent
        }
    }

    /// Forgets why the last session of an address failed.
    pub fn forget_failure(&mut self, addr: &TransportAddr)
        requires
            old(self).inv(),
        ensures
            final(self).inv(),
            final(self)@ == (Sessions { failed: old(self)@.failed.remove(addr@), ..old(self)@ }),
    {
        self.clear_failed(addr);
    }

    /// Forgets every session when the transport stops. The tables that held
    /// them are handed back, so that the peer connections can be closed.
    pub fn drain(&mut self) -> (drained: SessionTables)
        requires
            old(self).inv(),
        ensures
            final(self).inv(),
            final(self)@ == Sessions::empty(),
            drained == *old(self),
    {
        let mut drained = SessionTables::new();
        std::mem::swap(self, &mut drained);
        drained
    }

    /// The peer connections of the pooled sessions and then those of the pending
    /// ones, one for each session.
    pub fn peers(&self) -> (peers: Vec<u64>)
        requires
            self.inv(),
        ensures
            exists|pooled: Seq<Seq<u8>>, pending: Seq<Seq<u8>>|
                lists(pooled, self@.pool.dom()) && lists(pending, self@.pending.dom()) && peers@
                    == #[trigger] pooled_peers(self@, pooled) + #[trigger] pending_peers(
                    self@,
                    pending,
                ),
    {
        let mut peers: Vec<u64> = Vec::new();
        let pooled: usize = self.pool.len();
        proof {
            self.pool.lemma_len();
            self.pending.lemma_len();
        }
        let mut i: usize = 0;
        assert(peers@ =~= pooled_peers(self@, self.pool.keys().take(0)));
        while i < pooled
            invariant
                self.inv(),
                pooled == self.pool@.dom().len(),
                pooled == self.pool.keys().len(),
                i <= pooled,
                peers@ == pooled_peers(self@, self.pool.keys().take(i as int)),
            decreases pooled - i,
        {
            let entry = self.pool.at(i);
            peers.push(entry.1.peer);
            i = i + 1;
            assert(peers@ =~= pooled_peers(self@, self.pool.keys().take(i as int)));
        }
        let ghost first = peers@;
        let waiting: usize = self.pending.len();
        let mut j: usize = 0;
        assert(peers@ =~= first + pending_peers(self@, self.pending.keys().take(0)));
        while j < waiting
            invariant
                self.inv(),
                waiting == self.pending@.dom().len(),
                waiting == self.pending.keys().len(),
                j <= waiting,
                peers@ == first + pending_peers(self@, self.pending.keys().take(j as int)),
            decreases waiting - j,
        {
            let entry = self.pending.at(j);
            peers.push(entry.1.peer);
            j = j + 1;
            assert(peers@ =~= first + pending_peers(self@, self.pending.keys().take(j as int)));
        }
        proof {
            assert(self.pool.keys().take(pooled as int) =~= self.pool.keys());
            assert(self.pending.keys().take(waiting as int) =~= self.pending.keys());
            self.pool.lemma_len();
            self.pending.lemma_len();
            assert(self@.pool.dom() =~= self.pool@.dom());
            assert(self@.pending.dom() =~= self.pending@.dom());
            assert(lists(self.pool.keys(), self@.pool.dom()));
            assert(lists(self.pending.keys(), self@.pending.dom()));
        }
        peers
    }
}

// ---------------------------------------------------------------------------
// Laws
// ---------------------------------------------------------------------------

/// Cleaning up for an owner who has neither the pooled nor the pending session
/// changes nothing: a late handler cannot remove a successor.
pub proof fn cleanup_spares_a_successor(
    sessions: Sessions,
    addr: Seq<u8>,
    owner: Owner,
    failure: Option<Seq<char>>,
    physical: Physical,
)
    requires
        !sessions.pooled_is(addr, Some(owner), physical),
        !sessions.pending_is(addr, Some(owner), physical),
    ensures
        sessions.cleaned(addr, Some(owner), failure, physical) == sessions,
{
}

/// Cleaning up an address without naming an owner leaves no trace of it but the
/// failure that was given.
pub proof fn cleanup_forgets_the_address(
    sessions: Sessions,
    addr: Seq<u8>,
    failure: Option<Seq<char>>,
    physical: Physical,
)
    ensures
        sessions.cleaned(addr, None, failure, physical).state_of(addr) == match failure {
            Some(reason) => Connection::Failed(reason),
            None => Connection::Absent,
        },
        !sessions.cleaned(addr, None, failure, physical).ready.contains(addr),
{
}

/// Cleaning up one address does not touch another.
pub proof fn cleanup_is_local(
    sessions: Sessions,
    addr: Seq<u8>,
    other: Seq<u8>,
    expected: Option<Owner>,
    failure: Option<Seq<char>>,
    physical: Physical,
)
    requires
        addr != other,
    ensures
        sessions.cleaned(addr, expected, failure, physical).state_of(other) == sessions.state_of(
            other,
        ),
{
}

/// A second clean-up for the same owner finds nothing to do.
pub proof fn cleanup_is_idempotent(
    sessions: Sessions,
    addr: Seq<u8>,
    expected: Option<Owner>,
    failure: Option<Seq<char>>,
    physical: Physical,
)
    ensures
        sessions.cleaned(addr, expected, failure, physical).cleaned(
            addr,
            expected,
            failure,
            physical,
        ) == sessions.cleaned(addr, expected, failure, physical),
{
    let once = sessions.cleaned(addr, expected, failure, physical);
    assert(once.cleaned(addr, expected, failure, physical) =~= once);
}

/// A stopped transport promotes no session: a pending session stays pending.
pub proof fn stopped_transport_promotes_nothing(
    sessions: Sessions,
    addr: Seq<u8>,
    session: Session,
    physical: Physical,
)
    requires
        !physical.accepting,
    ensures
        !sessions.promotes(addr, session, physical),
        !sessions.admits(addr, physical),
{
}

/// An address never shows an earlier failure once a session for it is admitted.
pub proof fn admission_clears_failure(sessions: Sessions, addr: Seq<u8>, dial: Dial)
    requires
        !sessions.pool.dom().contains(addr),
    ensures
        (Sessions {
            pending: sessions.pending.insert(addr, dial),
            failed: sessions.failed.remove(addr),
            ..sessions
        }).state_of(addr) == Connection::Connecting,
{
}

/// The views of sessions and of their owners' names hold what these hold.
pub proof fn session_views_hold_their_fields(
    session: PooledSession,
    dial: PendingDial,
    owner: WebRtcSessionOwner,
)
    ensures
        session@.id == session.session_id@,
        session@.peer == session.peer,
        session@.generation == session.generation,
        dial@.id == dial.session_id@,
        dial@.phase_owner == dial.phase_owner_id@,
        dial@.peer == dial.peer,
        dial@.generation == dial.generation,
        dial@.created_at_ms == dial.created_at_ms,
        dial@.origin == dial.origin,
        dial@.deadline == dial.deadline,
        owner@.session is Some == owner.session_id is Some,
        owner.session_id matches Some(id) ==> owner@.session == Some(id@),
        owner@.peer == owner.peer,
        owner@.generation == owner.generation,
        owner_view(Some(&owner)) == Some(owner@),
        owner_view(None) is None,
{
}

/// An owner's name fits a session where every part that it gives is the
/// session's; one that gives nothing fits all. A generation fits only while the
/// session's slot is active under it.
pub proof fn owners_are_known_by_what_their_name_gives(
    session: Seq<char>,
    peer: u64,
    generation: u64,
    lease: Option<u64>,
    other: Seq<char>,
)
    ensures
        (Owner { session: None, peer: None, generation: None }).matches(session, peer, lease),
        (Owner { session: Some(other), peer: None, generation: None }).matches(session, peer, lease)
            <==> other == session,
        (Owner { session: None, peer: Some(generation), generation: None }).matches(
            session,
            peer,
            lease,
        ) <==> generation == peer,
        (Owner { session: None, peer: None, generation: Some(generation) }).matches(
            session,
            peer,
            lease,
        ) <==> lease == Some(generation),
{
}

/// A name that gives several parts fits exactly where each part fits.
pub proof fn parts_of_a_name_all_fit(owner: Owner, session: Seq<char>, peer: u64, lease: Option<u64>)
    ensures
        owner.matches(session, peer, lease) <==> (Owner { peer: None, generation: None, ..owner })
            .matches(session, peer, lease) && (Owner { session: None, generation: None, ..owner })
            .matches(session, peer, lease) && (Owner { session: None, peer: None, ..owner })
            .matches(session, peer, lease),
{
}

/// A session's lease is its own generation, and stands exactly while the slot
/// of its address is active under that generation.
pub proof fn leases_are_active_slots(physical: Physical, addr: Seq<u8>, generation: u64, g: u64)
    ensures
        lease_of(physical, addr, generation) == Some(g) <==> g == generation
            && physical.slots.dom().contains(addr) && physical.slots[addr].generation == g
            && physical.slots[addr].phase == PhysicalPhase::Active,
{
}

/// A clean-up takes away the sessions of the address that the owner's name
/// fits, and no other: not a session of another owner, and none of another
/// address. Where it took one away, or no owner was named, the address is no
/// longer ready and has failed with the given reason or not at all; otherwise
/// nothing changes.
pub proof fn cleanup_removes_what_is_meant(
    sessions: Sessions,
    addr: Seq<u8>,
    owner: Owner,
    failure: Option<Seq<char>>,
    physical: Physical,
    other: Seq<u8>,
)
    ensures
        ({
            let named = sessions.cleaned(addr, Some(owner), failure, physical);
            let all = sessions.cleaned(addr, None, failure, physical);
            let pooled = sessions.pool.dom().contains(addr) && owner.matches(
                sessions.pool[addr].id,
                sessions.pool[addr].peer,
                lease_of(physical, addr, sessions.pool[addr].generation),
            );
            let pending = sessions.pending.dom().contains(addr) && owner.matches(
                sessions.pending[addr].id,
                sessions.pending[addr].peer,
                lease_of(physical, addr, sessions.pending[addr].generation),
            );
            &&& !all.pool.dom().contains(addr)
            &&& !all.pending.dom().contains(addr)
            &&& !all.ready.contains(addr)
            &&& all.failed.dom().contains(addr) <==> failure is Some
            &&& failure matches Some(reason) ==> all.failed[addr] == reason
            &&& named.pool.dom().contains(addr) <==> sessions.pool.dom().contains(addr) && !pooled
            &&& named.pending.dom().contains(addr) <==> sessions.pending.dom().contains(addr)
                && !pending
            &&& !pooled ==> named.pool == sessions.pool
            &&& !pending ==> named.pending == sessions.pending
            &&& !pooled && !pending ==> named == sessions
            &&& pooled || pending ==> !named.ready.contains(addr)
            &&& pooled || pending ==> (named.failed.dom().contains(addr) <==> failure is Some)
            &&& pooled || pending ==> (failure matches Some(reason) ==> named.failed[addr]
                == reason)
            &&& other != addr ==> {
                &&& named.pool.dom().contains(other) == sessions.pool.dom().contains(other)
                &&& named.pool[other] == sessions.pool[other]
                &&& named.pending.dom().contains(other) == sessions.pending.dom().contains(other)
                &&& named.pending[other] == sessions.pending[other]
                &&& named.ready.contains(other) == sessions.ready.contains(other)
                &&& named.failed.dom().contains(other) == sessions.failed.dom().contains(other)
                &&& named.failed[other] == sessions.failed[other]
                &&& named.state_of(other) == sessions.state_of(other)
                &&& all.state_of(other) == sessions.state_of(other)
            }
        }),
{
}

/// What a clean-up hands over to be closed is what it took away: after it, the
/// tables and the sessions handed over make up what the tables held.
pub proof fn removed_sessions_are_handed_over(
    removed: RemovedSessions,
    sessions: Sessions,
    addr: Seq<u8>,
    expected: Option<Owner>,
    failure: Option<Seq<char>>,
    physical: Physical,
)
    requires
        removed_are(removed, sessions, addr, expected, physical),
    ensures
        ({
            let after = sessions.cleaned(addr, expected, failure, physical);
            &&& removed.pooled matches Some(session) ==> sessions.pool == after.pool.insert(
                addr,
                session@,
            ) && !after.pool.dom().contains(addr)
            &&& removed.pooled is None ==> sessions.pool == after.pool
            &&& removed.pending matches Some(dial) ==> sessions.pending == after.pending.insert(
                addr,
                dial@,
            ) && !after.pending.dom().contains(addr)
            &&& removed.pending is None ==> sessions.pending == after.pending
        }),
{
    let after = sessions.cleaned(addr, expected, failure, physical);
    if let Some(session) = removed.pooled {
        assert(sessions.pool =~= after.pool.insert(addr, session@));
    }
    if let Some(dial) = removed.pending {
        assert(sessions.pending =~= after.pending.insert(addr, dial@));
    }
}

/// A pending session that failed is gone. Where the address has a pooled
/// session, that one and what the address shows stay; otherwise the address
/// shows the failure.
pub proof fn failed_dials_spare_the_pool(
    sessions: Sessions,
    addr: Seq<u8>,
    reason: Seq<char>,
    other: Seq<u8>,
)
    ensures
        ({
            let after = sessions.pending_failed(addr, reason);
            &&& after.pool == sessions.pool
            &&& !after.pending.dom().contains(addr)
            &&& sessions.pool.dom().contains(addr) ==> after.state_of(addr) == sessions.state_of(
                addr,
            ) && after.failed == sessions.failed && after.ready == sessions.ready
            &&& !sessions.pool.dom().contains(addr) ==> after.state_of(addr) == Connection::Failed(
                reason,
            ) && !after.ready.contains(addr)
            &&& other != addr ==> after.state_of(other) == sessions.state_of(other)
                && after.pending.dom().contains(other) == sessions.pending.dom().contains(other)
                && after.pending[other] == sessions.pending[other] && after.ready.contains(other)
                == sessions.ready.contains(other)
        }),
{
}

/// A pending session that makes room for an offer leaves nothing behind at its
/// address but the pooled session, if there is one.
pub proof fn evictions_leave_the_pool(sessions: Sessions, addr: Seq<u8>, other: Seq<u8>)
    ensures
        ({
            let after = sessions.evicted(addr);
            &&& after.pool == sessions.pool
            &&& !after.pending.dom().contains(addr)
            &&& !after.ready.contains(addr)
            &&& !after.failed.dom().contains(addr)
            &&& !sessions.pool.dom().contains(addr) ==> after.state_of(addr) == Connection::Absent
            &&& sessions.pool.dom().contains(addr) ==> after.state_of(addr)
                == Connection::Connecting
            &&& other != addr ==> after.state_of(other) == sessions.state_of(other)
                && after.pending.dom().contains(other) == sessions.pending.dom().contains(other)
                && after.pending[other] == sessions.pending[other] && after.ready.contains(other)
                == sessions.ready.contains(other) && after.failed.dom().contains(other)
                == sessions.failed.dom().contains(other) && after.failed[other]
                == sessions.failed[other]
        }),
{
}

/// A promoted session is pooled and no longer pending; the address shows it as
/// connecting until its channel is ready, whatever failed there before.
pub proof fn promotion_moves_the_session(
    sessions: Sessions,
    addr: Seq<u8>,
    session: Session,
    other: Seq<u8>,
)
    ensures
        ({
            let after = sessions.promoted(addr, session);
            &&& after.pool.dom().contains(addr)
            &&& after.pool[addr] == session
            &&& !after.pending.dom().contains(addr)
            &&& !after.failed.dom().contains(addr)
            &&& after.ready == sessions.ready
            &&& after.state_of(addr) == if sessions.ready.contains(addr) {
                Connection::Connected
            } else {
                Connection::Connecting
            }
            &&& other != addr ==> after.state_of(other) == sessions.state_of(other)
                && after.pool.dom().contains(other) == sessions.pool.dom().contains(other)
                && after.pool[other] == sessions.pool[other] && after.pending.dom().contains(other)
                == sessions.pending.dom().contains(other) && after.pending[other]
                == sessions.pending[other]
        }),
{
}

/// A session may be promoted exactly while connections are accepted, it is the
/// pending one of its address, and the slot there is active under its
/// generation. Where it may, it is owned and active; once it is promoted, it is
/// the pooled active one.
pub proof fn promoted_sessions_are_active(
    sessions: Sessions,
    addr: Seq<u8>,
    session: Session,
    physical: Physical,
)
    ensures
        sessions.promotes(addr, session, physical) <==> physical.accepting
            && physical.slots.dom().contains(addr) && physical.slots[addr].generation
            == session.generation && physical.slots[addr].phase == PhysicalPhase::Active
            && sessions.pending.dom().contains(addr) && sessions.pending[addr].id == session.id
            && sessions.pending[addr].peer == session.peer,
        sessions.promotes(addr, session, physical) ==> sessions.owned_active(
            addr,
            session.id,
            session.peer,
            session.generation,
            physical,
        ) && sessions.promoted(addr, session).pooled_active(
            addr,
            session.id,
            session.peer,
            physical,
        ),
{
}

/// A pooled session is active while connections are accepted and the slot of
/// its address is active under its generation; a session of another identifier
/// or connection is not it.
pub proof fn active_sessions_hold_their_slot(
    sessions: Sessions,
    addr: Seq<u8>,
    session: Seq<char>,
    peer: u64,
    generation: u64,
    physical: Physical,
)
    ensures
        sessions.pooled_active(addr, session, peer, physical) <==> physical.accepting
            && sessions.pool.dom().contains(addr) && sessions.pool[addr].id == session
            && sessions.pool[addr].peer == peer && physical.slots.dom().contains(addr)
            && physical.slots[addr].generation == sessions.pool[addr].generation
            && physical.slots[addr].phase == PhysicalPhase::Active,
        sessions.owned_active(addr, session, peer, generation, physical) ==> physical.accepting
            && physical.slots.dom().contains(addr) && physical.slots[addr].generation == generation
            && physical.slots[addr].phase == PhysicalPhase::Active,
        physical.accepting && physical.slots.dom().contains(addr)
            && physical.slots[addr].generation == generation && physical.slots[addr].phase
            == PhysicalPhase::Active ==> {
            let pooled = sessions.pool.dom().contains(addr) && sessions.pool[addr].id == session
                && sessions.pool[addr].peer == peer;
            let pending = sessions.pending.dom().contains(addr) && sessions.pending[addr].id
                == session && sessions.pending[addr].peer == peer;
            sessions.owned_active(addr, session, peer, generation, physical) == (pooled || pending)
        },
{
}

/// A dial is admitted exactly where connections are accepted, the slot of its
/// address is active, and the address has neither a pooled nor a pending
/// session.
pub proof fn dials_are_admitted_to_free_addresses(
    sessions: Sessions,
    addr: Seq<u8>,
    physical: Physical,
)
    ensures
        sessions.admits(addr, physical) <==> physical.accepting && physical.slots.dom().contains(
            addr,
        ) && physical.slots[addr].phase == PhysicalPhase::Active && !sessions.pool.dom().contains(
            addr,
        ) && !sessions.pending.dom().contains(addr),
{
}

/// A handler's deadline ends the pending session that it still owns, from the
/// deadline on and not before; the connect timer ends the pending session that
/// it was set for, unless the address has a pooled session.
pub proof fn deadlines_end_their_own_session(
    sessions: Sessions,
    addr: Seq<u8>,
    phase_owner: Seq<char>,
    session: Seq<char>,
    deadline: u64,
    peer: u64,
    now: u64,
    later: u64,
)
    ensures
        sessions.expired(addr, phase_owner, deadline, now) <==> now >= deadline
            && sessions.pending.dom().contains(addr) && sessions.pending[addr].phase_owner
            == phase_owner && sessions.pending[addr].deadline == deadline,
        sessions.expired(addr, phase_owner, deadline, now) && later >= now ==> sessions.expired(
            addr,
            phase_owner,
            deadline,
            later,
        ),
        sessions.times_out(addr, session, deadline, peer) <==> sessions.pending.dom().contains(addr)
            && sessions.pending[addr].id == session && sessions.pending[addr].peer == peer
            && sessions.pending[addr].deadline == deadline && !sessions.pool.dom().contains(addr),
{
}

/// A signal is queued exactly for a pending session that is still in time, its
/// own signal too, and whose slot is active. One that comes from the session in
/// time, or from no such session, is refused; one that comes late times out.
pub proof fn signals_are_queued_in_time(
    sessions: Sessions,
    addr: Seq<u8>,
    session: Seq<char>,
    peer: u64,
    generation: u64,
    expires_at_ms: u64,
    now: u64,
    now_ms: u64,
    physical: Physical,
)
    ensures
        ({
            let refusal = sessions.signal_refusal(
                addr,
                session,
                peer,
                generation,
                expires_at_ms,
                now,
                now_ms,
                physical,
            );
            let ours = sessions.pending.dom().contains(addr) && sessions.pending[addr].id == session
                && sessions.pending[addr].peer == peer;
            let early = now < sessions.pending[addr].deadline && now_ms < expires_at_ms;
            let active = physical.accepting && physical.slots.dom().contains(addr)
                && physical.slots[addr].generation == generation && physical.slots[addr].phase
                == PhysicalPhase::Active;
            &&& refusal is None <==> ours && early && active
            &&& refusal == Some(Failure::Timeout) <==> ours && !early
            &&& refusal == Some(Failure::ConnectionRefused) <==> !ours || early && !active
        }),
{
}

/// What an address shows: a pooled session as connected once it is ready and as
/// connecting before; without one, why the last session failed, if it did;
/// without a failure, a pending session as connecting; and nothing otherwise.
pub proof fn addresses_show_their_session(sessions: Sessions, addr: Seq<u8>, reason: Seq<char>)
    ensures
        sessions.state_of(addr) == Connection::Connected <==> sessions.pool.dom().contains(addr)
            && sessions.ready.contains(addr),
        sessions.state_of(addr) == Connection::Connecting <==> (sessions.pool.dom().contains(addr)
            && !sessions.ready.contains(addr)) || (!sessions.pool.dom().contains(addr)
            && sessions.pending.dom().contains(addr) && !sessions.failed.dom().contains(addr)),
        sessions.state_of(addr) == Connection::Failed(reason) <==> !sessions.pool.dom().contains(
            addr,
        ) && sessions.failed.dom().contains(addr) && sessions.failed[addr] == reason,
        sessions.state_of(addr) == Connection::Absent <==> !sessions.pool.dom().contains(addr)
            && !sessions.pending.dom().contains(addr) && !sessions.failed.dom().contains(addr),
{
}

/// Listed addresses are each of the set and each once, and the listed peers are
/// those of the sessions, one for each address in its place.
pub proof fn listed_sessions_are_complete(
    sessions: Sessions,
    addrs: Seq<Seq<u8>>,
    set: Set<Seq<u8>>,
    i: int,
)
    requires
        lists(addrs, set),
    ensures
        set.finite() && addrs.len() == set.len(),
        forall|addr: Seq<u8>| set.contains(addr) <==> #[trigger] addrs.contains(addr),
        pooled_peers(sessions, addrs).len() == addrs.len(),
        pending_peers(sessions, addrs).len() == addrs.len(),
        0 <= i < addrs.len() ==> pooled_peers(sessions, addrs)[i] == sessions.pool[addrs[i]].peer
            && pending_peers(sessions, addrs)[i] == sessions.pending[addrs[i]].peer,
{
    addrs.unique_seq_to_set();
    assert forall|addr: Seq<u8>| set.contains(addr) <==> #[trigger] addrs.contains(addr) by {
        assert(addrs.to_set().contains(addr) == addrs.contains(addr));
    }
}

/// New tables show nothing at any address.
pub proof fn new_tables_are_empty(addr: Seq<u8>)
    ensures
        ({
            let sessions = Sessions::empty();
            &&& !sessions.pool.dom().contains(addr)
            &&& !sessions.pending.dom().contains(addr)
            &&& !sessions.failed.dom().contains(addr)
            &&& !sessions.ready.contains(addr)
            &&& sessions.state_of(addr) == Connection::Absent
        }),
{
}

/// The text of an optional string is that of the string, where there is one; a
/// connect timer that ends a session says so.
pub proof fn optional_texts_are_texts(text: String)
    ensures
        text_view(Some(text)) == Some(text@),
        text_view(None) is None,
        connect_timed_out() == "WebRTC connect timed out"@,
{
}

} // verus!
