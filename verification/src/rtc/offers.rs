//! What happens to an incoming offer, an incoming answer and an outgoing dial.

use vstd::prelude::*;
use crate::addr::TransportAddr;
use crate::error::{Connection, Failure, TransportError};
use crate::text::{
    first_difference_decides, same_text, str_less, text_less, text_less_total,
};
use crate::rtc::counters::{WebRtcNegotiationCounters, WebRtcNegotiationSnapshot, one_more};
use crate::rtc::keys::{key_refusal, validate_compressed_pubkey_hex};
use crate::rtc::lifecycle::{
    Physical, PhysicalPhase, PhysicalReleaseWait, PhysicalReservation, PhysicalReserveError,
    PhysicalResources, ReleaseWaitStart,
};
use crate::rtc::seen::{SeenSessions, live, remembers};
use crate::rtc::sessions::{
    Owner, PendingDial, PendingDialOrigin, RemovedSessions, SessionTables, Sessions,
    WebRtcSessionOwner, removed_are,
};
use crate::rtc::signal::{
    LinkNegotiationKind, WebRtcSignal, signal_refusal, validate_signal,
};

verus! {

// ---------------------------------------------------------------------------
// Who wins
// ---------------------------------------------------------------------------

/// Whether an incoming offer replaces a pending session: a session that the
/// peer began yields to a newer offer, and one that this side began yields to
/// the peer with the smaller key.
pub open spec fn replaces_pending(
    local: Seq<char>,
    remote: Seq<char>,
    origin: PendingDialOrigin,
    pending_created_at_ms: u64,
    incoming_created_at_ms: u64,
) -> bool {
    match origin {
        PendingDialOrigin::Remote => incoming_created_at_ms > pending_created_at_ms,
        PendingDialOrigin::Local => text_less(remote, local),
    }
}

pub fn incoming_offer_replaces_pending(
    local_pubkey_hex: &str,
    remote_pubkey_hex: &str,
    pending_origin: PendingDialOrigin,
    pending_created_at_ms: u64,
    incoming_created_at_ms: u64,
) -> (yes: bool)
    ensures
        yes == replaces_pending(
            local_pubkey_hex@,
            remote_pubkey_hex@,
            pending_origin,
            pending_created_at_ms,
            incoming_created_at_ms,
        ),
{
    match pending_origin {
        PendingDialOrigin::Remote => incoming_created_at_ms > pending_created_at_ms,
        PendingDialOrigin::Local => str_less(remote_pubkey_hex, local_pubkey_hex),
    }
}

/// Of two offers that cross, the one of the peer with the smaller key wins.
pub fn incoming_offer_wins_glare(local_pubkey_hex: &str, remote_pubkey_hex: &str) -> (wins: bool)
    ensures
        wins == text_less(remote_pubkey_hex@, local_pubkey_hex@),
{
    str_less(remote_pubkey_hex, local_pubkey_hex)
}

/// What happens to an offer from a peer that has a pooled session.
#[derive(Clone, Copy, Debug, PartialEq, Eq, Structural)]
pub enum PooledOfferDisposition {
    Accept,
    IgnoreReplay,
    Redial,
}

/// What happens once the pooled session is out of the way.
pub open spec fn replacement_disposition(
    local: Seq<char>,
    remote: Seq<char>,
) -> PooledOfferDisposition {
    if text_less(remote, local) {
        PooledOfferDisposition::Accept
    } else {
        PooledOfferDisposition::Redial
    }
}

pub fn pooled_replacement_disposition(local_pubkey_hex: &str, remote_pubkey_hex: &str) -> (
    disposition: PooledOfferDisposition)
    ensures
        disposition == replacement_disposition(local_pubkey_hex@, remote_pubkey_hex@),
{
    if incoming_offer_wins_glare(local_pubkey_hex, remote_pubkey_hex) {
        PooledOfferDisposition::Accept
    } else {
        PooledOfferDisposition::Redial
    }
}

/// Exactly one of two crossing offers wins, and both sides agree which.
pub proof fn glare_has_one_winner(a: Seq<char>, b: Seq<char>)
    requires
        a != b,
    ensures
        text_less(a, b) != text_less(b, a),
        (replacement_disposition(a, b) == PooledOfferDisposition::Accept) == (
        replacement_disposition(b, a) == PooledOfferDisposition::Redial),
{
    text_less_total(a, b);
}

/// When both sides have begun a session, exactly one of the two offers replaces
/// the other side's pending session.
pub proof fn crossing_offers_keep_one_session(
    a: Seq<char>,
    b: Seq<char>,
    a_created_at_ms: u64,
    b_created_at_ms: u64,
)
    requires
        a != b,
    ensures
        replaces_pending(a, b, PendingDialOrigin::Local, a_created_at_ms, b_created_at_ms)
            != replaces_pending(b, a, PendingDialOrigin::Local, b_created_at_ms, a_created_at_ms),
{
    text_less_total(a, b);
}

/// The text of an address, or nothing where it has none.
pub open spec fn addr_text(addr: Seq<u8>) -> Seq<char> {
    match TransportAddr::spec_text(addr) {
        Some(text) => text,
        None => Seq::empty(),
    }
}

/// The owner of every session with this identifier.
pub open spec fn session_owner(session: Seq<char>) -> Owner {
    Owner { session: Some(session), peer: None, generation: None }
}

/// What happens to an offer, given the sessions.
pub open spec fn pooled_disposition(
    sessions: Sessions,
    addr: Seq<u8>,
    session: Seq<char>,
    local: Seq<char>,
) -> PooledOfferDisposition {
    if !sessions.pool.dom().contains(addr) {
        PooledOfferDisposition::Accept
    } else if sessions.pool[addr].id == session {
        PooledOfferDisposition::IgnoreReplay
    } else {
        replacement_disposition(local, addr_text(addr))
    }
}

/// The sessions after the pooled session of an address made room for an offer.
pub open spec fn room_made(
    sessions: Sessions,
    addr: Seq<u8>,
    session: Seq<char>,
    physical: Physical,
) -> Sessions {
    if sessions.pool.dom().contains(addr) && sessions.pool[addr].id != session {
        sessions.cleaned(addr, Some(session_owner(sessions.pool[addr].id)), None, physical)
    } else {
        sessions
    }
}

/// Whether the removed sessions are those that made room for an offer.
pub open spec fn made_room(
    removed: RemovedSessions,
    sessions: Sessions,
    addr: Seq<u8>,
    session: Seq<char>,
    physical: Physical,
) -> bool {
    if sessions.pool.dom().contains(addr) && sessions.pool[addr].id != session {
        removed_are(
            removed,
            sessions,
            addr,
            Some(session_owner(sessions.pool[addr].id)),
            physical,
        )
    } else {
        removed.pooled is None && removed.pending is None
    }
}

/// Makes room for an offer: a pooled session with another identifier is
/// removed, one with the same identifier stays.
pub fn prepare_pooled_webrtc_session_for_offer(
    tables: &mut SessionTables,
    remote_addr: &TransportAddr,
    incoming_session_id: &str,
    local_pubkey_hex: &str,
    physical: &PhysicalResources,
) -> (outcome: (PooledOfferDisposition, RemovedSessions))
    requires
        old(tables).inv(),
        physical.inv(),
    ensures
        final(tables).inv(),
        outcome.0 == pooled_disposition(
            old(tables)@,
            remote_addr@,
            incoming_session_id@,
            local_pubkey_hex@,
        ),
        final(tables)@ == room_made(
            old(tables)@,
            remote_addr@,
            incoming_session_id@,
            physical@,
        ),
        made_room(
            outcome.1,
            old(tables)@,
            remote_addr@,
            incoming_session_id@,
            physical@,
        ),
{
    let existing = match tables.pooled(remote_addr) {
        None => {
            return (
                PooledOfferDisposition::Accept,
                RemovedSessions { pooled: None, pending: None },
            );
        },
        Some(session) => session.session_id.clone(),
    };
    if same_text(existing.as_str(), incoming_session_id) {
        return (
            PooledOfferDisposition::IgnoreReplay,
            RemovedSessions { pooled: None, pending: None },
        );
    }
    let owner = WebRtcSessionOwner { session_id: Some(existing), peer: None, generation: None };
    assert(owner@ == session_owner(tables@.pool[remote_addr@].id));
    let removed = tables.cleanup_webrtc_session(remote_addr, Some(&owner), None, physical);
    let disposition = match remote_addr.as_str() {
        Some(text) => pooled_replacement_disposition(local_pubkey_hex, text),
        None => pooled_replacement_disposition(local_pubkey_hex, ""),
    };
    proof {
        if TransportAddr::spec_text(remote_addr@) is None {
            reveal_strlit("");
            assert(""@ =~= Seq::<char>::empty());
        }
    }
    (disposition, removed)
}

// ---------------------------------------------------------------------------
// Incoming signals
// ---------------------------------------------------------------------------

/// Checks a signal as it comes in; an answer that comes too late is counted.
pub fn admit_signal(
    signal: &WebRtcSignal,
    now: u64,
    counters: &mut WebRtcNegotiationCounters,
) -> (result: Result<(), TransportError>)
    ensures
        match result {
            Ok(_) => signal_refusal(*signal, now) is None,
            Err(error) => signal_refusal(*signal, now) == Some(error@),
        },
        final(counters)@ == if signal.kind is Answer && signal_refusal(*signal, now) == Some(
            Failure::Timeout,
        ) {
            (WebRtcNegotiationSnapshot {
                late_answers_rejected: one_more(old(counters)@.late_answers_rejected),
                ..old(counters)@
            })
        } else {
            old(counters)@
        },
{
    match validate_signal(signal, now) {
        Ok(_) => Ok(()),
        Err(error) => {
            match signal.kind {
                LinkNegotiationKind::Answer => {
                    match &error {
                        TransportError::Timeout => {
                            counters.record_late_answer_rejected();
                        },
                        _ => {},
                    }
                },
                _ => {},
            }
            Err(error)
        },
    }
}

/// What to do with an offer that was just received.
#[derive(Debug)]
pub enum OfferStart {
    /// A rejection is sent, and the offer fails with a refused connection.
    Refuse,
    /// The offer is ignored. A session that it took the place of is to be
    /// closed.
    Ignore { evicted: Option<PendingDial> },
    /// The offer's description is to be resolved. A session that it took the
    /// place of is to be closed.
    Resolve { evicted: Option<PendingDial> },
}

/// Whether an offer gets past the peer's pending session, if there is one.
pub open spec fn passes_pending(
    sessions: Sessions,
    addr: Seq<u8>,
    local: Seq<char>,
    remote: Seq<char>,
    created_at_ms: u64,
    accept_connections: bool,
) -> bool {
    if sessions.pending.dom().contains(addr) {
        replaces_pending(
            local,
            remote,
            sessions.pending[addr].origin,
            sessions.pending[addr].created_at_ms,
            created_at_ms,
        )
    } else {
        accept_connections
    }
}

/// Whether an offer repeats the peer's pending session.
pub open spec fn repeats_pending(sessions: Sessions, addr: Seq<u8>, session: Seq<char>) -> bool {
    sessions.pending.dom().contains(addr) && sessions.pending[addr].id == session
}

/// The sessions after an offer got past the peer's pending session.
pub open spec fn pending_evicted(sessions: Sessions, addr: Seq<u8>) -> Sessions {
    if sessions.pending.dom().contains(addr) {
        sessions.evicted(addr)
    } else {
        sessions
    }
}

/// Receives an offer: decides between it and the peer's pending session, and
/// remembers it, so that it is handled once. While an offer of the same peer is
/// being handled, nothing changes: of those that could be handled, one that is
/// known already is ignored, and any other is refused.
pub fn begin_offer(
    tables: &mut SessionTables,
    seen: &mut SeenSessions,
    physical: &mut PhysicalResources,
    remote_addr: &TransportAddr,
    signal: &WebRtcSignal,
    local_pubkey_hex: &str,
    remote_pubkey_hex: &str,
    accept_connections: bool,
    now_ms: u64,
) -> (start: OfferStart)
    requires
        old(tables).inv(),
        old(seen).inv(),
        old(physical).inv(),
    ensures
        final(tables).inv(),
        final(seen).inv(),
        final(physical).inv(),
        // While a handler runs, the claim on the peer's offers is held.
        final(physical)@ == (Physical {
            offer_handlers: (if start is Resolve {
                old(physical)@.offer_handlers.insert(remote_addr@)
            } else {
                old(physical)@.offer_handlers
            }),
            ..old(physical)@
        }),
        ({
            let free = old(physical)@.accepting && !old(physical)@.offer_handlers.contains(
                remote_addr@,
            );
            let repeated = repeats_pending(
                old(tables)@,
                remote_addr@,
                signal.negotiation_id@,
            );
            let passes = passes_pending(
                old(tables)@,
                remote_addr@,
                local_pubkey_hex@,
                remote_pubkey_hex@,
                signal.created_at_ms,
                accept_connections,
            );
            let key = (remote_addr@, signal.negotiation_id@);
            let known = live(old(seen)@, now_ms).dom().contains(key);
            match start {
                OfferStart::Refuse => {
                    &&& !repeated && (!passes || (!free && !known))
                    &&& final(tables)@ == old(tables)@
                    &&& final(seen)@ == old(seen)@
                },
                OfferStart::Ignore { evicted } => {
                    &&& repeated || (known && passes)
                    &&& if repeated || !free {
                        &&& evicted is None
                        &&& final(tables)@ == old(tables)@
                        &&& final(seen)@ == old(seen)@
                    } else {
                        &&& evicted_is(evicted, old(tables)@, remote_addr@)
                        &&& final(tables)@ == pending_evicted(old(tables)@, remote_addr@)
                        &&& final(seen)@ == live(old(seen)@, now_ms)
                    }
                },
                OfferStart::Resolve { evicted } => {
                    &&& free
                    &&& !repeated && passes && !known
                    &&& evicted_is(evicted, old(tables)@, remote_addr@)
                    &&& final(tables)@ == pending_evicted(old(tables)@, remote_addr@)
                    &&& remembers(old(seen)@, final(seen)@, key, signal.expires_at_ms, now_ms)
                },
            }
        }),
{
    let session_id = signal.negotiation_id.as_str();
    let repeated = match tables.pending(remote_addr) {
        Some(dial) => same_text(dial.session_id.as_str(), session_id),
        None => false,
    };
    if repeated {
        return OfferStart::Ignore { evicted: None };
    }
    let passes = offer_passes(
        tables,
        remote_addr,
        local_pubkey_hex,
        remote_pubkey_hex,
        signal.created_at_ms,
        accept_connections,
    );
    if !passes {
        return OfferStart::Refuse;
    }
    if !physical.try_claim_offer(remote_addr) {
        return if seen.knows(remote_addr, session_id, now_ms) {
            OfferStart::Ignore { evicted: None }
        } else {
            OfferStart::Refuse
        };
    }
    let ghost claimed = physical@;
    let start = take_offer(tables, seen, remote_addr, signal, now_ms);
    match &start {
        OfferStart::Resolve { .. } => {},
        _ => {
            physical.release_offer(remote_addr);
            assert(claimed.offer_handlers.remove(remote_addr@) =~= old(physical)@.offer_handlers);
        },
    }
    start
}

/// Whether the evicted session is the one that was pending, if one was.
pub open spec fn evicted_is(
    evicted: Option<PendingDial>,
    sessions: Sessions,
    addr: Seq<u8>,
) -> bool {
    match evicted {
        Some(d) => sessions.pending.dom().contains(addr) && d@ == sessions.pending[addr],
        None => !sessions.pending.dom().contains(addr),
    }
}

fn offer_passes(
    tables: &SessionTables,
    remote_addr: &TransportAddr,
    local_pubkey_hex: &str,
    remote_pubkey_hex: &str,
    created_at_ms: u64,
    accept_connections: bool,
) -> (yes: bool)
    requires
        tables.inv(),
    ensures
        yes == passes_pending(
            tables@,
            remote_addr@,
            local_pubkey_hex@,
            remote_pubkey_hex@,
            created_at_ms,
            accept_connections,
        ),
{
    match tables.pending(remote_addr) {
        None => accept_connections,
        Some(dial) => incoming_offer_replaces_pending(
            local_pubkey_hex,
            remote_pubkey_hex,
            dial.origin,
            dial.created_at_ms,
            created_at_ms,
        ),
    }
}

/// Gives an offer that got past the peer's pending session its place, and
/// remembers it.
fn take_offer(
    tables: &mut SessionTables,
    seen: &mut SeenSessions,
    remote_addr: &TransportAddr,
    signal: &WebRtcSignal,
    now_ms: u64,
) -> (start: OfferStart)
    requires
        old(tables).inv(),
        old(seen).inv(),
    ensures
        final(tables).inv(),
        final(seen).inv(),
        final(tables)@ == pending_evicted(old(tables)@, remote_addr@),
        ({
            let key = (remote_addr@, signal.negotiation_id@);
            let known = live(old(seen)@, now_ms).dom().contains(key);
            match start {
                OfferStart::Refuse => false,
                OfferStart::Ignore { evicted } => {
                    &&& known
                    &&& evicted_is(evicted, old(tables)@, remote_addr@)
                    &&& final(seen)@ == live(old(seen)@, now_ms)
                },
                OfferStart::Resolve { evicted } => {
                    &&& !known
                    &&& evicted_is(evicted, old(tables)@, remote_addr@)
                    &&& remembers(old(seen)@, final(seen)@, key, signal.expires_at_ms, now_ms)
                },
            }
        }),
{
    let pending = match tables.pending(remote_addr) {
        None => None,
        Some(dial) => Some(dial.session_id.clone()),
    };
    let evicted = match pending {
        None => None,
        Some(session) => tables.evict_pending_webrtc_session_for_offer(
            remote_addr,
            session.as_str(),
        ),
    };
    let session_id = signal.negotiation_id.as_str();
    if !seen.accept_webrtc_offer_once(remote_addr, session_id, signal.expires_at_ms, now_ms) {
        return OfferStart::Ignore { evicted };
    }
    OfferStart::Resolve { evicted }
}

/// What to do with an offer whose description was resolved.
#[derive(Debug)]
pub enum OfferPlacement {
    /// A rejection is sent, and the offer fails with a refused connection. The
    /// removed sessions are to be closed.
    Refuse { removed: RemovedSessions },
    /// The offer repeats the pooled session.
    Ignore,
    /// A slot is to be reserved: for the offer itself, or, after a rejection of
    /// the offer, for a dial of this side. The removed sessions are to be
    /// closed.
    Reserve { removed: RemovedSessions, redial: bool },
}

/// Decides between a resolved offer and the peer's pooled session.
pub fn place_offer(
    tables: &mut SessionTables,
    remote_addr: &TransportAddr,
    session_id: &str,
    expires_at_ms: u64,
    local_pubkey_hex: &str,
    physical: &PhysicalResources,
    now_ms: u64,
) -> (placement: OfferPlacement)
    requires
        old(tables).inv(),
        physical.inv(),
    ensures
        final(tables).inv(),
        final(tables)@ == room_made(old(tables)@, remote_addr@, session_id@, physical@),
        ({
            let disposition = pooled_disposition(
                old(tables)@,
                remote_addr@,
                session_id@,
                local_pubkey_hex@,
            );
            let late = expires_at_ms < now_ms || !physical@.accepting;
            match placement {
                OfferPlacement::Ignore => disposition == PooledOfferDisposition::IgnoreReplay,
                OfferPlacement::Refuse { .. } => disposition != PooledOfferDisposition::IgnoreReplay
                    && late,
                OfferPlacement::Reserve { redial, .. } => {
                    &&& disposition != PooledOfferDisposition::IgnoreReplay && !late
                    &&& redial == (disposition == PooledOfferDisposition::Redial)
                },
            }
        }),
        placement_removed(placement) matches Some(removed) ==> made_room(
            removed,
            old(tables)@,
            remote_addr@,
            session_id@,
            physical@,
        ),
{
    let (disposition, removed) = prepare_pooled_webrtc_session_for_offer(
        tables,
        remote_addr,
        session_id,
        local_pubkey_hex,
        physical,
    );
    match disposition {
        PooledOfferDisposition::IgnoreReplay => OfferPlacement::Ignore,
        PooledOfferDisposition::Accept => if expires_at_ms < now_ms || !physical.is_accepting() {
            OfferPlacement::Refuse { removed }
        } else {
            OfferPlacement::Reserve { removed, redial: false }
        },
        PooledOfferDisposition::Redial => if expires_at_ms < now_ms || !physical.is_accepting() {
            OfferPlacement::Refuse { removed }
        } else {
            OfferPlacement::Reserve { removed, redial: true }
        },
    }
}

/// The sessions that a placement removed.
pub open spec fn placement_removed(placement: OfferPlacement) -> Option<RemovedSessions> {
    match placement {
        OfferPlacement::Refuse { removed } => Some(removed),
        OfferPlacement::Reserve { removed, .. } => Some(removed),
        OfferPlacement::Ignore => None,
    }
}

/// Whether a slot was reserved for an offer.
#[derive(Debug)]
pub enum OfferReserve {
    Reserved(PhysicalReservation),
    /// The peer's slot is being closed; the offer waits for it.
    Wait(PhysicalReleaseWait),
    Refused(PhysicalReserveError),
}

/// Reserves a slot for an offer. Where the peer's slot is being closed, the
/// first offer waits for it, and any further one is refused.
pub fn reserve_physical_for_incoming_offer(
    physical: &mut PhysicalResources,
    addr: &TransportAddr,
) -> (outcome: OfferReserve)
    requires
        old(physical).inv(),
    ensures
        final(physical).inv(),
        match outcome {
            OfferReserve::Reserved(reservation) => {
                &&& old(physical)@.refusal(addr@) is None
                &&& final(physical)@ == old(physical)@.reserved(addr@)
                &&& reservation.addr@ == addr@
                &&& reservation.generation == old(physical)@.next_generation
            },
            OfferReserve::Wait(wait) => {
                &&& old(physical)@.refusal(addr@) == Some(
                    PhysicalReserveError::PeerBusy(PhysicalPhase::Closing),
                )
                &&& !old(physical)@.slots[addr@].replacement_waiter
                &&& final(physical)@ == old(physical)@.with_waiter(addr@, true)
                &&& wait.addr@ == addr@
                &&& wait.generation == old(physical)@.slots[addr@].generation
            },
            OfferReserve::Refused(error) => {
                &&& old(physical)@.refusal(addr@) == Some(error)
                &&& error == PhysicalReserveError::PeerBusy(PhysicalPhase::Closing) ==> old(
                    physical,
                )@.slots[addr@].replacement_waiter
                &&& final(physical)@ == old(physical)@
            },
        },
{
    match physical.reserve(addr) {
        Ok(reservation) => OfferReserve::Reserved(reservation),
        Err(PhysicalReserveError::PeerBusy(PhysicalPhase::Closing)) => {
            match physical.begin_release_wait(addr) {
                ReleaseWaitStart::Waiting(wait) => OfferReserve::Wait(wait),
                ReleaseWaitStart::Settled(_) => OfferReserve::Refused(
                    PhysicalReserveError::PeerBusy(PhysicalPhase::Closing),
                ),
            }
        },
        Err(error) => OfferReserve::Refused(error),
    }
}

/// Ends an offer's wait for a slot: reserves the slot if it became free.
pub fn resume_after_release(
    physical: &mut PhysicalResources,
    wait: PhysicalReleaseWait,
    released: bool,
) -> (result: Result<PhysicalReservation, PhysicalReserveError>)
    requires
        old(physical).inv(),
    ensures
        final(physical).inv(),
        ({
            let ended = if old(physical)@.slots.dom().contains(wait.addr@) && old(
                physical,
            )@.slots[wait.addr@].generation == wait.generation {
                old(physical)@.with_waiter(wait.addr@, false)
            } else {
                old(physical)@
            };
            match result {
                Ok(reservation) => {
                    &&& released
                    &&& ended.refusal(wait.addr@) is None
                    &&& final(physical)@ == ended.reserved(wait.addr@)
                    &&& reservation.addr@ == wait.addr@
                    &&& reservation.generation == ended.next_generation
                },
                Err(error) => {
                    &&& final(physical)@ == ended
                    &&& if released {
                        ended.refusal(wait.addr@) == Some(error)
                    } else {
                        error == PhysicalReserveError::PeerBusy(PhysicalPhase::Closing)
                    }
                },
            }
        }),
{
    let addr = wait.addr.clone();
    physical.end_release_wait(wait);
    if !released {
        return Err(PhysicalReserveError::PeerBusy(PhysicalPhase::Closing));
    }
    physical.reserve(&addr)
}

// ---------------------------------------------------------------------------
// Answers
// ---------------------------------------------------------------------------

/// What to do with an answer.
#[derive(Debug)]
pub enum AnswerRoute {
    /// The answer's description is applied to this peer connection.
    Apply { peer: u64, generation: u64 },
    /// The answer repeats the pooled session.
    Ignore,
}

/// Why an answer is refused, if it is.
pub open spec fn answer_refusal(sessions: Sessions, addr: Seq<u8>, session: Seq<char>) -> Option<
    Failure,
> {
    if sessions.pending.dom().contains(addr) {
        if sessions.pending[addr].id == session {
            None
        } else {
            Some(Failure::StartFailed("WebRTC answer session mismatch"@))
        }
    } else if sessions.pool.dom().contains(addr) && sessions.pool[addr].id == session {
        None
    } else {
        Some(Failure::StartFailed("WebRTC answer without a session"@))
    }
}

/// Finds the session that an answer belongs to. The sessions stay as they are;
/// an answer that belongs to none is counted.
pub fn route_answer(
    tables: &SessionTables,
    remote_addr: &TransportAddr,
    session_id: &str,
    counters: &mut WebRtcNegotiationCounters,
) -> (result: Result<AnswerRoute, TransportError>)
    requires
        tables.inv(),
    ensures
        match result {
            Ok(AnswerRoute::Apply { peer, generation }) => {
                &&& repeats_pending(tables@, remote_addr@, session_id@)
                &&& peer == tables@.pending[remote_addr@].peer
                &&& generation == tables@.pending[remote_addr@].generation
            },
            Ok(AnswerRoute::Ignore) => {
                &&& answer_refusal(tables@, remote_addr@, session_id@) is None
                &&& !tables@.pending.dom().contains(remote_addr@)
            },
            Err(error) => answer_refusal(tables@, remote_addr@, session_id@) == Some(error@),
        },
        final(counters)@ == if answer_refusal(tables@, remote_addr@, session_id@) is Some
            && !tables@.pending.dom().contains(remote_addr@) {
            (WebRtcNegotiationSnapshot {
                answers_without_session: one_more(old(counters)@.answers_without_session),
                ..old(counters)@
            })
        } else {
            old(counters)@
        },
{
    match tables.pending(remote_addr) {
        Some(dial) => {
            if same_text(dial.session_id.as_str(), session_id) {
                return Ok(AnswerRoute::Apply { peer: dial.peer, generation: dial.generation });
            }
            return Err(TransportError::StartFailed("WebRTC answer session mismatch".to_owned()));
        },
        None => {},
    }
    let replay = match tables.pooled(remote_addr) {
        Some(session) => same_text(session.session_id.as_str(), session_id),
        None => false,
    };
    if replay {
        return Ok(AnswerRoute::Ignore);
    }
    counters.record_answer_without_session();
    Err(TransportError::StartFailed("WebRTC answer without a session".to_owned()))
}

// ---------------------------------------------------------------------------
// Dials
// ---------------------------------------------------------------------------

/// What a request to connect comes to.
#[derive(Debug)]
pub enum ConnectStart {
    /// There is a session or a dial already.
    Underway,
    /// The dial begins with this slot.
    Dial(PhysicalReservation),
}

/// Why an address cannot be dialled at all, if it cannot.
pub open spec fn dial_refusal(addr: Seq<u8>) -> Option<Failure> {
    match TransportAddr::spec_text(addr) {
        None => Some(
            Failure::InvalidAddress("WebRTC address must be UTF-8 compressed pubkey hex"@),
        ),
        Some(text) => key_refusal(text),
    }
}

/// Begins a dial, unless there is a session or a dial already. A dial forgets
/// why the last session of the address failed.
pub fn begin_connect(
    tables: &mut SessionTables,
    physical: &mut PhysicalResources,
    addr: &TransportAddr,
) -> (result: Result<ConnectStart, TransportError>)
    requires
        old(tables).inv(),
        old(physical).inv(),
    ensures
        final(tables).inv(),
        final(physical).inv(),
        ({
            let there = old(tables)@.pool.dom().contains(addr@) || old(
                tables,
            )@.pending.dom().contains(addr@);
            match result {
                Ok(ConnectStart::Underway) => {
                    &&& dial_refusal(addr@) is None
                    &&& there || old(physical)@.refusal(addr@) == Some(
                        PhysicalReserveError::PeerBusy(PhysicalPhase::Creating),
                    ) || old(physical)@.refusal(addr@) == Some(
                        PhysicalReserveError::PeerBusy(PhysicalPhase::Active),
                    )
                    &&& final(tables)@ == old(tables)@
                    &&& final(physical)@ == old(physical)@
                },
                Ok(ConnectStart::Dial(reservation)) => {
                    &&& dial_refusal(addr@) is None
                    &&& !there
                    &&& old(physical)@.refusal(addr@) is None
                    &&& final(physical)@ == old(physical)@.reserved(addr@)
                    &&& reservation.addr@ == addr@
                    &&& reservation.generation == old(physical)@.next_generation
                    &&& final(tables)@ == (Sessions {
                        failed: old(tables)@.failed.remove(addr@),
                        ..old(tables)@
                    })
                },
                Err(error) => {
                    &&& final(tables)@ == old(tables)@
                    &&& final(physical)@ == old(physical)@
                    &&& match dial_refusal(addr@) {
                        Some(failure) => error@ == failure,
                        None => {
                            &&& error@ == Failure::ConnectionRefused
                            &&& !there
                            &&& old(physical)@.refusal(addr@) == Some(PhysicalReserveError::Stopped)
                                || old(physical)@.refusal(addr@) == Some(
                                PhysicalReserveError::Capacity,
                            ) || old(physical)@.refusal(addr@) == Some(
                                PhysicalReserveError::PeerBusy(PhysicalPhase::Closing),
                            )
                        },
                    }
                },
            }
        }),
{
    match addr.as_str() {
        None => {
            return Err(
                TransportError::InvalidAddress(
                    "WebRTC address must be UTF-8 compressed pubkey hex".to_owned(),
                ),
            );
        },
        Some(text) => match validate_compressed_pubkey_hex(text) {
            Err(error) => {
                return Err(error);
            },
            Ok(_) => {},
        },
    }
    if tables.pooled(addr).is_some() || tables.pending(addr).is_some() {
        return Ok(ConnectStart::Underway);
    }
    match physical.reserve(addr) {
        Ok(reservation) => {
            tables.forget_failure(addr);
            Ok(ConnectStart::Dial(reservation))
        },
        Err(PhysicalReserveError::PeerBusy(PhysicalPhase::Creating)) => Ok(ConnectStart::Underway),
        Err(PhysicalReserveError::PeerBusy(PhysicalPhase::Active)) => Ok(ConnectStart::Underway),
        Err(_) => Err(TransportError::ConnectionRefused),
    }
}

/// A session that the peer began yields to a later offer of the peer, and to no
/// other. One that this side began yields to the peer with the smaller key, at
/// whatever time the offer was made.
pub proof fn later_offers_and_smaller_keys_win(
    local: Seq<char>,
    remote: Seq<char>,
    pending_ms: u64,
    incoming_ms: u64,
    common: Seq<char>,
    a: char,
    b: char,
    x: Seq<char>,
    y: Seq<char>,
)
    ensures
        replaces_pending(local, remote, PendingDialOrigin::Remote, pending_ms, incoming_ms) <==>
            incoming_ms > pending_ms,
        local == common.push(a) + x && remote == common.push(b) + y && b < a ==> replaces_pending(
            local,
            remote,
            PendingDialOrigin::Local,
            pending_ms,
            incoming_ms,
        ) && replacement_disposition(local, remote) == PooledOfferDisposition::Accept,
        local == common.push(a) + x && remote == common.push(b) + y && a < b ==> !replaces_pending(
            local,
            remote,
            PendingDialOrigin::Local,
            pending_ms,
            incoming_ms,
        ) && replacement_disposition(local, remote) == PooledOfferDisposition::Redial,
        local == remote ==> !replaces_pending(
            local,
            remote,
            PendingDialOrigin::Local,
            pending_ms,
            incoming_ms,
        ),
{
    if local == common.push(a) + x && remote == common.push(b) + y {
        if b < a {
            first_difference_decides(common, b, a, y, x);
        }
        if a < b {
            first_difference_decides(common, a, b, x, y);
            assert(local[common.len() as int] == a && remote[common.len() as int] == b);
            text_less_total(local, remote);
        }
    }
    if local == remote {
        lemma_not_less(local);
    }
}

proof fn lemma_not_less(s: Seq<char>)
    ensures
        !text_less(s, s),
    decreases s.len(),
{
    if s.len() > 0 {
        lemma_not_less(s.skip(1));
    }
}

/// An offer from an address without a pooled session is accepted; one that
/// repeats the pooled session is ignored; any other takes its place, by an
/// accepted offer where the peer's key is the smaller one and by a new dial
/// where it is not.
pub proof fn pooled_sessions_decide_on_offers(
    sessions: Sessions,
    addr: Seq<u8>,
    session: Seq<char>,
    local: Seq<char>,
    text: Seq<char>,
)
    requires
        TransportAddr::spec_text(addr) == Some(text),
    ensures
        ({
            let disposition = pooled_disposition(sessions, addr, session, local);
            let pooled = sessions.pool.dom().contains(addr);
            let repeated = sessions.pool[addr].id == session;
            &&& disposition == PooledOfferDisposition::IgnoreReplay <==> pooled && repeated
            &&& disposition == PooledOfferDisposition::Accept <==> !pooled || (!repeated
                && text_less(text, local))
            &&& disposition == PooledOfferDisposition::Redial <==> pooled && !repeated && !text_less(
                text,
                local,
            )
        }),
        addr_text(addr) == text,
{
}

/// Where an offer needs room, the pooled session is taken out and handed over,
/// with a pending session of the same identifier; a pending session of another
/// identifier and every other address stay. Where it needs none, nothing
/// changes and nothing is handed over.
pub proof fn offers_make_room_at_their_address(
    removed: RemovedSessions,
    sessions: Sessions,
    addr: Seq<u8>,
    session: Seq<char>,
    physical: Physical,
    other: Seq<u8>,
)
    requires
        made_room(removed, sessions, addr, session, physical),
    ensures
        ({
            let after = room_made(sessions, addr, session, physical);
            let pooled = sessions.pool[addr];
            let pending = sessions.pending[addr];
            if sessions.pool.dom().contains(addr) && pooled.id != session {
                let ended = sessions.pending.dom().contains(addr) && pending.id == pooled.id;
                &&& !after.pool.dom().contains(addr)
                &&& !after.ready.contains(addr)
                &&& !after.failed.dom().contains(addr)
                &&& removed.pooled matches Some(s) && s@ == pooled
                &&& removed.pending is Some <==> ended
                &&& removed.pending matches Some(d) ==> d@ == pending
                &&& after.pending.dom().contains(addr) <==> sessions.pending.dom().contains(addr)
                    && !ended
                &&& after.pending.dom().contains(addr) ==> after.pending[addr] == pending
                &&& other != addr ==> after.state_of(other) == sessions.state_of(other)
                    && after.pool.dom().contains(other) == sessions.pool.dom().contains(other)
                    && after.pending.dom().contains(other) == sessions.pending.dom().contains(other)
            } else {
                after == sessions && removed.pooled is None && removed.pending is None
            }
        }),
{
}

/// An offer gets past a pending session exactly where it replaces it, and where
/// there is none if connections are accepted at all. The session that it gets
/// past is taken out and handed over, and nothing else is.
pub proof fn offers_get_past_pending_sessions(
    evicted: Option<PendingDial>,
    sessions: Sessions,
    addr: Seq<u8>,
    session: Seq<char>,
    local: Seq<char>,
    remote: Seq<char>,
    created_at_ms: u64,
    accept_connections: bool,
    other: Seq<u8>,
)
    requires
        evicted_is(evicted, sessions, addr),
    ensures
        !sessions.pending.dom().contains(addr) ==> passes_pending(
            sessions,
            addr,
            local,
            remote,
            created_at_ms,
            accept_connections,
        ) == accept_connections && pending_evicted(sessions, addr) == sessions && evicted is None
            && !repeats_pending(sessions, addr, session),
        sessions.pending.dom().contains(addr) ==> {
            let dial = sessions.pending[addr];
            let after = pending_evicted(sessions, addr);
            let passes = passes_pending(
                sessions,
                addr,
                local,
                remote,
                created_at_ms,
                accept_connections,
            );
            &&& dial.origin == PendingDialOrigin::Remote ==> (passes <==> created_at_ms
                > dial.created_at_ms)
            &&& dial.origin == PendingDialOrigin::Local ==> (passes <==> text_less(remote, local))
            &&& repeats_pending(sessions, addr, session) <==> dial.id == session
            &&& evicted matches Some(d) && d@ == dial
            &&& after.pool == sessions.pool
            &&& !after.pending.dom().contains(addr)
            &&& !after.ready.contains(addr)
            &&& !after.failed.dom().contains(addr)
            &&& other != addr ==> after.state_of(other) == sessions.state_of(other)
                && after.pending.dom().contains(other) == sessions.pending.dom().contains(other)
        },
{
}

/// What a placement took out is handed over with it, and an ignored offer took
/// nothing out.
pub proof fn placements_hand_over_what_they_removed(placement: OfferPlacement)
    ensures
        placement is Ignore <==> placement_removed(placement) is None,
        placement matches OfferPlacement::Refuse { removed } ==> placement_removed(placement)
            == Some(removed),
        placement matches OfferPlacement::Reserve { removed, .. } ==> placement_removed(placement)
            == Some(removed),
{
}

/// An answer belongs to the pending session of its address, or to the pooled
/// one where none is pending, if it has the identifier of that session. The
/// failure tells a session of another identifier from none at all.
pub proof fn answers_belong_to_their_session(
    sessions: Sessions,
    addr: Seq<u8>,
    session: Seq<char>,
)
    ensures
        ({
            let refusal = answer_refusal(sessions, addr, session);
            let pending = sessions.pending.dom().contains(addr);
            let pooled = sessions.pool.dom().contains(addr);
            &&& refusal is None <==> (pending && sessions.pending[addr].id == session) || (!pending
                && pooled && sessions.pool[addr].id == session)
            &&& pending && sessions.pending[addr].id != session ==> refusal == Some(
                Failure::StartFailed("WebRTC answer session mismatch"@),
            )
            &&& !pending && !(pooled && sessions.pool[addr].id == session) ==> refusal == Some(
                Failure::StartFailed("WebRTC answer without a session"@),
            )
        }),
{
}

/// An address can be dialled exactly where its text is that of a key.
pub proof fn dialled_addresses_are_keys(addr: Seq<u8>, text: Seq<char>)
    ensures
        TransportAddr::spec_text(addr) is None ==> dial_refusal(addr) == Some(
            Failure::InvalidAddress("WebRTC address must be UTF-8 compressed pubkey hex"@),
        ),
        TransportAddr::spec_text(addr) == Some(text) ==> dial_refusal(addr) == key_refusal(text),
{
}

/// A session that took the place of another shows at its address while the
/// other does not: an evicted dial shows nothing, unless a session is pooled.
pub proof fn evicted_dials_show_nothing(sessions: Sessions, addr: Seq<u8>)
    requires
        sessions.pending.dom().contains(addr),
        !sessions.pool.dom().contains(addr),
    ensures
        pending_evicted(sessions, addr).state_of(addr) == Connection::Absent,
{
}

} // verus!
