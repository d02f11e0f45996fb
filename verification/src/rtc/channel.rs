//! Data channels: what their messages, their opening and their end mean.

use vstd::prelude::*;
use crate::addr::{TransportAddr, same_bytes};
use crate::error::{Connection, Failure, TransportError, joined};
use crate::rtc::keys::{addr_shown, show_addr};
use crate::rtc::lifecycle::{Physical, PhysicalPhase, PhysicalResources, wrapping_next};
use crate::rtc::sessions::{
    Owner, PooledSession, RemovedSessions, Session, SessionTables, Sessions, WebRtcSessionOwner,
    removed_are,
};

verus! {

/// How long a pooled session waits for the peer's ready marker before it counts
/// as ready without it, in milliseconds.
pub const WEBRTC_READY_FALLBACK_MS: u64 = 250;

/// How long a library call on a peer connection may take, in milliseconds.
pub const WEBRTC_IO_TIMEOUT_MS: u64 = 1000;

/// The bytes of the ready marker.
pub open spec fn ready_marker() -> Seq<u8> {
    seq![0xffu8, 0x46u8, 0x57u8, 0x52u8, 0x31u8]
}

/// The message by which a side says that its end of the channel is ready.
pub fn webrtc_ready_frame() -> (frame: Vec<u8>)
    ensures
        frame@ == ready_marker(),
{
    let frame: Vec<u8> = vec![0xff, 0x46, 0x57, 0x52, 0x31];
    assert(frame@ =~= ready_marker());
    frame
}

/// The owner that a session's callbacks name.
pub open spec fn channel_owner(session: Seq<char>, peer: u64) -> Owner {
    Owner { session: Some(session), peer: Some(peer), generation: None }
}

/// Whether the peer's ready marker counts: the session is pooled and active.
pub open spec fn ready_counts(
    sessions: Sessions,
    addr: Seq<u8>,
    session: Seq<char>,
    peer: u64,
    physical: Physical,
) -> bool {
    &&& physical.accepting
    &&& sessions.pooled_is(addr, Some(channel_owner(session, peer)), physical)
    &&& physical.holds(addr, sessions.pool[addr].generation, PhysicalPhase::Active)
}

/// Receives a message of a data channel. Text is ignored, the ready marker
/// makes the session ready, and everything else is a packet.
pub fn receive_channel_message(
    tables: &mut SessionTables,
    physical: &PhysicalResources,
    addr: &TransportAddr,
    session_id: &str,
    peer: u64,
    is_string: bool,
    data: Vec<u8>,
) -> (packet: Option<Vec<u8>>)
    requires
        old(tables).inv(),
        physical.inv(),
    ensures
        final(tables).inv(),
        packet == if is_string || data@ == ready_marker() {
            None
        } else {
            Some(data)
        },
        final(tables)@ == if !is_string && data@ == ready_marker() && ready_counts(
            old(tables)@,
            addr@,
            session_id@,
            peer,
            physical@,
        ) {
            (Sessions { ready: old(tables)@.ready.insert(addr@), ..old(tables)@ })
        } else {
            old(tables)@
        },
{
    if is_string {
        return None;
    }
    let marker = webrtc_ready_frame();
    if same_bytes(&data, &marker) {
        let owner = WebRtcSessionOwner::new(session_id, peer);
        tables.mark_webrtc_ready_if_pooled(addr, &owner, physical);
        return None;
    }
    Some(data)
}

/// The wait for the peer's ready marker ended: the session counts as ready if
/// it is still pooled and active.
pub fn webrtc_ready_fallback(
    tables: &mut SessionTables,
    physical: &PhysicalResources,
    addr: &TransportAddr,
    session_id: &str,
    peer: u64,
) -> (marked: bool)
    requires
        old(tables).inv(),
        physical.inv(),
    ensures
        final(tables).inv(),
        marked == ready_counts(old(tables)@, addr@, session_id@, peer, physical@),
        final(tables)@ == if marked {
            (Sessions { ready: old(tables)@.ready.insert(addr@), ..old(tables)@ })
        } else {
            old(tables)@
        },
{
    let owner = WebRtcSessionOwner::new(session_id, peer);
    tables.mark_webrtc_ready_if_pooled(addr, &owner, physical)
}

/// What follows when a data channel opened.
#[derive(Debug)]
pub enum ChannelOpened {
    /// The peer connection is being closed already.
    Nothing,
    /// The session may not be pooled: its channel and connection are closed.
    Close,
    /// The session is pooled, and the one that was pooled before is closed.
    /// Then the ready marker is sent.
    SendReady { previous: Option<PooledSession> },
}

/// A data channel opened: its session becomes the pooled session of the peer.
pub fn data_channel_opened(
    tables: &mut SessionTables,
    physical: &PhysicalResources,
    addr: &TransportAddr,
    session_id: String,
    peer: u64,
    generation: u64,
) -> (opened: ChannelOpened)
    requires
        old(tables).inv(),
        physical.inv(),
    ensures
        final(tables).inv(),
        ({
            let session = Session { id: session_id@, peer, generation };
            let leased = physical@.holds(addr@, generation, PhysicalPhase::Active);
            match opened {
                ChannelOpened::Nothing => !leased && final(tables)@ == old(tables)@,
                ChannelOpened::Close => leased && !old(tables)@.promotes(
                    addr@,
                    session,
                    physical@,
                ) && final(tables)@ == old(tables)@,
                ChannelOpened::SendReady { previous } => {
                    &&& old(tables)@.promotes(addr@, session, physical@)
                    &&& final(tables)@ == old(tables)@.promoted(addr@, session)
                    &&& match previous {
                        Some(p) => old(tables)@.pool.dom().contains(addr@) && p@ == old(
                            tables,
                        )@.pool[addr@],
                        None => !old(tables)@.pool.dom().contains(addr@),
                    }
                },
            }
        }),
{
    let leased = match physical.phase(addr) {
        Some(PhysicalPhase::Active) => match physical.generation(addr) {
            Some(current) => current == generation,
            None => false,
        },
        _ => false,
    };
    if !leased {
        return ChannelOpened::Nothing;
    }
    match tables.promote_pending_webrtc_session(
        addr,
        PooledSession { session_id, peer, generation },
        physical,
    ) {
        Ok(previous) => ChannelOpened::SendReady { previous },
        Err(_) => ChannelOpened::Close,
    }
}

/// The reason of a session whose ready marker could not be sent.
pub open spec fn ready_marker_failure() -> Seq<char> {
    "WebRTC ready marker failed"@
}

/// The ready marker could not be sent in time: the session ends.
pub fn ready_marker_failed(
    tables: &mut SessionTables,
    physical: &PhysicalResources,
    addr: &TransportAddr,
    session_id: &str,
    peer: u64,
) -> (removed: RemovedSessions)
    requires
        old(tables).inv(),
        physical.inv(),
    ensures
        final(tables).inv(),
        final(tables)@ == old(tables)@.cleaned(
            addr@,
            Some(channel_owner(session_id@, peer)),
            Some(ready_marker_failure()),
            physical@,
        ),
        removed_are(
            removed,
            old(tables)@,
            addr@,
            Some(channel_owner(session_id@, peer)),
            physical@,
        ),
{
    let owner = WebRtcSessionOwner::new(session_id, peer);
    tables.cleanup_webrtc_session(
        addr,
        Some(&owner),
        Some("WebRTC ready marker failed".to_owned()),
        physical,
    )
}

/// A data channel closed: its session ends without a recorded failure.
pub fn data_channel_closed(
    tables: &mut SessionTables,
    physical: &PhysicalResources,
    addr: &TransportAddr,
    session_id: &str,
    peer: u64,
) -> (removed: RemovedSessions)
    requires
        old(tables).inv(),
        physical.inv(),
    ensures
        final(tables).inv(),
        final(tables)@ == old(tables)@.cleaned(
            addr@,
            Some(channel_owner(session_id@, peer)),
            None,
            physical@,
        ),
        removed_are(
            removed,
            old(tables)@,
            addr@,
            Some(channel_owner(session_id@, peer)),
            physical@,
        ),
{
    let owner = WebRtcSessionOwner::new(session_id, peer);
    tables.cleanup_webrtc_session(addr, Some(&owner), None, physical)
}

// ---------------------------------------------------------------------------
// Peer connection states
// ---------------------------------------------------------------------------

/// The state of a peer connection.
#[derive(Clone, Copy, Debug, PartialEq, Eq, Structural)]
pub enum PeerConnectionState {
    Unspecified,
    New,
    Connecting,
    Connected,
    Disconnected,
    Failed,
    Closed,
}

impl PeerConnectionState {
    pub open spec fn spec_name(self) -> Seq<char> {
        match self {
            PeerConnectionState::Unspecified => "Unspecified"@,
            PeerConnectionState::New => "new"@,
            PeerConnectionState::Connecting => "connecting"@,
            PeerConnectionState::Connected => "connected"@,
            PeerConnectionState::Disconnected => "disconnected"@,
            PeerConnectionState::Failed => "failed"@,
            PeerConnectionState::Closed => "closed"@,
        }
    }

    pub fn name(self) -> (name: &'static str)
        ensures
            name@ == self.spec_name(),
    {
        match self {
            PeerConnectionState::Unspecified => "Unspecified",
            PeerConnectionState::New => "new",
            PeerConnectionState::Connecting => "connecting",
            PeerConnectionState::Connected => "connected",
            PeerConnectionState::Disconnected => "disconnected",
            PeerConnectionState::Failed => "failed",
            PeerConnectionState::Closed => "closed",
        }
    }

    /// Whether a session does not outlive this state.
    pub open spec fn is_terminal(self) -> bool {
        self == PeerConnectionState::Disconnected || self == PeerConnectionState::Failed || self
            == PeerConnectionState::Closed
    }
}

pub fn webrtc_peer_state_is_terminal(state: PeerConnectionState) -> (terminal: bool)
    ensures
        terminal == state.is_terminal(),
{
    match state {
        PeerConnectionState::Disconnected => true,
        PeerConnectionState::Failed => true,
        PeerConnectionState::Closed => true,
        _ => false,
    }
}

/// A peer connection changed its state: in a terminal state its session ends,
/// and the state is recorded as the reason.
pub fn peer_state_changed(
    tables: &mut SessionTables,
    physical: &PhysicalResources,
    addr: &TransportAddr,
    session_id: &str,
    peer: u64,
    state: PeerConnectionState,
) -> (removed: Option<RemovedSessions>)
    requires
        old(tables).inv(),
        physical.inv(),
    ensures
        final(tables).inv(),
        match removed {
            None => !state.is_terminal() && final(tables)@ == old(tables)@,
            Some(sessions) => {
                &&& state.is_terminal()
                &&& final(tables)@ == old(tables)@.cleaned(
                    addr@,
                    Some(channel_owner(session_id@, peer)),
                    Some("WebRTC peer connection became "@ + state.spec_name()),
                    physical@,
                )
                &&& removed_are(
                    sessions,
                    old(tables)@,
                    addr@,
                    Some(channel_owner(session_id@, peer)),
                    physical@,
                )
            },
        },
{
    if !webrtc_peer_state_is_terminal(state) {
        return None;
    }
    let owner = WebRtcSessionOwner::new(session_id, peer);
    let reason = joined("WebRTC peer connection became ", state.name());
    Some(tables.cleanup_webrtc_session(addr, Some(&owner), Some(reason), physical))
}

// ---------------------------------------------------------------------------
// Sending
// ---------------------------------------------------------------------------

/// Why a packet cannot be sent to an address, if it cannot.
pub open spec fn send_refusal(sessions: Sessions, addr: Seq<u8>, len: usize, mtu: u16) -> Option<
    Failure,
> {
    if len > mtu {
        Some(Failure::MtuExceeded { packet_size: len as nat, mtu: mtu as nat })
    } else if !sessions.pool.dom().contains(addr) {
        Some(Failure::SendFailed("no WebRTC connection to "@ + addr_shown(addr)))
    } else {
        None
    }
}

/// Finds the peer connection that a packet of the given length is sent on.
pub fn begin_send(tables: &SessionTables, addr: &TransportAddr, len: usize, mtu: u16) -> (result:
    Result<u64, TransportError>)
    requires
        tables.inv(),
    ensures
        match result {
            Ok(peer) => send_refusal(tables@, addr@, len, mtu) is None && peer
                == tables@.pool[addr@].peer,
            Err(error) => send_refusal(tables@, addr@, len, mtu) == Some(error@),
        },
{
    if len > mtu as usize {
        return Err(TransportError::MtuExceeded { packet_size: len, mtu });
    }
    match tables.pooled(addr) {
        Some(session) => Ok(session.peer),
        None => {
            let shown = show_addr(addr);
            Err(TransportError::SendFailed(joined("no WebRTC connection to ", shown.as_str())))
        },
    }
}

/// How sending a packet ended.
#[derive(Debug)]
pub enum SendOutcome {
    Sent(usize),
    Failed(String),
    TimedOut,
}

/// Ends a send. One that failed or took too long also ends the session: a dead
/// association must not hold up later packets.
pub fn finish_send(
    tables: &mut SessionTables,
    physical: &PhysicalResources,
    addr: &TransportAddr,
    outcome: SendOutcome,
) -> (result: (Result<usize, TransportError>, Option<RemovedSessions>))
    requires
        old(tables).inv(),
        physical.inv(),
    ensures
        final(tables).inv(),
        match outcome {
            SendOutcome::Sent(bytes) => result.0 == Ok::<usize, TransportError>(bytes),
            SendOutcome::Failed(reason) => result.0 matches Err(e) && e@ == Failure::SendFailed(
                reason@,
            ),
            SendOutcome::TimedOut => result.0 matches Err(e) && e@ == Failure::Timeout,
        },
        final(tables)@ == if outcome is Sent {
            old(tables)@
        } else {
            old(tables)@.cleaned(addr@, None, None, physical@)
        },
        match result.1 {
            None => outcome is Sent,
            Some(removed) => !(outcome is Sent) && removed_are(
                removed,
                old(tables)@,
                addr@,
                None,
                physical@,
            ),
        },
{
    match outcome {
        SendOutcome::Sent(bytes) => (Ok(bytes), None),
        SendOutcome::Failed(reason) => {
            let removed = tables.cleanup_webrtc_session(addr, None, None, physical);
            (Err(TransportError::SendFailed(reason)), Some(removed))
        },
        SendOutcome::TimedOut => {
            let removed = tables.cleanup_webrtc_session(addr, None, None, physical);
            (Err(TransportError::Timeout), Some(removed))
        },
    }
}

// ---------------------------------------------------------------------------
// Tearing a peer connection down
// ---------------------------------------------------------------------------

/// What the teardown of a peer connection does next.
#[derive(Clone, Copy, Debug, PartialEq, Eq, Structural)]
pub enum TeardownAction {
    /// After a pause, ICE is stopped again.
    RetryStopIce,
    /// After a pause, the references are counted again.
    WaitForReferences,
    /// Nothing of the connection is left: its slot is free.
    Finish,
}

/// The teardown of a peer connection, after a bounded attempt to close it. The
/// slot stays occupied until ICE has stopped and no reference is left.
#[derive(Debug)]
pub struct PeerTeardown {
    pub close_running: bool,
    pub ice_stopped: bool,
    pub straggling: bool,
}

impl PeerTeardown {
    /// One while the teardown waits for references to go, else nothing.
    pub open spec fn waiting(self) -> int {
        if self.straggling {
            1
        } else {
            0
        }
    }

    pub fn new(close_finished: bool) -> (teardown: PeerTeardown)
        ensures
            teardown.close_running == !close_finished,
            !teardown.ice_stopped,
            !teardown.straggling,
    {
        PeerTeardown { close_running: !close_finished, ice_stopped: false, straggling: false }
    }

    /// An attempt to stop ICE ended. Says whether the close that is still
    /// running is to be aborted and joined. A failed attempt is counted.
    pub fn ice_stop_ended(&mut self, stopped: bool, physical: &mut PhysicalResources) -> (abort:
        bool)
        requires
            old(physical).inv(),
        ensures
            final(physical).inv(),
            abort == old(self).close_running,
            *final(self) == (PeerTeardown {
                close_running: false,
                ice_stopped: stopped,
                straggling: old(self).straggling,
            }),
            final(physical)@ == if stopped {
                old(physical)@
            } else {
                (Physical {
                    ice_stop_failures: wrapping_next(old(physical)@.ice_stop_failures),
                    ..old(physical)@
                })
            },
    {
        let abort = self.close_running;
        self.close_running = false;
        self.ice_stopped = stopped;
        if !stopped {
            physical.note_ice_stop_failure();
        }
        abort
    }

    /// Decides what comes next, given how many references to the connection
    /// there are, the teardown's own included.
    pub fn next(&mut self, references: usize, physical: &mut PhysicalResources) -> (action:
        TeardownAction)
        requires
            old(physical).inv(),
            old(physical)@.straggler_waiters < usize::MAX,
            old(self).straggling ==> old(physical)@.straggler_waiters > 0,
        ensures
            final(physical).inv(),
            action == if !old(self).ice_stopped {
                TeardownAction::RetryStopIce
            } else if references > 1 {
                TeardownAction::WaitForReferences
            } else {
                TeardownAction::Finish
            },
            *final(self) == (PeerTeardown {
                straggling: (if action == TeardownAction::RetryStopIce {
                    old(self).straggling
                } else {
                    action == TeardownAction::WaitForReferences
                }),
                ..*old(self)
            }),
            final(physical)@ == (Physical {
                straggler_waiters: final(physical)@.straggler_waiters,
                ..old(physical)@
            }),
            // The connections that wait for their references are counted.
            final(physical)@.straggler_waiters - old(physical)@.straggler_waiters
                == final(self).waiting() - old(self).waiting(),
    {
        if !self.ice_stopped {
            return TeardownAction::RetryStopIce;
        }
        if references > 1 {
            if !self.straggling {
                physical.begin_straggler_wait();
                self.straggling = true;
            }
            return TeardownAction::WaitForReferences;
        }
        if self.straggling {
            physical.end_straggler_wait();
            self.straggling = false;
        }
        TeardownAction::Finish
    }
}

// ---------------------------------------------------------------------------
// Laws
// ---------------------------------------------------------------------------

/// The callbacks of a session that was replaced change nothing.
pub proof fn stale_callbacks_change_nothing(
    sessions: Sessions,
    addr: Seq<u8>,
    session: Seq<char>,
    peer: u64,
    failure: Option<Seq<char>>,
    physical: Physical,
)
    requires
        sessions.pool.dom().contains(addr) ==> sessions.pool[addr].id != session
            || sessions.pool[addr].peer != peer,
        sessions.pending.dom().contains(addr) ==> sessions.pending[addr].id != session
            || sessions.pending[addr].peer != peer,
    ensures
        sessions.cleaned(addr, Some(channel_owner(session, peer)), failure, physical) == sessions,
        !ready_counts(sessions, addr, session, peer, physical),
{
}

/// A session that ended in a terminal state no longer shows as connected or
/// connecting, and shows the state as its reason.
pub proof fn ended_session_shows_its_state(
    sessions: Sessions,
    addr: Seq<u8>,
    session: Seq<char>,
    peer: u64,
    reason: Seq<char>,
    physical: Physical,
)
    requires
        sessions.pool.dom().contains(addr),
        sessions.pool[addr].id == session,
        sessions.pool[addr].peer == peer,
    ensures
        sessions.cleaned(
            addr,
            Some(channel_owner(session, peer)),
            Some(reason),
            physical,
        ).state_of(addr) == Connection::Failed(reason),
{
}

/// The ready marker is the five bytes `FF 46 57 52 31`: a byte that begins no
/// UTF-8 text, and the letters `FWR1`.
pub proof fn ready_marker_is_known(bytes: Seq<u8>)
    ensures
        bytes == ready_marker() <==> bytes.len() == 5 && bytes[0] == 0xff && bytes[1] == 0x46
            && bytes[2] == 0x57 && bytes[3] == 0x52 && bytes[4] == 0x31,
{
    if bytes.len() == 5 && bytes[0] == 0xff && bytes[1] == 0x46 && bytes[2] == 0x57 && bytes[3]
        == 0x52 && bytes[4] == 0x31 {
        assert(bytes =~= ready_marker());
    }
}

/// A channel's readiness counts exactly for the pooled session of its address
/// with its identifier and its connection, while connections are accepted and
/// the slot of the address is active under the session's generation.
pub proof fn readiness_counts_for_the_pooled_session(
    sessions: Sessions,
    addr: Seq<u8>,
    session: Seq<char>,
    peer: u64,
    physical: Physical,
)
    ensures
        ready_counts(sessions, addr, session, peer, physical) <==> physical.accepting
            && sessions.pool.dom().contains(addr) && sessions.pool[addr].id == session
            && sessions.pool[addr].peer == peer && physical.slots.dom().contains(addr)
            && physical.slots[addr].generation == sessions.pool[addr].generation
            && physical.slots[addr].phase == PhysicalPhase::Active,
        ready_counts(sessions, addr, session, peer, physical) == sessions.pooled_active(
            addr,
            session,
            peer,
            physical,
        ),
{
}

/// A channel's owner is its session on its connection, in whatever generation.
pub proof fn channels_belong_to_a_session_and_a_connection(
    session: Seq<char>,
    peer: u64,
    other_session: Seq<char>,
    other_peer: u64,
    lease: Option<u64>,
)
    ensures
        channel_owner(session, peer).matches(other_session, other_peer, lease) <==> session
            == other_session && peer == other_peer,
{
}

/// A connection ends when it is disconnected, failed or closed, and in no other
/// state. Every state has a name of its own.
pub proof fn ended_states_are_named(a: PeerConnectionState, b: PeerConnectionState)
    ensures
        a.is_terminal() <==> a is Disconnected || a is Failed || a is Closed,
        a.spec_name() == b.spec_name() <==> a == b,
        a is Disconnected ==> a.spec_name() == "disconnected"@,
        a is Failed ==> a.spec_name() == "failed"@,
        a is Closed ==> a.spec_name() == "closed"@,
        a is New ==> a.spec_name() == "new"@,
        a is Connecting ==> a.spec_name() == "connecting"@,
        a is Connected ==> a.spec_name() == "connected"@,
        a is Unspecified ==> a.spec_name() == "Unspecified"@,
{
    reveal_strlit("Unspecified");
    reveal_strlit("new");
    reveal_strlit("connecting");
    reveal_strlit("connected");
    reveal_strlit("disconnected");
    reveal_strlit("failed");
    reveal_strlit("closed");
    assert("Unspecified"@[0] == 'U' && "new"@[0] == 'n' && "disconnected"@[0] == 'd' && "failed"@[0]
        == 'f');
    assert("connecting"@.len() == 10 && "connected"@.len() == 9 && "closed"@.len() == 6);
    assert("connecting"@[0] == 'c' && "connected"@[0] == 'c' && "closed"@[0] == 'c');
}

/// Data is sent where it is no longer than the limit and the address has a
/// pooled session. Data that is too long is refused whatever the address.
pub proof fn data_that_fits_is_sent(sessions: Sessions, addr: Seq<u8>, len: usize, mtu: u16)
    ensures
        send_refusal(sessions, addr, len, mtu) is None <==> len <= mtu
            && sessions.pool.dom().contains(addr),
        len > mtu <==> send_refusal(sessions, addr, len, mtu) == Some(
            Failure::MtuExceeded { packet_size: len as nat, mtu: mtu as nat },
        ),
        len <= mtu && !sessions.pool.dom().contains(addr) ==> send_refusal(
            sessions,
            addr,
            len,
            mtu,
        ) == Some(Failure::SendFailed("no WebRTC connection to "@ + addr_shown(addr))),
{
}

/// A teardown counts as waiting exactly while it waits for references.
pub proof fn stragglers_are_counted_once(teardown: PeerTeardown)
    ensures
        teardown.straggling ==> teardown.waiting() == 1,
        !teardown.straggling ==> teardown.waiting() == 0,
{
}

/// A pooled session counts as ready without the marker after a quarter of a second,
/// and a call on its connection may take four times as long.
pub proof fn ready_fallback_is_short()
    ensures
        WEBRTC_READY_FALLBACK_MS * 4 == WEBRTC_IO_TIMEOUT_MS,
        WEBRTC_IO_TIMEOUT_MS == 1000,
{
}

/// A ready marker that could not be sent ends the session in these words.
pub proof fn unsent_markers_are_named(words: Seq<char>)
    ensures
        words == ready_marker_failure() <==> words == "WebRTC ready marker failed"@,
{
}

} // verus!
