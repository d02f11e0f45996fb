//! The state of a WebRTC transport: starting, stopping and looking up peers.

use vstd::prelude::*;
use crate::addr::{TransportAddr, TransportId};
use crate::error::{Connection, ConnectionState, Failure, TransportError, TransportState, joined};
use crate::rtc::config::{MAX_WEBRTC_SIGNAL_TASKS, WebRtcConfig};
use crate::rtc::counters::{WebRtcNegotiationCounters, WebRtcNegotiationSnapshot};
use crate::rtc::ice_url::{check_ice_servers, servers_refusal, texts};
use crate::rtc::lifecycle::{
    Physical, PhysicalResources, SlotKind, WebRtcResourceSnapshot, count_of,
};
use crate::rtc::seen::SeenSessions;
use crate::rtc::sessions::{RemovedSessions, SessionTables, Sessions, removed_are};

verus! {

/// Which tables another task holds at the moment.
#[derive(Clone, Copy, Debug)]
pub struct BusyTables {
    pub pool: bool,
    pub ready: bool,
    pub failed: bool,
    pub pending: bool,
}

/// The connection state that an address shows to a reader that cannot wait for
/// the tables which other tasks hold.
pub open spec fn observed_state(sessions: Sessions, addr: Seq<u8>, busy: BusyTables) -> Connection {
    if busy.pool {
        Connection::Connecting
    } else if sessions.pool.dom().contains(addr) {
        if !busy.ready && sessions.ready.contains(addr) {
            Connection::Connected
        } else {
            Connection::Connecting
        }
    } else if busy.failed {
        Connection::Connecting
    } else if sessions.failed.dom().contains(addr) {
        Connection::Failed(sessions.failed[addr])
    } else if busy.pending || sessions.pending.dom().contains(addr) {
        Connection::Connecting
    } else {
        Connection::Absent
    }
}

/// How many signals are handled at the same time: as many as there may be
/// connections, but one at least and no more than the limit.
pub fn signal_task_limit(max_connections: usize) -> (limit: usize)
    ensures
        limit == if max_connections < 1 {
            1
        } else if max_connections > MAX_WEBRTC_SIGNAL_TASKS {
            MAX_WEBRTC_SIGNAL_TASKS
        } else {
            max_connections
        },
{
    if max_connections < 1 {
        1
    } else if max_connections > MAX_WEBRTC_SIGNAL_TASKS {
        MAX_WEBRTC_SIGNAL_TASKS
    } else {
        max_connections
    }
}

/// A WebRTC transport.
pub struct WebRtcTransport {
    pub transport_id: TransportId,
    pub name: Option<String>,
    pub config: WebRtcConfig,
    pub state: TransportState,
    /// Whether signals can still be received; the first start takes them over.
    pub signals_waiting: bool,
    pub sessions: SessionTables,
    pub seen: SeenSessions,
    pub physical: PhysicalResources,
    pub negotiation: WebRtcNegotiationCounters,
    pub local_pubkey_hex: String,
    pub stun_servers: Vec<String>,
}

impl WebRtcTransport {
    pub open spec fn inv(self) -> bool {
        &&& self.sessions.inv()
        &&& self.seen.inv()
        &&& self.physical.inv()
    }

    /// A transport that was not started yet. The STUN servers of the settings
    /// take the place of those that discovery gave; each must be one that can be
    /// used.
    pub fn new(
        transport_id: TransportId,
        name: Option<String>,
        config: WebRtcConfig,
        local_pubkey_hex: String,
        discovery_stun_servers: &Vec<String>,
    ) -> (result: Result<WebRtcTransport, TransportError>)
        ensures
            ({
                let servers = texts(config.chosen_servers(discovery_stun_servers@));
                match result {
                    Ok(transport) => {
                        &&& servers_refusal(servers, 0) is None
                        &&& transport.inv()
                        &&& transport.transport_id == transport_id
                        &&& transport.name == name
                        &&& transport.config == config
                        &&& transport.state == TransportState::Configured
                        &&& transport.signals_waiting
                        &&& transport.sessions@ == Sessions::empty()
                        &&& transport.seen@ == Map::<(Seq<u8>, Seq<char>), u64>::empty()
                        &&& transport.physical@ == Physical::unused(
                            (match config.max_connections {
                                Some(n) => n,
                                None => 64,
                            }) as nat,
                        )
                        &&& transport.negotiation@ == WebRtcNegotiationSnapshot::zero()
                        &&& transport.local_pubkey_hex == local_pubkey_hex
                        &&& texts(transport.stun_servers@) == servers
                    },
                    Err(error) => servers_refusal(servers, 0) == Some(error@),
                }
            }),
    {
        let stun_servers = config.stun_servers(discovery_stun_servers);
        match check_ice_servers(&stun_servers) {
            Ok(_) => {},
            Err(error) => {
                return Err(error);
            },
        }
        let physical = PhysicalResources::new(config.max_connections());
        Ok(
            WebRtcTransport {
                transport_id,
                name,
                config,
                state: TransportState::Configured,
                signals_waiting: true,
                sessions: SessionTables::new(),
                seen: SeenSessions::new(),
                physical,
                negotiation: WebRtcNegotiationCounters::new(),
                local_pubkey_hex,
                stun_servers,
            },
        )
    }

    /// The name of the instance.
    pub fn name(&self) -> (name: Option<&str>)
        ensures
            match name {
                Some(n) => self.name matches Some(own) && n@ == own@,
                None => self.name is None,
            },
    {
        match &self.name {
            Some(name) => Some(name.as_str()),
            None => None,
        }
    }

    /// Starts the transport: from here on sessions are accepted. The signals
    /// can be taken over once only.
    pub fn start(&mut self) -> (result: Result<(), TransportError>)
        requires
            old(self).inv(),
        ensures
            final(self).inv(),
            match result {
                Ok(_) => old(self).state.startable() && old(self).signals_waiting,
                Err(error) => if !old(self).state.startable() {
                    error@ == Failure::AlreadyStarted
                } else {
                    !old(self).signals_waiting && error@ == Failure::StartFailed(
                        "signal receiver already taken"@,
                    )
                },
            },
            final(self).physical@ == if old(self).state.startable() {
                (Physical { accepting: true, ..old(self).physical@ })
            } else {
                old(self).physical@
            },
            *final(self) == (WebRtcTransport {
                state: (if result is Ok {
                    TransportState::Up
                } else if old(self).state.startable() {
                    TransportState::Starting
                } else {
                    old(self).state
                }),
                signals_waiting: old(self).signals_waiting && result is Err,
                physical: final(self).physical,
                ..*old(self)
            }),
    {
        if !self.state.can_start() {
            return Err(TransportError::AlreadyStarted);
        }
        self.state = TransportState::Starting;
        self.physical.start_accepting();
        if !self.signals_waiting {
            return Err(TransportError::StartFailed("signal receiver already taken".to_owned()));
        }
        self.signals_waiting = false;
        self.state = TransportState::Up;
        Ok(())
    }

    /// Begins to stop the transport: no session is accepted any more, and every
    /// session and every remembered offer is forgotten. The tables that held
    /// the sessions are handed back, so that the peer connections can be closed.
    pub fn begin_stop(&mut self) -> (result: Result<SessionTables, TransportError>)
        requires
            old(self).inv(),
        ensures
            final(self).inv(),
            match result {
                Ok(drained) => {
                    &&& old(self).state.operational()
                    &&& drained == old(self).sessions
                    &&& final(self).sessions@ == Sessions::empty()
                    &&& final(self).seen@ == Map::<(Seq<u8>, Seq<char>), u64>::empty()
                    &&& final(self).physical@ == (Physical {
                        accepting: false,
                        ..old(self).physical@
                    })
                    &&& *final(self) == (WebRtcTransport {
                        sessions: final(self).sessions,
                        seen: final(self).seen,
                        physical: final(self).physical,
                        ..*old(self)
                    })
                },
                Err(error) => {
                    &&& !old(self).state.operational()
                    &&& error@ == Failure::NotStarted
                    &&& *final(self) == *old(self)
                },
            },
    {
        if !self.state.is_operational() {
            return Err(TransportError::NotStarted);
        }
        self.physical.stop_accepting();
        self.seen.clear();
        Ok(self.sessions.drain())
    }

    /// Ends stopping the transport: it fails if a peer connection is left, or
    /// else if the name resolver did not stop. `counters` shows the resources.
    pub fn finish_stop(
        &mut self,
        resolver_stopped: Result<(), TransportError>,
        counters: &str,
    ) -> (result: Result<(), TransportError>)
        requires
            old(self).inv(),
        ensures
            final(self).inv(),
            match result {
                Ok(_) => old(self).physical@.occupied() == 0 && resolver_stopped is Ok,
                Err(error) => if old(self).physical@.occupied() != 0 {
                    error@ == Failure::ShutdownFailed(
                        "WebRTC physical owners did not quiesce: "@ + counters@,
                    )
                } else {
                    resolver_stopped == Err::<(), TransportError>(error)
                },
            },
            *final(self) == (WebRtcTransport {
                state: (if result is Ok {
                    TransportState::Down
                } else {
                    TransportState::Failed
                }),
                ..*old(self)
            }),
    {
        if !self.physical.is_quiescent() {
            self.state = TransportState::Failed;
            return Err(
                TransportError::ShutdownFailed(
                    joined("WebRTC physical owners did not quiesce: ", counters),
                ),
            );
        }
        match resolver_stopped {
            Err(error) => {
                self.state = TransportState::Failed;
                Err(error)
            },
            Ok(_) => {
                self.state = TransportState::Down;
                Ok(())
            },
        }
    }

    /// Counters of the physical peer connections.
    pub fn resource_snapshot(&self) -> (snapshot: WebRtcResourceSnapshot)
        requires
            self.inv(),
        ensures
            snapshot.conserved(),
            snapshot.capacity == self.physical@.capacity,
            snapshot.creating == count_of(self.physical@.slots, SlotKind::Creating),
            snapshot.active == count_of(self.physical@.slots, SlotKind::Active),
            snapshot.cleanup_inflight == count_of(self.physical@.slots, SlotKind::Inflight),
            snapshot.abandoned == count_of(self.physical@.slots, SlotKind::Abandoned),
            snapshot.straggler_waiters == self.physical@.straggler_waiters,
            snapshot.created_total == self.physical@.created_total,
            snapshot.closed_total == self.physical@.closed_total,
            snapshot.ice_stop_failures_total == self.physical@.ice_stop_failures,
            snapshot.peak_physical == self.physical@.peak,
    {
        self.physical.snapshot()
    }

    /// The connection state that an address shows without waiting.
    pub fn connection_state_sync(&self, addr: &TransportAddr, busy: BusyTables) -> (state:
        ConnectionState)
        requires
            self.inv(),
        ensures
            state@ == observed_state(self.sessions@, addr@, busy),
    {
        if busy.pool {
            return ConnectionState::Connecting;
        }
        if self.sessions.pooled(addr).is_some() {
            return if !busy.ready && self.sessions.is_ready(addr) {
                ConnectionState::Connected
            } else {
                ConnectionState::Connecting
            };
        }
        if busy.failed {
            return ConnectionState::Connecting;
        }
        match self.sessions.failure(addr) {
            Some(reason) => {
                return ConnectionState::Failed(reason.clone());
            },
            None => {},
        }
        if busy.pending || self.sessions.pending(addr).is_some() {
            ConnectionState::Connecting
        } else {
            ConnectionState::Absent
        }
    }

    /// Ends whatever session an address has. The removed sessions' peer
    /// connections are to be closed.
    pub fn close_connection(&mut self, addr: &TransportAddr) -> (removed: RemovedSessions)
        requires
            old(self).inv(),
        ensures
            final(self).inv(),
            final(self).sessions@ == old(self).sessions@.cleaned(
                addr@,
                None,
                None,
                old(self).physical@,
            ),
            removed_are(removed, old(self).sessions@, addr@, None, old(self).physical@),
            *final(self) == (WebRtcTransport { sessions: final(self).sessions, ..*old(self) }),
    {
        self.sessions.cleanup_webrtc_session(addr, None, None, &self.physical)
    }
}

// ---------------------------------------------------------------------------
// Laws
// ---------------------------------------------------------------------------

/// A reader that cannot wait never reports a connection as absent that is not,
/// and reports the true state where no table is held by another task.
pub proof fn contention_hides_no_connection(sessions: Sessions, addr: Seq<u8>, busy: BusyTables)
    ensures
        observed_state(sessions, addr, busy) == Connection::Absent ==> sessions.state_of(addr)
            == Connection::Absent,
        observed_state(sessions, addr, busy) == Connection::Connected ==> sessions.state_of(addr)
            == Connection::Connected,
        !busy.pool && !busy.ready && !busy.failed && !busy.pending ==> observed_state(
            sessions,
            addr,
            busy,
        ) == sessions.state_of(addr),
{
}

/// A closed connection shows as absent.
pub proof fn closed_connection_is_absent(sessions: Sessions, addr: Seq<u8>, physical: Physical)
    ensures
        sessions.cleaned(addr, None, None, physical).state_of(addr) == Connection::Absent,
{
}

/// What a reader that cannot wait sees: a table that another task holds is taken
/// for one that says no more than connecting, and the tables behind it are not
/// asked. The pool is asked first, then, where it has no session, the failures, and
/// where there is none, the pending sessions.
pub proof fn held_tables_show_as_connecting(
    sessions: Sessions,
    addr: Seq<u8>,
    busy: BusyTables,
    reason: Seq<char>,
)
    ensures
        ({
            let state = observed_state(sessions, addr, busy);
            let pooled = sessions.pool.dom().contains(addr);
            let failed = sessions.failed.dom().contains(addr);
            let pending = sessions.pending.dom().contains(addr);
            &&& state == Connection::Connected <==> !busy.pool && pooled && !busy.ready
                && sessions.ready.contains(addr)
            &&& state == Connection::Failed(reason) <==> !busy.pool && !pooled && !busy.failed
                && failed && sessions.failed[addr] == reason
            &&& state == Connection::Absent <==> !busy.pool && !pooled && !busy.failed && !failed
                && !busy.pending && !pending
            &&& state == Connection::Connecting <==> busy.pool || (pooled && (busy.ready
                || !sessions.ready.contains(addr))) || (!pooled && (busy.failed || (!failed && (
            busy.pending || pending))))
        }),
{
}

} // verus!
