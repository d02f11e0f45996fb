//! The state of a UDP transport.
//!
//! One socket serves all peers. Times are readings of the monotonic clock in
//! nanoseconds.

use vstd::prelude::*;
use crate::addr::{
    SocketAddr, TransportAddr, TransportId, numeric_socket_addr, parse_socket_addr, same_family,
    socket_addr_error, socket_addr_families_compatible, socket_addr_text,
};
use crate::addr_map::AddrMap;
use crate::error::{
    Failure, TransportError, TransportState, TransportType, joined,
};
use crate::udp::config::UdpConfig;
use crate::udp::gso::{UdpPayloadBatch, lemma_run_len_grows, run_len};
use crate::udp::snmp::LinuxUdpRcvbufErrorSnapshot;
use crate::udp::socket::{SocketSetup, UdpRawSocket, bind_failure, open_failure};
use crate::udp::stats::{UdpStats, UdpStatsSnapshot};

verus! {

/// How long the address of a host name is kept, in nanoseconds.
pub const DNS_CACHE_TTL: u64 = 60_000_000_000;

/// How long a socket is kept at least before it is rebuilt, in nanoseconds.
pub const LOCAL_ROUTE_SOCKET_RECOVERY_COOLDOWN: u64 = 5_000_000_000;

/// How long sending one packet may take, in milliseconds.
pub const UDP_CONTROL_SEND_TIMEOUT_MS: u64 = 100;

/// How the socket of a transport came to be.
#[derive(Clone, Copy, Debug, PartialEq, Eq, Structural)]
pub enum UdpSocketOrigin {
    Configured,
    Exclusive,
    Adopted,
}

impl UdpSocketOrigin {
    pub fn label(self) -> (label: &'static str)
        ensures
            label@ == (match self {
                UdpSocketOrigin::Configured => "configured"@,
                UdpSocketOrigin::Exclusive => "exclusive"@,
                UdpSocketOrigin::Adopted => "adopted"@,
            }),
    {
        match self {
            UdpSocketOrigin::Configured => "configured",
            UdpSocketOrigin::Exclusive => "exclusive",
            UdpSocketOrigin::Adopted => "adopted",
        }
    }
}

/// Signs of congestion that a transport sees.
#[derive(Clone, Copy, Debug, PartialEq, Eq, Structural)]
pub struct TransportCongestion {
    pub recv_drops: Option<u64>,
    pub socket_recv_drops: Option<u64>,
    pub namespace_recv_drops: Option<u64>,
}

/// The failure of a destination of the other IP family.
pub open spec fn family_mismatch(remote: SocketAddr, local: SocketAddr) -> Failure {
    Failure::InvalidAddress(
        "remote address family "@ + socket_addr_text(remote)
            + " is incompatible with local UDP socket "@ + socket_addr_text(local),
    )
}

fn family_error(remote: SocketAddr, local: SocketAddr) -> (error: TransportError)
    ensures
        error@ == family_mismatch(remote, local),
{
    let remote_text = remote.text();
    let local_text = local.text();
    let mut message = joined("remote address family ", remote_text.as_str());
    message.append(" is incompatible with local UDP socket ");
    message.append(local_text.as_str());
    TransportError::InvalidAddress(message)
}

/// A destination that needs no lookup, or that one is needed.
#[derive(Clone, Copy, Debug, PartialEq, Eq, Structural)]
pub enum Destination {
    Known(SocketAddr),
    Lookup,
}

/// The address that an entry of the name cache still gives.
pub open spec fn fresh(
    cache: Map<Seq<u8>, (SocketAddr, u64)>,
    addr: Seq<u8>,
    now: u64,
) -> Option<SocketAddr> {
    if cache.dom().contains(addr) && now - cache[addr].1 < DNS_CACHE_TTL {
        Some(cache[addr].0)
    } else {
        None
    }
}

/// The socket address that a transport address denotes without a lookup: a
/// numeric one, or one that a recent lookup gave.
pub open spec fn known_addr(
    cache: Map<Seq<u8>, (SocketAddr, u64)>,
    addr: Seq<u8>,
    now: u64,
) -> Option<SocketAddr> {
    match numeric_of(addr) {
        Some(numeric) => Some(numeric),
        None => fresh(cache, addr, now),
    }
}

/// The socket address that a transport address spells out.
pub open spec fn numeric_of(addr: Seq<u8>) -> Option<SocketAddr> {
    match TransportAddr::spec_text(addr) {
        Some(text) => numeric_socket_addr(text),
        None => None,
    }
}

/// A UDP transport.
pub struct UdpTransport {
    pub transport_id: TransportId,
    pub name: Option<String>,
    pub config: UdpConfig,
    pub state: TransportState,
    /// Whether there is a socket with a receive loop.
    pub has_socket: bool,
    pub local_addr: Option<SocketAddr>,
    pub socket_origin: UdpSocketOrigin,
    pub last_local_route_socket_recovery: Option<u64>,
    pub stats: UdpStats,
    pub udp_rcvbuf_errors: LinuxUdpRcvbufErrorSnapshot,
    pub dns_cache: AddrMap<(SocketAddr, u64)>,
}

impl UdpTransport {
    /// A running transport has a socket, and only a running one has an address
    /// or a socket, but for a moment while it starts.
    pub open spec fn inv(self) -> bool {
        &&& self.dns_cache.inv()
        &&& self.state == TransportState::Up ==> self.has_socket && self.local_addr is Some
        &&& self.state == TransportState::Down || self.state == TransportState::Failed
            || self.state == TransportState::Configured ==> !self.has_socket
            && self.local_addr is None
    }

    /// A transport that was not started yet. `rcvbuf_errors` is the namespace's
    /// count of receive-buffer errors.
    pub fn new(
        transport_id: TransportId,
        name: Option<String>,
        config: UdpConfig,
        rcvbuf_errors: u64,
        now: u64,
    ) -> (transport: UdpTransport)
        ensures
            transport.inv(),
            transport.transport_id == transport_id,
            transport.name == name,
            transport.config == config,
            transport.state == TransportState::Configured,
            transport.local_addr is None,
            transport.socket_origin == UdpSocketOrigin::Configured,
            transport.last_local_route_socket_recovery is None,
            transport.stats@ == UdpStatsSnapshot::zero(),
            transport.udp_rcvbuf_errors.baseline == rcvbuf_errors,
            transport.udp_rcvbuf_errors.observed == rcvbuf_errors,
            transport.udp_rcvbuf_errors.checked_at == now,
            transport.dns_cache@ == Map::<Seq<u8>, (SocketAddr, u64)>::empty(),
    {
        UdpTransport {
            transport_id,
            name,
            config,
            state: TransportState::Configured,
            has_socket: false,
            local_addr: None,
            socket_origin: UdpSocketOrigin::Configured,
            last_local_route_socket_recovery: None,
            stats: UdpStats::new(),
            udp_rcvbuf_errors: LinuxUdpRcvbufErrorSnapshot::new(rcvbuf_errors, now),
            dns_cache: AddrMap::new(),
        }
    }

    /// The name of the instance.
    pub fn name(&self) -> (name: Option<&str>)
        ensures
            match name {
                Some(n) => self.name matches Some(own) && n@ == own@,
                None => self.name is None,
            },
    {
        match &self.name {
            Some(name) => Some(name.as_str()),
            None => None,
        }
    }

    /// The bound address of a started transport.
    pub fn local_addr(&self) -> (addr: Option<SocketAddr>)
        ensures
            addr == self.local_addr,
    {
        self.local_addr
    }

    /// Whether a link to this transport counts as one to the routing operator:
    /// one that a peer began to a public transport that accepts connections.
    pub fn is_operator_routing_adjacency(&self, handshake_is_initiator: bool) -> (yes: bool)
        ensures
            yes == (!handshake_is_initiator && self.config.spec_is_public()
                && !self.config.spec_outbound_only() && self.config.spec_accept_connections()),
    {
        !handshake_is_initiator && self.config.is_public() && !self.config.outbound_only()
            && self.config.accept_connections()
    }

    /// The configured receive buffer size.
    pub fn recv_buf_size(&self) -> (n: usize)
        ensures
            n == self.config.recv_buf_size,
    {
        self.config.recv_buf_size
    }

    /// The configured send buffer size.
    pub fn send_buf_size(&self) -> (n: usize)
        ensures
            n == self.config.send_buf_size,
    {
        self.config.send_buf_size
    }

    pub fn stats(&self) -> (stats: &UdpStats)
        ensures
            *stats == self.stats,
    {
        &self.stats
    }

    pub fn transport_id(&self) -> (id: TransportId)
        ensures
            id == self.transport_id,
    {
        self.transport_id
    }

    /// UDP neither keeps connections nor delivers reliably.
    pub fn transport_type(&self) -> (kind: TransportType)
        ensures
            kind.name@ == "udp"@,
            !kind.connection_oriented,
            !kind.reliable,
    {
        TransportType { name: "udp", connection_oriented: false, reliable: false }
    }

    pub fn state(&self) -> (state: TransportState)
        ensures
            state == self.state,
    {
        self.state
    }

    pub fn mtu(&self) -> (mtu: u16)
        ensures
            mtu == self.config.mtu,
    {
        self.config.mtu
    }

    /// Starting takes I/O, which this method does not do.
    pub fn start(&mut self) -> (result: Result<(), TransportError>)
        ensures
            result matches Err(e) && e@ == Failure::NotSupported(
                "use start_async() for UDP transport"@,
            ),
            *final(self) == *old(self),
    {
        Err(TransportError::NotSupported("use start_async() for UDP transport".to_owned()))
    }

    /// Stopping takes I/O, which this method does not do.
    pub fn stop(&mut self) -> (result: Result<(), TransportError>)
        ensures
            result matches Err(e) && e@ == Failure::NotSupported(
                "use stop_async() for UDP transport"@,
            ),
            *final(self) == *old(self),
    {
        Err(TransportError::NotSupported("use stop_async() for UDP transport".to_owned()))
    }

    /// Sending takes I/O, which this method does not do.
    pub fn send(&self, addr: &TransportAddr, data: &[u8]) -> (result: Result<(), TransportError>)
        ensures
            result matches Err(e) && e@ == Failure::NotSupported(
                "use send_async() for UDP transport"@,
            ),
    {
        Err(TransportError::NotSupported("use send_async() for UDP transport".to_owned()))
    }

    /// UDP finds no peers by itself.
    pub fn discover(&self) -> (result: Result<Vec<TransportAddr>, TransportError>)
        ensures
            result matches Ok(peers) && peers@.len() == 0,
    {
        Ok(Vec::new())
    }

    /// Whether peers may begin connections to this transport.
    pub fn accept_connections(&self) -> (yes: bool)
        ensures
            yes == (!self.config.spec_outbound_only() && self.config.spec_accept_connections()),
    {
        if self.config.outbound_only() {
            false
        } else {
            self.config.accept_connections()
        }
    }

    // -----------------------------------------------------------------------
    // Destinations
    // -----------------------------------------------------------------------

    /// The socket address of a destination, where no lookup is needed.
    pub fn resolved_socket_addr_if_cached(&self, addr: &TransportAddr, now: u64) -> (found: Option<
        SocketAddr,
    >)
        requires
            self.inv(),
        ensures
            found == known_addr(self.dns_cache@, addr@, now),
    {
        match addr.as_str() {
            Some(text) => match SocketAddr::parse(text) {
                Some(numeric) => {
                    return Some(numeric);
                },
                None => {},
            },
            None => {},
        }
        match self.dns_cache.get(addr) {
            Some(entry) => if now.saturating_sub(entry.1) < DNS_CACHE_TTL {
                Some(entry.0)
            } else {
                None
            },
            None => None,
        }
    }

    /// Decides whether a destination needs a lookup.
    pub fn resolve(&self, addr: &TransportAddr, now: u64) -> (destination: Destination)
        requires
            self.inv(),
        ensures
            destination == (match known_addr(self.dns_cache@, addr@, now) {
                Some(known) => Destination::Known(known),
                None => Destination::Lookup,
            }),
    {
        match self.resolved_socket_addr_if_cached(addr, now) {
            Some(known) => Destination::Known(known),
            None => Destination::Lookup,
        }
    }

    /// Remembers what a lookup gave.
    pub fn remember_lookup(&mut self, addr: &TransportAddr, resolved: SocketAddr, now: u64)
        requires
            old(self).inv(),
        ensures
            final(self).inv(),
            final(self).dns_cache@ == old(self).dns_cache@.insert(addr@, (resolved, now)),
            *final(self) == (UdpTransport { dns_cache: final(self).dns_cache, ..*old(self) }),
    {
        self.dns_cache.insert(addr.clone(), (resolved, now));
    }

    // -----------------------------------------------------------------------
    // Congestion
    // -----------------------------------------------------------------------

    /// Signs of congestion. `read` reads the namespace's count of receive-buffer
    /// errors; it is called only when the last reading is too old.
    pub fn congestion<F: FnOnce() -> Option<u64>>(&mut self, now: u64, read: F) -> (congestion:
        TransportCongestion)
        requires
            old(self).inv(),
            read.requires(()),
        ensures
            final(self).inv(),
            if old(self).udp_rcvbuf_errors.due(now) {
                exists|reading: Option<u64>| #[trigger]
                    read.ensures((), reading) && final(self).udp_rcvbuf_errors == old(
                        self,
                    ).udp_rcvbuf_errors.after_reading(now, reading)
            } else {
                final(self).udp_rcvbuf_errors == old(self).udp_rcvbuf_errors
            },
            *final(self) == (UdpTransport {
                udp_rcvbuf_errors: final(self).udp_rcvbuf_errors,
                ..*old(self)
            }),
            ({
                let socket_drops = old(self).stats@.kernel_drops as int;
                let namespace_drops = final(self).udp_rcvbuf_errors.drops();
                congestion == (TransportCongestion {
                    recv_drops: Some(
                        (if socket_drops > namespace_drops {
                            socket_drops
                        } else {
                            namespace_drops
                        }) as u64,
                    ),
                    socket_recv_drops: Some(socket_drops as u64),
                    namespace_recv_drops: Some(namespace_drops as u64),
                })
            }),
    {
        let socket_drops: u64 = self.stats.kernel_drops();
        let namespace_drops: u64 = self.udp_rcvbuf_errors.namespace_drops(now, read);
        let recv_drops: u64 = if socket_drops > namespace_drops {
            socket_drops
        } else {
            namespace_drops
        };
        TransportCongestion {
            recv_drops: Some(recv_drops),
            socket_recv_drops: Some(socket_drops),
            namespace_recv_drops: Some(namespace_drops),
        }
    }

    // -----------------------------------------------------------------------
    // Starting and stopping
    // -----------------------------------------------------------------------

    fn begin_start(&mut self, origin: UdpSocketOrigin) -> (result: Result<(), TransportError>)
        requires
            old(self).inv(),
        ensures
            final(self).inv(),
            match result {
                Ok(_) => {
                    &&& old(self).state.startable()
                    &&& *final(self) == (UdpTransport {
                        state: TransportState::Starting,
                        socket_origin: origin,
                        ..*old(self)
                    })
                },
                Err(error) => {
                    &&& !old(self).state.startable()
                    &&& error@ == Failure::AlreadyStarted
                    &&& *final(self) == *old(self)
                },
            },
    {
        if !self.state.can_start() {
            return Err(TransportError::AlreadyStarted);
        }
        self.state = TransportState::Starting;
        self.socket_origin = origin;
        Ok(())
    }

    /// The transport after a start that failed.
    pub open spec fn start_failed(self) -> UdpTransport {
        UdpTransport {
            state: TransportState::Failed,
            has_socket: false,
            local_addr: None,
            ..self
        }
    }

    fn fail_start(&mut self)
        requires
            old(self).inv(),
        ensures
            final(self).inv(),
            *final(self) == old(self).start_failed(),
    {
        self.state = TransportState::Failed;
        self.has_socket = false;
        self.local_addr = None;
    }

    /// Opens the socket of the transport, bound as configured. What is left to
    /// do is the receive loop. Whether a socket can be opened is for the
    /// operating system to decide.
    pub fn open_bound_socket(&mut self, exclusive: bool) -> (result: Result<
        UdpRawSocket,
        TransportError,
    >)
        requires
            old(self).inv(),
        ensures
            final(self).inv(),
            ({
                let origin = if exclusive {
                    UdpSocketOrigin::Exclusive
                } else {
                    UdpSocketOrigin::Configured
                };
                let bind_text = old(self).config.spec_bind_addr();
                let begun = UdpTransport {
                    state: TransportState::Starting,
                    socket_origin: origin,
                    ..*old(self)
                };
                match result {
                    Ok(socket) => {
                        &&& old(self).state.startable()
                        &&& numeric_socket_addr(bind_text) matches Some(bind_addr)
                            && socket.setup() == (SocketSetup {
                            ipv4: bind_addr.spec_ip().spec_is_ipv4(),
                            nonblocking: true,
                            shared: false,
                            bound: Some(bind_addr),
                            recv_buffer: Some(old(self).config.recv_buf_size),
                            send_buffer: Some(old(self).config.send_buf_size),
                        })
                        &&& *final(self) == (UdpTransport {
                            local_addr: Some(socket.local_addr),
                            ..begun
                        })
                    },
                    Err(error) => if !old(self).state.startable() {
                        error@ == Failure::AlreadyStarted && *final(self) == *old(self)
                    } else {
                        &&& *final(self) == begun.start_failed()
                        &&& match numeric_socket_addr(bind_text) {
                            None => error@ == Failure::StartFailed(
                                "invalid bind address: "@ + socket_addr_error(bind_text),
                            ),
                            Some(bind_addr) => open_failure(error@, bind_addr),
                        }
                    },
                }
            }),
    {
        let origin = if exclusive {
            UdpSocketOrigin::Exclusive
        } else {
            UdpSocketOrigin::Configured
        };
        match self.begin_start(origin) {
            Ok(_) => {},
            Err(error) => {
                return Err(error);
            },
        }
        let bind_addr = match parse_socket_addr(self.config.bind_addr()) {
            Ok(addr) => addr,
            Err(reason) => {
                self.fail_start();
                return Err(
                    TransportError::StartFailed(
                        joined("invalid bind address: ", reason.as_str()),
                    ),
                );
            },
        };
        let opened = if exclusive {
            UdpRawSocket::open_exclusive(
                bind_addr,
                self.config.recv_buf_size,
                self.config.send_buf_size,
            )
        } else {
            UdpRawSocket::open(bind_addr, self.config.recv_buf_size, self.config.send_buf_size)
        };
        match opened {
            Err(error) => {
                self.fail_start();
                Err(error)
            },
            Ok(socket) => {
                match socket.recv_buffer_size() {
                    Err(error) => {
                        self.fail_start();
                        return Err(error);
                    },
                    Ok(_) => {},
                }
                match socket.send_buffer_size() {
                    Err(error) => {
                        self.fail_start();
                        return Err(error);
                    },
                    Ok(_) => {},
                }
                self.local_addr = Some(socket.local_addr());
                Ok(socket)
            },
        }
    }

    /// Begins to start the transport with a socket that is bound already.
    pub fn begin_adopt(&mut self) -> (result: Result<(), TransportError>)
        requires
            old(self).inv(),
        ensures
            final(self).inv(),
            match result {
                Ok(_) => {
                    &&& old(self).state.startable()
                    &&& *final(self) == (UdpTransport {
                        state: TransportState::Starting,
                        socket_origin: UdpSocketOrigin::Adopted,
                        ..*old(self)
                    })
                },
                Err(error) => {
                    &&& !old(self).state.startable()
                    &&& error@ == Failure::AlreadyStarted
                    &&& *final(self) == *old(self)
                },
            },
    {
        self.begin_start(UdpSocketOrigin::Adopted)
    }

    /// Ends a start: with the address of a socket whose receive loop runs, or
    /// with the error that stopped it.
    pub fn finish_start(&mut self, started: Result<SocketAddr, TransportError>) -> (result: Result<
        (),
        TransportError,
    >)
        requires
            old(self).inv(),
            old(self).state == TransportState::Starting,
        ensures
            final(self).inv(),
            match started {
                Ok(local_addr) => {
                    &&& result is Ok
                    &&& *final(self) == (UdpTransport {
                        state: TransportState::Up,
                        has_socket: true,
                        local_addr: Some(local_addr),
                        ..*old(self)
                    })
                },
                Err(error) => {
                    &&& result == Err::<(), TransportError>(error)
                    &&& *final(self) == old(self).start_failed()
                },
            },
    {
        match started {
            Ok(local_addr) => {
                self.local_addr = Some(local_addr);
                self.has_socket = true;
                self.state = TransportState::Up;
                Ok(())
            },
            Err(error) => {
                self.fail_start();
                Err(error)
            },
        }
    }

    /// Stops the transport, whose socket and receive loop are then given up.
    pub fn finish_stop(&mut self) -> (result: Result<(), TransportError>)
        requires
            old(self).inv(),
        ensures
            final(self).inv(),
            match result {
                Ok(_) => {
                    &&& old(self).state.operational()
                    &&& *final(self) == (UdpTransport {
                        state: TransportState::Down,
                        has_socket: false,
                        local_addr: None,
                        ..*old(self)
                    })
                },
                Err(error) => {
                    &&& !old(self).state.operational()
                    &&& error@ == Failure::NotStarted
                    &&& *final(self) == *old(self)
                },
            },
    {
        if !self.state.is_operational() {
            return Err(TransportError::NotStarted);
        }
        self.has_socket = false;
        self.local_addr = None;
        self.state = TransportState::Down;
        Ok(())
    }

    /// Whether the socket is to be rebuilt after the route behind it
    /// disappeared: only one that was opened as configured, which is neither a
    /// lock on its address nor known to the network, and not too often.
    pub open spec fn recovers(self, now: u64) -> bool {
        &&& self.socket_origin == UdpSocketOrigin::Configured
        &&& self.state.operational()
        &&& self.last_local_route_socket_recovery matches Some(last) ==> now - last
            >= LOCAL_ROUTE_SOCKET_RECOVERY_COOLDOWN
    }

    /// Decides whether the socket is to be rebuilt, and remembers when it was.
    pub fn begin_recovery(&mut self, now: u64) -> (rebuild: bool)
        requires
            old(self).inv(),
        ensures
            final(self).inv(),
            rebuild == old(self).recovers(now),
            *final(self) == if rebuild {
                (UdpTransport { last_local_route_socket_recovery: Some(now), ..*old(self) })
            } else {
                *old(self)
            },
    {
        if self.socket_origin != UdpSocketOrigin::Configured || !self.state.is_operational() {
            return false;
        }
        match self.last_local_route_socket_recovery {
            Some(last) => {
                if now.saturating_sub(last) < LOCAL_ROUTE_SOCKET_RECOVERY_COOLDOWN {
                    return false;
                }
            },
            None => {},
        }
        self.last_local_route_socket_recovery = Some(now);
        true
    }

    // -----------------------------------------------------------------------
    // Sending
    // -----------------------------------------------------------------------

    /// Why a packet cannot be sent at all, if it cannot.
    pub open spec fn size_refusal(self, len: usize) -> Option<Failure> {
        if !self.state.operational() {
            Some(Failure::NotStarted)
        } else if len > self.config.mtu {
            Some(
                Failure::MtuExceeded { packet_size: len as nat, mtu: self.config.mtu as nat },
            )
        } else {
            None
        }
    }

    /// Checks a packet before its destination is resolved. One that is too large
    /// is counted.
    pub fn check_packet(&mut self, len: usize) -> (result: Result<(), TransportError>)
        requires
            old(self).inv(),
        ensures
            final(self).inv(),
            match result {
                Ok(_) => old(self).size_refusal(len) is None,
                Err(error) => old(self).size_refusal(len) == Some(error@),
            },
            final(self).stats@ == if old(self).size_refusal(len) matches Some(
                Failure::MtuExceeded { .. },
            ) {
                old(self).stats@.oversized()
            } else {
                old(self).stats@
            },
            *final(self) == (UdpTransport { stats: final(self).stats, ..*old(self) }),
    {
        if !self.state.is_operational() {
            return Err(TransportError::NotStarted);
        }
        if len > self.config.mtu as usize {
            self.stats.record_mtu_exceeded();
            return Err(TransportError::MtuExceeded { packet_size: len, mtu: self.config.mtu });
        }
        Ok(())
    }

    /// Checks a resolved destination against the socket.
    pub fn check_destination(&self, remote: SocketAddr) -> (result: Result<(), TransportError>)
        requires
            self.inv(),
        ensures
            match result {
                Ok(_) => self.has_socket && (self.local_addr matches Some(local) && same_family(
                    local,
                    remote,
                )),
                Err(error) => if !self.has_socket || self.local_addr is None {
                    error@ == Failure::NotStarted
                } else {
                    self.local_addr matches Some(local) && !same_family(local, remote) && error@
                        == family_mismatch(remote, local)
                },
            },
    {
        if !self.has_socket {
            return Err(TransportError::NotStarted);
        }
        match self.local_addr {
            None => Err(TransportError::NotStarted),
            Some(local) => {
                if !socket_addr_families_compatible(local, remote) {
                    return Err(family_error(remote, local));
                }
                Ok(())
            },
        }
    }

    /// Ends a send: counts the packet, or the failure.
    pub fn finish_send(&mut self, sent: Result<usize, TransportError>) -> (result: Result<
        usize,
        TransportError,
    >)
        requires
            old(self).inv(),
        ensures
            final(self).inv(),
            result == sent,
            final(self).stats@ == (match sent {
                Ok(bytes) => old(self).stats@.sent(1, bytes as int),
                Err(_) => old(self).stats@.send_failed(),
            }),
            *final(self) == (UdpTransport { stats: final(self).stats, ..*old(self) }),
    {
        match sent {
            Ok(bytes) => {
                self.stats.record_send(bytes);
                Ok(bytes)
            },
            Err(error) => {
                self.stats.record_send_error();
                Err(error)
            },
        }
    }

    /// What sending many packets needs of a running transport.
    pub fn send_snapshot(&self) -> (result: Result<UdpSendSnapshot, TransportError>)
        requires
            self.inv(),
        ensures
            match result {
                Ok(snapshot) => self.state.operational() && self.local_addr == Some(
                    snapshot.local_addr,
                ) && snapshot.mtu == self.config.mtu,
                Err(error) => !self.state.operational() && error@ == Failure::NotStarted,
            },
    {
        if !self.state.is_operational() {
            return Err(TransportError::NotStarted);
        }
        match self.local_addr {
            Some(local_addr) => Ok(UdpSendSnapshot { local_addr, mtu: self.config.mtu }),
            None => Err(TransportError::NotStarted),
        }
    }
}

/// What sending many packets needs of a running transport.
#[derive(Clone, Copy, Debug)]
pub struct UdpSendSnapshot {
    pub local_addr: SocketAddr,
    pub mtu: u16,
}

/// Why a packet cannot be sent to a destination, if it cannot.
pub open spec fn packet_refusal(
    snapshot: UdpSendSnapshot,
    len: usize,
    remote: SocketAddr,
) -> Option<Failure> {
    if len > snapshot.mtu {
        Some(Failure::MtuExceeded { packet_size: len as nat, mtu: snapshot.mtu as nat })
    } else if !same_family(snapshot.local_addr, remote) {
        Some(family_mismatch(remote, snapshot.local_addr))
    } else {
        None
    }
}

/// What comes after one send of a batch.
#[derive(Clone, Copy, Debug, PartialEq, Eq, Structural)]
pub enum BatchStep {
    /// The packets from here on are to be sent.
    Continue { offset: usize },
    /// The batch is done; this many packets were not sent.
    Finished { failed: usize },
}

/// How many of `n` packets after `offset` there are in a batch of `total`.
pub open spec fn packets_within(total: int, offset: int, n: int) -> int {
    if offset + n < total {
        n
    } else {
        total - offset
    }
}

impl UdpSendSnapshot {
    /// Checks a packet and its destination. A packet that is too large is
    /// counted.
    pub fn validate_packet(&self, stats: &mut UdpStats, data_len: usize, remote_addr: SocketAddr) -> (
        result: Result<(), TransportError>)
        ensures
            match result {
                Ok(_) => packet_refusal(*self, data_len, remote_addr) is None,
                Err(error) => packet_refusal(*self, data_len, remote_addr) == Some(error@),
            },
            final(stats)@ == if data_len > self.mtu {
                old(stats)@.oversized()
            } else {
                old(stats)@
            },
    {
        if data_len > self.mtu as usize {
            stats.record_mtu_exceeded();
            return Err(TransportError::MtuExceeded { packet_size: data_len, mtu: self.mtu });
        }
        if !socket_addr_families_compatible(self.local_addr, remote_addr) {
            return Err(family_error(remote_addr, self.local_addr));
        }
        Ok(())
    }
}

/// Takes over the outcome of one send of a batch: the number of packets that
/// were sent from `offset` on, or none where the send failed. A send that made
/// no progress fails the rest of the batch.
pub fn batch_send_ended<B: UdpPayloadBatch>(
    payloads: &B,
    offset: usize,
    sent: Option<usize>,
    stats: &mut UdpStats,
) -> (step: BatchStep)
    requires
        offset < payloads.shapes().len(),
        run_len(
            payloads.shapes(),
            offset as int,
            (payloads.shapes().len() - offset) as nat,
        ) <= usize::MAX,
    ensures
        ({
            let total = payloads.shapes().len() as int;
            match sent {
                Some(n) => if n == 0 {
                    &&& step == BatchStep::Finished { failed: (total - offset) as usize }
                    &&& final(stats)@ == old(stats)@.send_failed()
                } else {
                    let count = packets_within(total, offset as int, n as int);
                    &&& final(stats)@ == old(stats)@.sent(
                        count,
                        run_len(payloads.shapes(), offset as int, count as nat) as int,
                    )
                    &&& step == if offset + count == total {
                        BatchStep::Finished { failed: 0 }
                    } else {
                        BatchStep::Continue { offset: (offset + count) as usize }
                    }
                },
                None => {
                    &&& step == BatchStep::Finished { failed: (total - offset) as usize }
                    &&& final(stats)@ == old(stats)@.send_failed()
                },
            }
        }),
{
    let total: usize = payloads.len();
    let n: usize = match sent {
        Some(n) => n,
        None => 0,
    };
    if n == 0 {
        stats.record_send_error();
        return BatchStep::Finished { failed: total - offset };
    }
    let count: usize = if n < total - offset {
        n
    } else {
        total - offset
    };
    let ghost shapes = payloads.shapes();
    let mut bytes: usize = 0;
    let mut i: usize = 0;
    while i < count
        invariant
            shapes == payloads.shapes(),
            total == shapes.len(),
            offset + count <= total,
            i <= count,
            bytes == run_len(shapes, offset as int, i as nat),
            run_len(shapes, offset as int, (total - offset) as nat) <= usize::MAX,
        decreases count - i,
    {
        proof {
            lemma_run_len_grows(
                shapes,
                offset as int,
                (i + 1) as nat,
                (total - offset) as nat,
            );
        }
        bytes = bytes + payloads.payload_len(offset + i);
        i = i + 1;
    }
    stats.record_send_batch(count, bytes);
    if offset + count == total {
        BatchStep::Finished { failed: 0 }
    } else {
        BatchStep::Continue { offset: offset + count }
    }
}

// ---------------------------------------------------------------------------
// Laws
// ---------------------------------------------------------------------------

/// A start that is refused because another socket has the address says so, with
/// the address, and leaves the transport as it was but for its state and the way
/// of its start: it holds no socket, and can be started again.
pub proof fn refused_start_can_be_retried(
    transport: UdpTransport,
    origin: UdpSocketOrigin,
    addr: SocketAddr,
    reason: Seq<char>,
)
    requires
        transport.inv(),
        transport.state.startable(),
    ensures
        bind_failure(addr, true, reason) == (Failure::AddressInUse { address: addr, reason }),
        ({
            let begun = UdpTransport {
                state: TransportState::Starting,
                socket_origin: origin,
                ..transport
            };
            let refused = begun.start_failed();
            &&& refused.inv()
            &&& refused.state.startable()
            &&& refused == (UdpTransport {
                state: TransportState::Failed,
                socket_origin: origin,
                ..transport
            })
        }),
{
}

/// A numeric destination never depends on the name cache.
pub proof fn numeric_destinations_bypass_the_cache(
    a: Map<Seq<u8>, (SocketAddr, u64)>,
    b: Map<Seq<u8>, (SocketAddr, u64)>,
    addr: Seq<u8>,
    now: u64,
    later: u64,
)
    requires
        numeric_of(addr) is Some,
    ensures
        known_addr(a, addr, now) == known_addr(b, addr, later),
        known_addr(a, addr, now) == numeric_of(addr),
{
}

/// A lookup is used until it is too old, and for its own address only.
pub proof fn lookups_are_kept_for_a_while(
    cache: Map<Seq<u8>, (SocketAddr, u64)>,
    addr: Seq<u8>,
    other: Seq<u8>,
    resolved: SocketAddr,
    at: u64,
    now: u64,
)
    requires
        numeric_of(addr) is None,
    ensures
        now - at < DNS_CACHE_TTL ==> known_addr(
            cache.insert(addr, (resolved, at)),
            addr,
            now,
        ) == Some(resolved),
        now - at >= DNS_CACHE_TTL ==> known_addr(
            cache.insert(addr, (resolved, at)),
            addr,
            now,
        ) is None,
        other != addr ==> known_addr(cache.insert(addr, (resolved, at)), other, now)
            == known_addr(cache, other, now),
{
}

/// A socket that holds a lock on its address, or that was taken over, is never
/// rebuilt, and no socket is rebuilt twice within the cooldown.
pub proof fn sockets_are_rebuilt_with_care(transport: UdpTransport, now: u64, later: u64)
    ensures
        transport.socket_origin != UdpSocketOrigin::Configured ==> !transport.recovers(now),
        later - now < LOCAL_ROUTE_SOCKET_RECOVERY_COOLDOWN ==> !(UdpTransport {
            last_local_route_socket_recovery: Some(now),
            ..transport
        }).recovers(later),
{
}

/// A packet can be sent exactly where the transport is up, the packet is not longer
/// than the largest one, and the destination is of the socket's IP family. One that
/// is too long is told so, with its length and the limit.
pub proof fn packets_that_fit_can_be_sent(
    transport: UdpTransport,
    snapshot: UdpSendSnapshot,
    len: usize,
    remote: SocketAddr,
)
    ensures
        transport.size_refusal(len) is None <==> transport.state is Up && len
            <= transport.config.mtu,
        !(transport.state is Up) ==> transport.size_refusal(len) == Some(Failure::NotStarted),
        transport.state is Up && len > transport.config.mtu ==> transport.size_refusal(len) == Some(
            Failure::MtuExceeded { packet_size: len as nat, mtu: transport.config.mtu as nat },
        ),
        packet_refusal(snapshot, len, remote) is None <==> len <= snapshot.mtu && (
        snapshot.local_addr is V4 <==> remote is V4),
        len > snapshot.mtu ==> packet_refusal(snapshot, len, remote) == Some(
            Failure::MtuExceeded { packet_size: len as nat, mtu: snapshot.mtu as nat },
        ),
        len <= snapshot.mtu && (snapshot.local_addr is V4) != (remote is V4) ==> packet_refusal(
            snapshot,
            len,
            remote,
        ) matches Some(Failure::InvalidAddress(_)),
{
}

/// Of the packets that were to be sent none is counted twice and none is passed
/// over: as many are within the batch as were asked for, or all that are left.
pub proof fn sends_stay_within_the_batch(total: int, offset: int, n: int)
    requires
        0 <= offset <= total,
        0 <= n,
    ensures
        0 <= packets_within(total, offset, n) <= n,
        offset + packets_within(total, offset, n) <= total,
        packets_within(total, offset, n) == n || offset + packets_within(total, offset, n) == total,
{
}

/// A socket is rebuilt exactly where it was opened as configured, the transport is
/// up, and the last time is five seconds ago or there was none.
pub proof fn configured_sockets_are_rebuilt(transport: UdpTransport, now: u64, last: u64)
    ensures
        transport.socket_origin is Configured && transport.state is Up
            && transport.last_local_route_socket_recovery is None ==> transport.recovers(now),
        transport.socket_origin is Configured && transport.state is Up
            && transport.last_local_route_socket_recovery == Some(last) ==> (transport.recovers(now)
            <==> now >= last + 5_000_000_000),
        !(transport.state is Up) ==> !transport.recovers(now),
{
}

/// An address that spells out a socket address is that socket address.
pub proof fn numeric_addresses_are_read_from_their_text(text: Seq<char>)
    ensures
        numeric_of(vstd::utf8::encode_utf8(text)) == numeric_socket_addr(text),
{
    TransportAddr::text_round_trip(text);
}

/// Lookups are kept for a minute.
pub proof fn lookups_are_kept_for_a_minute(
    cache: Map<Seq<u8>, (SocketAddr, u64)>,
    addr: Seq<u8>,
    now: u64,
)
    ensures
        fresh(cache, addr, now) == if cache.dom().contains(addr) && now < cache[addr].1
            + 60_000_000_000 {
            Some(cache[addr].0)
        } else {
            None
        },
{
}

/// A failed start leaves everything but the state, the socket and its address.
pub proof fn failed_starts_leave_the_rest(transport: UdpTransport)
    ensures
        transport.start_failed() == (UdpTransport {
            state: TransportState::Failed,
            has_socket: false,
            local_addr: None,
            ..transport
        }),
{
}

/// A destination of the other family is refused by both addresses.
pub proof fn family_failures_name_both_addresses(remote: SocketAddr, local: SocketAddr)
    ensures
        family_mismatch(remote, local) == Failure::InvalidAddress(
            "remote address family "@ + socket_addr_text(remote)
                + " is incompatible with local UDP socket "@ + socket_addr_text(local),
        ),
{
}

} // verus!
