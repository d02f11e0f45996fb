//! The state of a Tor transport.
//!
//! Each peer has a connection of its own, which goes by a number here. What
//! takes I/O (the proxy, the control port, the listener) is done outside, which
//! hands in how it ended.

use vstd::prelude::*;
use vstd::utf8::encode_utf8;
use crate::addr::{SocketAddr, TransportAddr, TransportId, numeric_socket_addr, socket_addr_text};
use crate::addr_map::AddrMap;
use crate::error::{
    Connection, ConnectionState, Failure, TransportError, TransportState, TransportType, joined,
};
use crate::fields::{all_spaces, trim, trimmed, trimming_takes_the_spaces_off};
use crate::text::{Spaces, chars_of, ends_with, has_at, same_text, starts_with, string_of};
use crate::tor::address::{
    TorAddr, TorTarget, names_host_port, not_host_port, parse_tor_addr, target_of,
    validate_host_port,
};
use crate::tor::config::TorConfig;
use crate::tor::monitoring::{MonitoringReport, TorMonitor, TorMonitoringInfo};
use crate::tor::stats::{Direction, TorStats, TorStatsSnapshot, lowered};
use crate::udp::receive::{Packet, ReceivedPacket};

verus! {

/// A pooled connection.
#[derive(Clone, Copy, Debug, PartialEq, Eq, Structural)]
pub struct TorConnection {
    pub id: u64,
    pub direction: Direction,
}

/// What is left to do for a start.
#[derive(Clone, Copy, Debug, PartialEq, Eq, Structural)]
pub enum StartStep {
    /// The transport is up.
    Done,
    /// Connect to the control port and authenticate there.
    ConnectControl,
    /// Read the host name of the onion service.
    ReadHostname,
}

/// How an attempt to use the control port ended.
#[derive(Debug)]
pub enum ControlOutcome {
    Connected,
    ConnectFailed(String),
    AuthConfigInvalid(String),
    AuthFailed(String),
}

/// How an attempt to listen for onion connections ended.
#[derive(Debug)]
pub enum ListenOutcome {
    Listening,
    BindFailed(String),
    NoLocalAddr(String),
}

/// How a packet reaches a peer.
#[derive(Debug)]
pub enum SendRoute {
    /// Over the pooled connection with this number.
    Pooled(u64),
    /// Over a connection that has to be made first.
    Connect(TorAddr),
}

/// How making a connection through the proxy ended.
#[derive(Debug)]
pub enum ConnectOutcome {
    Connected,
    Refused,
    TimedOut,
    SetupFailed(String),
}

/// What is left to do for a connection in the background.
#[derive(Debug)]
pub enum BackgroundConnect {
    /// There is a connection, or one is being made.
    Nothing,
    /// Make a connection to this target.
    Spawn(TorAddr),
}

/// How far a connection in the background is.
#[derive(Debug)]
pub enum TaskProgress {
    Running,
    /// It is made, and goes by this number.
    Made(u64),
    Failed(String),
    /// The task that was making it is gone.
    Broken(String),
}

/// Which pools another task holds at the moment.
#[derive(Clone, Copy, Debug)]
pub struct BusyPools {
    pub pool: bool,
    pub connecting: bool,
    /// The pool of connections, when a new one is put into it.
    pub promotion: bool,
}

// ---------------------------------------------------------------------------
// Starting
// ---------------------------------------------------------------------------

/// Whether a setting can be used as the address of a service.
pub open spec fn usable_host_port(text: Seq<char>) -> bool {
    numeric_socket_addr(text) is Some || names_host_port(text)
}

/// Whether the control port is a Unix socket, which is named by its path.
pub open spec fn names_unix_socket(text: Seq<char>) -> bool {
    starts_with(text, "/"@) || starts_with(text, "./"@)
}

fn is_unix_socket(text: &str) -> (yes: bool)
    ensures
        yes == names_unix_socket(text@),
{
    let v = chars_of(text);
    let root = chars_of("/");
    let here = chars_of("./");
    has_at(&v, &root, 0) || has_at(&v, &here, 0)
}

/// What a start with some settings asks for, or how it fails.
pub open spec fn start_step(config: TorConfig) -> Result<StartStep, Failure> {
    let mode = config.spec_mode();
    if !usable_host_port(config.spec_socks5_addr()) {
        Err(not_host_port("socks5_addr"@, config.spec_socks5_addr()))
    } else if mode == "socks5"@ {
        if config.directory_service is Some {
            Err(
                Failure::StartFailed(
                    "directory_service config requires mode 'directory', not 'socks5'"@,
                ),
            )
        } else {
            Ok(StartStep::Done)
        }
    } else if mode == "control_port"@ {
        let control = config.spec_control_addr();
        if names_unix_socket(control) || usable_host_port(control) {
            Ok(StartStep::ConnectControl)
        } else {
            Err(not_host_port("control_addr"@, control))
        }
    } else if mode == "directory"@ {
        Ok(StartStep::ReadHostname)
    } else {
        Err(
            Failure::StartFailed(
                "unsupported Tor mode '"@ + mode
                    + "' (expected 'socks5', 'control_port', or 'directory')"@,
            ),
        )
    }
}

fn decide_start(config: &TorConfig) -> (result: Result<StartStep, TransportError>)
    ensures
        match result {
            Ok(step) => start_step(*config) == Ok::<StartStep, Failure>(step),
            Err(error) => start_step(*config) == Err::<StartStep, Failure>(error@),
        },
{
    match validate_host_port(config.socks5_addr(), "socks5_addr") {
        Ok(_) => {},
        Err(error) => {
            return Err(error);
        },
    }
    let mode = config.mode();
    proof {
        reveal_strlit("socks5");
        reveal_strlit("control_port");
        reveal_strlit("directory");
    }
    if same_text(mode, "socks5") {
        if config.directory_service.is_some() {
            return Err(
                TransportError::StartFailed(
                    "directory_service config requires mode 'directory', not 'socks5'".to_owned(),
                ),
            );
        }
        Ok(StartStep::Done)
    } else if same_text(mode, "control_port") {
        let control = config.control_addr();
        if !is_unix_socket(control) {
            match validate_host_port(control, "control_addr") {
                Ok(_) => {},
                Err(error) => {
                    return Err(error);
                },
            }
        }
        Ok(StartStep::ConnectControl)
    } else if same_text(mode, "directory") {
        Ok(StartStep::ReadHostname)
    } else {
        let mut message = joined("unsupported Tor mode '", mode);
        message.append("' (expected 'socks5', 'control_port', or 'directory')");
        Err(TransportError::StartFailed(message))
    }
}

/// How a start in control-port mode fails, where it does.
pub open spec fn control_failure(outcome: ControlOutcome) -> Option<Failure> {
    match outcome {
        ControlOutcome::Connected => None,
        ControlOutcome::ConnectFailed(reason) => Some(
            Failure::StartFailed("Tor control port: "@ + reason@),
        ),
        ControlOutcome::AuthConfigInvalid(reason) => Some(
            Failure::StartFailed("Tor auth config: "@ + reason@),
        ),
        ControlOutcome::AuthFailed(reason) => Some(
            Failure::StartFailed("Tor authentication: "@ + reason@),
        ),
    }
}

/// The host name of an onion service that a host-name file gives, or how a start
/// fails for it. `content` is what was read of the file, or why nothing was.
pub open spec fn onion_hostname(
    file: Seq<char>,
    content: Result<Seq<char>, Seq<char>>,
) -> Result<Seq<char>, Failure> {
    match content {
        Err(reason) => Err(
            Failure::StartFailed(
                "failed to read onion hostname from '"@ + file + "': "@ + reason
                    + " (ensure HiddenServiceDir is configured in torrc and Tor has started)"@,
            ),
        ),
        Ok(text) => if ends_with(trimmed(text), ".onion"@) {
            Ok(trimmed(text))
        } else {
            Err(
                Failure::StartFailed(
                    "invalid onion address in '"@ + file + "': '"@ + trimmed(text) + "'"@,
                ),
            )
        },
    }
}

/// What was read of a file, as a mathematical value.
pub open spec fn content_view(content: Result<String, String>) -> Result<Seq<char>, Seq<char>> {
    match content {
        Ok(text) => Ok(text@),
        Err(reason) => Err(reason@),
    }
}

/// Finds the host name of an onion service in what was read of its file.
pub fn read_onion_hostname(file: &str, content: &Result<String, String>) -> (result: Result<
    String,
    TransportError,
>)
    ensures
        match result {
            Ok(host) => onion_hostname(file@, content_view(*content)) == Ok::<Seq<char>, Failure>(
                host@,
            ),
            Err(error) => onion_hostname(file@, content_view(*content)) == Err::<
                Seq<char>,
                Failure,
            >(error@),
        },
{
    match content {
        Err(reason) => {
            let mut message = joined("failed to read onion hostname from '", file);
            message.append("': ");
            message.append(reason.as_str());
            message.append(
                " (ensure HiddenServiceDir is configured in torrc and Tor has started)",
            );
            Err(TransportError::StartFailed(message))
        },
        Ok(text) => {
            let v = chars_of(text.as_str());
            let (start, end) = trim(&v);
            let host = string_of(&v, start, end);
            let letters = chars_of(host.as_str());
            let suffix = chars_of(".onion");
            let fits = suffix.len() <= letters.len() && has_at(
                &letters,
                &suffix,
                letters.len() - suffix.len(),
            );
            if fits {
                Ok(host)
            } else {
                let mut message = joined("invalid onion address in '", file);
                message.append("': '");
                message.append(host.as_str());
                message.append("'");
                Err(TransportError::StartFailed(message))
            }
        },
    }
}

/// How a start in directory mode fails for want of a listener, where it does.
pub open spec fn listen_failure(bind_addr: Seq<char>, outcome: ListenOutcome) -> Option<Failure> {
    match outcome {
        ListenOutcome::Listening => None,
        ListenOutcome::BindFailed(reason) => Some(
            Failure::StartFailed(
                "failed to bind directory-mode listener on "@ + bind_addr + ": "@ + reason@,
            ),
        ),
        ListenOutcome::NoLocalAddr(reason) => Some(
            Failure::StartFailed("failed to get local addr: "@ + reason@),
        ),
    }
}

// ---------------------------------------------------------------------------
// Connections
// ---------------------------------------------------------------------------

/// The failure of a connection that could not be made, where it could not.
pub open spec fn connect_failure(outcome: ConnectOutcome) -> Option<Failure> {
    match outcome {
        ConnectOutcome::Connected => None,
        ConnectOutcome::Refused => Some(Failure::ConnectionRefused),
        ConnectOutcome::TimedOut => Some(Failure::Timeout),
        ConnectOutcome::SetupFailed(reason) => Some(Failure::StartFailed(reason@)),
    }
}

/// The result of making a connection, as its background task reports it.
pub fn connect_result(outcome: ConnectOutcome) -> (result: Result<(), TransportError>)
    ensures
        match result {
            Ok(_) => connect_failure(outcome) is None,
            Err(error) => connect_failure(outcome) == Some(error@),
        },
{
    match outcome {
        ConnectOutcome::Connected => Ok(()),
        ConnectOutcome::Refused => Err(TransportError::ConnectionRefused),
        ConnectOutcome::TimedOut => Err(TransportError::Timeout),
        ConnectOutcome::SetupFailed(reason) => Err(TransportError::StartFailed(reason)),
    }
}

/// The pooled connections of one direction.
pub open spec fn in_direction(
    pool: Map<Seq<u8>, TorConnection>,
    direction: Direction,
) -> Set<Seq<u8>> {
    pool.dom().filter(|addr: Seq<u8>| pool[addr].direction == direction)
}

/// How many pooled connections there are of one direction.
pub open spec fn pooled_count(pool: Map<Seq<u8>, TorConnection>, direction: Direction) -> nat {
    in_direction(pool, direction).len()
}

/// A gauge after `n` events less.
pub open spec fn reduced(gauge: u64, n: nat) -> u64 {
    ((gauge - n) % 0x1_0000_0000_0000_0000) as u64
}

/// The counters after all connections left the pool.
pub open spec fn drained(
    stats: TorStatsSnapshot,
    pool: Map<Seq<u8>, TorConnection>,
) -> TorStatsSnapshot {
    TorStatsSnapshot {
        pool_inbound: reduced(stats.pool_inbound, pooled_count(pool, Direction::Inbound)),
        pool_outbound: reduced(stats.pool_outbound, pooled_count(pool, Direction::Outbound)),
        ..stats
    }
}

/// The counters after the entry of an address, where it has one, left the pool.
pub open spec fn released(
    stats: TorStatsSnapshot,
    pool: Map<Seq<u8>, TorConnection>,
    addr: Seq<u8>,
) -> TorStatsSnapshot {
    if pool.dom().contains(addr) {
        stats.unpooled(pool[addr].direction)
    } else {
        stats
    }
}

proof fn lemma_count_removed(
    pool: Map<Seq<u8>, TorConnection>,
    addr: Seq<u8>,
    direction: Direction,
)
    requires
        pool.dom().finite(),
        pool.dom().contains(addr),
    ensures
        pooled_count(pool, direction) == pooled_count(pool.remove(addr), direction) + if pool[addr].direction
            == direction {
            1nat
        } else {
            0nat
        },
{
    let rest = pool.remove(addr);
    if pool[addr].direction == direction {
        assert(in_direction(rest, direction) =~= in_direction(pool, direction).remove(addr));
        assert(in_direction(pool, direction).contains(addr));
    } else {
        assert(in_direction(rest, direction) =~= in_direction(pool, direction));
    }
}

proof fn lemma_count_empty(pool: Map<Seq<u8>, TorConnection>, direction: Direction)
    requires
        pool == Map::<Seq<u8>, TorConnection>::empty(),
    ensures
        pooled_count(pool, direction) == 0,
{
    assert(in_direction(pool, direction) =~= Set::<Seq<u8>>::empty());
}

proof fn lemma_reduced(gauge: u64, n: nat)
    ensures
        reduced(gauge, 0) == gauge,
        n > 0 ==> reduced(gauge, n) == reduced(lowered(gauge), (n - 1) as nat),
        n <= gauge ==> reduced(gauge, n) == gauge - n,
{
    let m: int = 0x1_0000_0000_0000_0000;
    if gauge == 0 && n > 0 {
        vstd::arithmetic::div_mod::lemma_mod_add_multiples_vanish(gauge - n, m);
        assert(m + (gauge - n) == u64::MAX - (n - 1));
    }
}

// ---------------------------------------------------------------------------
// The transport
// ---------------------------------------------------------------------------

/// A Tor transport.
pub struct TorTransport {
    pub transport_id: TransportId,
    pub name: Option<String>,
    pub config: TorConfig,
    pub state: TransportState,
    pub pool: AddrMap<TorConnection>,
    /// The addresses to which connections are being made in the background, with
    /// the number of the task that makes each.
    pub connecting: AddrMap<u64>,
    pub stats: TorStats,
    /// Whether connections of peers are accepted.
    pub accepting: bool,
    pub onion_address: Option<String>,
    /// Whether there is a control connection, and the daemon is watched.
    pub has_control: bool,
    pub cached_monitoring: Option<TorMonitoringInfo>,
}

impl TorTransport {
    pub open spec fn inv(self) -> bool {
        &&& self.pool.inv()
        &&& self.connecting.inv()
    }

    /// A transport that was not started yet.
    pub fn new(transport_id: TransportId, name: Option<String>, config: TorConfig) -> (transport:
        TorTransport)
        ensures
            transport.inv(),
            transport.transport_id == transport_id,
            transport.name == name,
            transport.config == config,
            transport.state == TransportState::Configured,
            transport.pool@ == Map::<Seq<u8>, TorConnection>::empty(),
            transport.connecting@ == Map::<Seq<u8>, u64>::empty(),
            transport.stats@ == TorStatsSnapshot::zero(),
            !transport.accepting,
            transport.onion_address is None,
            !transport.has_control,
            transport.cached_monitoring is None,
    {
        TorTransport {
            transport_id,
            name,
            config,
            state: TransportState::Configured,
            pool: AddrMap::new(),
            connecting: AddrMap::new(),
            stats: TorStats::new(),
            accepting: false,
            onion_address: None,
            has_control: false,
            cached_monitoring: None,
        }
    }

    /// The name of the instance.
    pub fn name(&self) -> (name: Option<&str>)
        ensures
            match name {
                Some(n) => self.name matches Some(own) && n@ == own@,
                None => self.name is None,
            },
    {
        match &self.name {
            Some(name) => Some(name.as_str()),
            None => None,
        }
    }

    /// The host name of the onion service, where there is one.
    pub fn onion_address(&self) -> (host: Option<&str>)
        ensures
            match host {
                Some(h) => self.onion_address matches Some(own) && h@ == own@,
                None => self.onion_address is None,
            },
    {
        match &self.onion_address {
            Some(host) => Some(host.as_str()),
            None => None,
        }
    }

    pub fn stats(&self) -> (stats: &TorStats)
        ensures
            *stats == self.stats,
    {
        &self.stats
    }

    /// What the daemon last said of itself.
    pub fn cached_monitoring(&self) -> (info: Option<&TorMonitoringInfo>)
        ensures
            match info {
                Some(i) => self.cached_monitoring == Some(*i),
                None => self.cached_monitoring is None,
            },
    {
        match &self.cached_monitoring {
            Some(info) => Some(info),
            None => None,
        }
    }

    /// How the transport uses Tor.
    pub fn mode(&self) -> (mode: &str)
        ensures
            mode@ == self.config.spec_mode(),
    {
        self.config.mode()
    }

    pub fn transport_id(&self) -> (id: TransportId)
        ensures
            id == self.transport_id,
    {
        self.transport_id
    }

    /// Tor keeps connections and delivers reliably.
    pub fn transport_type(&self) -> (kind: TransportType)
        ensures
            kind.name@ == "tor"@,
            kind.connection_oriented,
            kind.reliable,
    {
        TransportType { name: "tor", connection_oriented: true, reliable: true }
    }

    pub fn state(&self) -> (state: TransportState)
        ensures
            state == self.state,
    {
        self.state
    }

    pub fn mtu(&self) -> (mtu: u16)
        ensures
            mtu == self.config.spec_mtu(),
    {
        self.config.mtu()
    }

    /// Starting takes I/O, which this method does not do.
    pub fn start(&mut self) -> (result: Result<(), TransportError>)
        ensures
            result matches Err(e) && e@ == Failure::NotSupported(
                "use start_async() for Tor transport"@,
            ),
            *final(self) == *old(self),
    {
        Err(TransportError::NotSupported("use start_async() for Tor transport".to_owned()))
    }

    /// Stopping takes I/O, which this method does not do.
    pub fn stop(&mut self) -> (result: Result<(), TransportError>)
        ensures
            result matches Err(e) && e@ == Failure::NotSupported(
                "use stop_async() for Tor transport"@,
            ),
            *final(self) == *old(self),
    {
        Err(TransportError::NotSupported("use stop_async() for Tor transport".to_owned()))
    }

    /// Sending takes I/O, which this method does not do.
    pub fn send(&self, addr: &TransportAddr, data: &[u8]) -> (result: Result<(), TransportError>)
        ensures
            result matches Err(e) && e@ == Failure::NotSupported(
                "use send_async() for Tor transport"@,
            ),
    {
        Err(TransportError::NotSupported("use send_async() for Tor transport".to_owned()))
    }

    /// Tor finds no peers by itself.
    pub fn discover(&self) -> (result: Result<Vec<TransportAddr>, TransportError>)
        ensures
            result matches Ok(peers) && peers@.len() == 0,
    {
        Ok(Vec::new())
    }

    /// Whether peers may begin connections to this transport.
    pub fn accept_connections(&self) -> (yes: bool)
        ensures
            yes == self.accepting,
    {
        self.accepting
    }

    // -----------------------------------------------------------------------
    // Starting and stopping
    // -----------------------------------------------------------------------

    /// Begins a start: checks the settings and says what is left to do.
    pub fn begin_start(&mut self) -> (result: Result<StartStep, TransportError>)
        requires
            old(self).inv(),
        ensures
            final(self).inv(),
            if !old(self).state.startable() {
                &&& result matches Err(error) && error@ == Failure::AlreadyStarted
                &&& *final(self) == *old(self)
            } else {
                &&& match result {
                    Ok(step) => start_step(old(self).config) == Ok::<StartStep, Failure>(step),
                    Err(error) => start_step(old(self).config) == Err::<StartStep, Failure>(error@),
                }
                &&& *final(self) == (TorTransport {
                    state: if start_step(old(self).config) == Ok::<StartStep, Failure>(
                        StartStep::Done,
                    ) {
                        TransportState::Up
                    } else {
                        TransportState::Starting
                    },
                    ..*old(self)
                })
            },
    {
        if !self.state.can_start() {
            return Err(TransportError::AlreadyStarted);
        }
        self.state = TransportState::Starting;
        match decide_start(&self.config) {
            Ok(StartStep::Done) => {
                self.state = TransportState::Up;
                Ok(StartStep::Done)
            },
            other => other,
        }
    }

    /// Ends a start in control-port mode.
    pub fn finish_control_start(&mut self, outcome: ControlOutcome) -> (result: Result<
        (),
        TransportError,
    >)
        requires
            old(self).inv(),
        ensures
            final(self).inv(),
            match result {
                Ok(_) => {
                    &&& control_failure(outcome) is None
                    &&& *final(self) == (TorTransport {
                        state: TransportState::Up,
                        has_control: true,
                        ..*old(self)
                    })
                },
                Err(error) => {
                    &&& control_failure(outcome) == Some(error@)
                    &&& final(self).stats@ == if outcome is AuthConfigInvalid {
                        old(self).stats@
                    } else {
                        old(self).stats@.control_failed()
                    }
                    &&& *final(self) == (TorTransport { stats: final(self).stats, ..*old(self) })
                },
            },
    {
        match outcome {
            ControlOutcome::Connected => {
                self.has_control = true;
                self.state = TransportState::Up;
                Ok(())
            },
            ControlOutcome::ConnectFailed(reason) => {
                self.stats.record_control_error();
                Err(TransportError::StartFailed(joined("Tor control port: ", reason.as_str())))
            },
            ControlOutcome::AuthConfigInvalid(reason) => Err(
                TransportError::StartFailed(joined("Tor auth config: ", reason.as_str())),
            ),
            ControlOutcome::AuthFailed(reason) => {
                self.stats.record_control_error();
                Err(TransportError::StartFailed(joined("Tor authentication: ", reason.as_str())))
            },
        }
    }

    /// Takes over the host name of the onion service from what was read of its
    /// file.
    pub fn take_hostname(&mut self, content: &Result<String, String>) -> (result: Result<
        (),
        TransportError,
    >)
        requires
            old(self).inv(),
        ensures
            final(self).inv(),
            match result {
                Ok(_) => {
                    &&& final(self).onion_address matches Some(host) && onion_hostname(
                        old(self).config.spec_hostname_file(),
                        content_view(*content),
                    ) == Ok::<Seq<char>, Failure>(host@)
                    &&& *final(self) == (TorTransport {
                        onion_address: final(self).onion_address,
                        ..*old(self)
                    })
                },
                Err(error) => {
                    &&& onion_hostname(
                        old(self).config.spec_hostname_file(),
                        content_view(*content),
                    ) == Err::<Seq<char>, Failure>(error@)
                    &&& *final(self) == *old(self)
                },
            },
    {
        match read_onion_hostname(self.config.hostname_file(), content) {
            Ok(host) => {
                self.onion_address = Some(host);
                Ok(())
            },
            Err(error) => Err(error),
        }
    }

    /// Ends a start in directory mode.
    pub fn finish_directory_start(&mut self, outcome: ListenOutcome) -> (result: Result<
        (),
        TransportError,
    >)
        requires
            old(self).inv(),
        ensures
            final(self).inv(),
            match result {
                Ok(_) => {
                    &&& listen_failure(old(self).config.spec_service_bind_addr(), outcome) is None
                    &&& *final(self) == (TorTransport {
                        state: TransportState::Up,
                        accepting: true,
                        ..*old(self)
                    })
                },
                Err(error) => {
                    &&& listen_failure(old(self).config.spec_service_bind_addr(), outcome) == Some(
                        error@,
                    )
                    &&& *final(self) == *old(self)
                },
            },
    {
        match outcome {
            ListenOutcome::Listening => {
                self.accepting = true;
                self.state = TransportState::Up;
                Ok(())
            },
            ListenOutcome::BindFailed(reason) => {
                let mut message = joined(
                    "failed to bind directory-mode listener on ",
                    self.config.service_bind_addr(),
                );
                message.append(": ");
                message.append(reason.as_str());
                Err(TransportError::StartFailed(message))
            },
            ListenOutcome::NoLocalAddr(reason) => Err(
                TransportError::StartFailed(joined("failed to get local addr: ", reason.as_str())),
            ),
        }
    }

    /// Whether a transport in directory mode tries the control port: where one
    /// is set and can be used.
    pub fn wants_control_port(&self) -> (yes: bool)
        ensures
            yes == (self.config.control_addr is Some && (names_unix_socket(
                self.config.spec_control_addr(),
            ) || usable_host_port(self.config.spec_control_addr()))),
    {
        if self.config.control_addr.is_none() {
            return false;
        }
        let control = self.config.control_addr();
        if is_unix_socket(control) {
            return true;
        }
        match validate_host_port(control, "control_addr") {
            Ok(_) => true,
            Err(_) => false,
        }
    }

    /// Ends an attempt to use the control port that may fail: without one, the
    /// daemon is not watched.
    pub fn control_attempt_ended(&mut self, outcome: &ControlOutcome)
        requires
            old(self).inv(),
        ensures
            final(self).inv(),
            *final(self) == (TorTransport {
                has_control: old(self).has_control || outcome is Connected,
                ..*old(self)
            }),
    {
        match outcome {
            ControlOutcome::Connected => {
                self.has_control = true;
            },
            _ => {},
        }
    }

    /// The transport after a stop: nothing is left of its connections.
    pub open spec fn stopped(self, after: TorTransport) -> bool {
        &&& after.transport_id == self.transport_id
        &&& after.name == self.name
        &&& after.config == self.config
        &&& after.state == TransportState::Down
        &&& after.pool@ == Map::<Seq<u8>, TorConnection>::empty()
        &&& after.connecting@ == Map::<Seq<u8>, u64>::empty()
        &&& after.stats@ == drained(self.stats@, self.pool@)
        &&& !after.accepting
        &&& after.onion_address is None
        &&& !after.has_control
        &&& after.cached_monitoring is None
    }

    /// Stops the transport: no connection is accepted, made or kept any longer.
    pub fn stop_all(&mut self) -> (result: Result<(), TransportError>)
        requires
            old(self).inv(),
        ensures
            final(self).inv(),
            match result {
                Ok(_) => old(self).state.operational() && old(self).stopped(*final(self)),
                Err(error) => {
                    &&& !old(self).state.operational()
                    &&& error@ == Failure::NotStarted
                    &&& *final(self) == *old(self)
                },
            },
    {
        if !self.state.is_operational() {
            return Err(TransportError::NotStarted);
        }
        self.accepting = false;
        self.cached_monitoring = None;
        self.has_control = false;
        self.onion_address = None;
        self.connecting.clear();
        let mut more = !self.pool.is_empty();
        while more
            invariant
                self.inv(),
                more == (self.pool@ != Map::<Seq<u8>, TorConnection>::empty()),
                drained(self.stats@, self.pool@) == drained(old(self).stats@, old(self).pool@),
                self.transport_id == old(self).transport_id,
                self.name == old(self).name,
                self.config == old(self).config,
                self.connecting@ == Map::<Seq<u8>, u64>::empty(),
                !self.accepting,
                self.onion_address is None,
                !self.has_control,
                self.cached_monitoring is None,
            decreases self.pool@.dom().len(),
        {
            let ghost before = *self;
            proof {
                self.pool.lemma_len();
                assert(self.pool@.dom().len() > 0) by {
                    if self.pool@.dom().len() == 0 {
                        assert(self.pool@ =~= Map::<Seq<u8>, TorConnection>::empty());
                    }
                }
            }
            let addr = self.pool.at(0).0.clone();
            match self.pool.remove(&addr) {
                Some(connection) => {
                    self.stats.record_unpooled(connection.direction);
                },
                None => {},
            }
            proof {
                lemma_count_removed(before.pool@, addr@, Direction::Inbound);
                lemma_count_removed(before.pool@, addr@, Direction::Outbound);
                lemma_reduced(
                    before.stats@.pool_inbound,
                    pooled_count(before.pool@, Direction::Inbound),
                );
                lemma_reduced(
                    before.stats@.pool_outbound,
                    pooled_count(before.pool@, Direction::Outbound),
                );
            }
            more = !self.pool.is_empty();
        }
        proof {
            lemma_count_empty(self.pool@, Direction::Inbound);
            lemma_count_empty(self.pool@, Direction::Outbound);
            lemma_reduced(self.stats@.pool_inbound, 0);
            lemma_reduced(self.stats@.pool_outbound, 0);
        }
        self.state = TransportState::Down;
        Ok(())
    }

    // -----------------------------------------------------------------------
    // Sending
    // -----------------------------------------------------------------------

    /// Decides how a packet of `len` bytes reaches a peer.
    pub fn route_packet(&mut self, addr: &TransportAddr, len: usize) -> (result: Result<
        SendRoute,
        TransportError,
    >)
        requires
            old(self).inv(),
        ensures
            final(self).inv(),
            *final(self) == (TorTransport { stats: final(self).stats, ..*old(self) }),
            final(self).stats@ == if old(self).state.operational() && len
                > old(self).config.spec_mtu() {
                old(self).stats@.oversized()
            } else {
                old(self).stats@
            },
            if !old(self).state.operational() {
                result matches Err(error) && error@ == Failure::NotStarted
            } else if len > old(self).config.spec_mtu() {
                result matches Err(error) && error@ == (Failure::MtuExceeded {
                    packet_size: len as nat,
                    mtu: old(self).config.spec_mtu() as nat,
                })
            } else if old(self).pool@.dom().contains(addr@) {
                result matches Ok(SendRoute::Pooled(id)) && id == old(self).pool@[addr@].id
            } else {
                match result {
                    Ok(SendRoute::Connect(target)) => target_of(addr@) == Ok::<TorTarget, Failure>(
                        target@,
                    ),
                    Ok(SendRoute::Pooled(_)) => false,
                    Err(error) => target_of(addr@) == Err::<TorTarget, Failure>(error@),
                }
            },
    {
        if !self.state.is_operational() {
            return Err(TransportError::NotStarted);
        }
        let mtu = self.config.mtu();
        if len > mtu as usize {
            self.stats.record_mtu_exceeded();
            return Err(TransportError::MtuExceeded { packet_size: len, mtu });
        }
        match self.pool.get(addr) {
            Some(connection) => Ok(SendRoute::Pooled(connection.id)),
            None => match parse_tor_addr(addr) {
                Ok(target) => Ok(SendRoute::Connect(target)),
                Err(error) => Err(error),
            },
        }
    }

    fn put(&mut self, addr: TransportAddr, id: u64, direction: Direction)
        requires
            old(self).inv(),
        ensures
            final(self).inv(),
            final(self).pool@ == old(self).pool@.insert(
                addr@,
                (TorConnection { id, direction }),
            ),
            final(self).stats@ == old(self).stats@.pooled(direction),
            *final(self) == (TorTransport {
                pool: final(self).pool,
                stats: final(self).stats,
                ..*old(self)
            }),
    {
        self.pool.insert(addr, TorConnection { id, direction });
        self.stats.record_pooled(direction);
    }

    /// Ends making a connection on behalf of a packet. A connection that was
    /// made goes by the number `id`.
    pub fn connect_ended(&mut self, addr: &TransportAddr, id: u64, outcome: ConnectOutcome) -> (
    result: Result<(), TransportError>)
        requires
            old(self).inv(),
        ensures
            final(self).inv(),
            *final(self) == (TorTransport {
                pool: final(self).pool,
                stats: final(self).stats,
                ..*old(self)
            }),
            match result {
                Ok(_) => {
                    &&& outcome is Connected
                    &&& final(self).pool@ == old(self).pool@.insert(
                        addr@,
                        (TorConnection { id, direction: Direction::Outbound }),
                    )
                    &&& final(self).stats@ == old(self).stats@.pooled(Direction::Outbound)
                },
                Err(error) => {
                    &&& connect_failure(outcome) == Some(error@)
                    &&& final(self).pool == old(self).pool
                    &&& final(self).stats@ == match outcome {
                        ConnectOutcome::Refused => old(self).stats@.proxy_failed(),
                        ConnectOutcome::TimedOut => old(self).stats@.timed_out(),
                        _ => old(self).stats@,
                    }
                },
            },
    {
        match outcome {
            ConnectOutcome::Connected => {
                self.put(addr.clone(), id, Direction::Outbound);
                return Ok(());
            },
            ConnectOutcome::Refused => {
                self.stats.record_socks5_error();
            },
            ConnectOutcome::TimedOut => {
                self.stats.record_connect_timeout();
            },
            ConnectOutcome::SetupFailed(_) => {},
        }
        connect_result(outcome)
    }

    /// Takes the connection of an address out of the pool.
    fn release(&mut self, addr: &TransportAddr) -> (id: Option<u64>)
        requires
            old(self).inv(),
        ensures
            final(self).inv(),
            id == if old(self).pool@.dom().contains(addr@) {
                Some(old(self).pool@[addr@].id)
            } else {
                None
            },
            final(self).pool@ == old(self).pool@.remove(addr@),
            final(self).stats@ == released(old(self).stats@, old(self).pool@, addr@),
            *final(self) == (TorTransport {
                pool: final(self).pool,
                stats: final(self).stats,
                ..*old(self)
            }),
    {
        match self.pool.remove(addr) {
            Some(connection) => {
                self.stats.record_unpooled(connection.direction);
                Some(connection.id)
            },
            None => None,
        }
    }

    /// Ends sending a packet of `len` bytes. A connection that could not be
    /// written to leaves the pool.
    pub fn finish_send(
        &mut self,
        addr: &TransportAddr,
        len: usize,
        written: Result<(), String>,
    ) -> (result: Result<usize, TransportError>)
        requires
            old(self).inv(),
        ensures
            final(self).inv(),
            match written {
                Ok(_) => {
                    &&& result matches Ok(n) && n == len
                    &&& final(self).stats@ == old(self).stats@.sent(len as int)
                    &&& *final(self) == (TorTransport { stats: final(self).stats, ..*old(self) })
                },
                Err(reason) => {
                    &&& result matches Err(error) && error@ == Failure::SendFailed(reason@)
                    &&& final(self).pool@ == old(self).pool@.remove(addr@)
                    &&& final(self).stats@ == released(
                        old(self).stats@.send_failed(),
                        old(self).pool@,
                        addr@,
                    )
                    &&& *final(self) == (TorTransport {
                        pool: final(self).pool,
                        stats: final(self).stats,
                        ..*old(self)
                    })
                },
            },
    {
        match written {
            Ok(_) => {
                self.stats.record_send(len);
                Ok(len)
            },
            Err(reason) => {
                self.stats.record_send_error();
                self.release(addr);
                Err(TransportError::SendFailed(reason))
            },
        }
    }

    // -----------------------------------------------------------------------
    // Connecting in the background
    // -----------------------------------------------------------------------

    /// Begins a connection in the background, unless there is one or one is
    /// being made. The task that is to make it goes by the number `task`.
    pub fn begin_connect(&mut self, addr: &TransportAddr, task: u64) -> (result: Result<
        BackgroundConnect,
        TransportError,
    >)
        requires
            old(self).inv(),
        ensures
            final(self).inv(),
            *final(self) == (TorTransport { connecting: final(self).connecting, ..*old(self) }),
            if !old(self).state.operational() {
                &&& result matches Err(error) && error@ == Failure::NotStarted
                &&& final(self).connecting == old(self).connecting
            } else if old(self).pool@.dom().contains(addr@) || old(
                self,
            ).connecting@.dom().contains(addr@) {
                &&& result matches Ok(BackgroundConnect::Nothing)
                &&& final(self).connecting == old(self).connecting
            } else {
                match result {
                    Ok(BackgroundConnect::Spawn(target)) => {
                        &&& target_of(addr@) == Ok::<TorTarget, Failure>(target@)
                        &&& final(self).connecting@ == old(self).connecting@.insert(addr@, task)
                    },
                    Ok(BackgroundConnect::Nothing) => false,
                    Err(error) => {
                        &&& target_of(addr@) == Err::<TorTarget, Failure>(error@)
                        &&& final(self).connecting == old(self).connecting
                    },
                }
            },
    {
        if !self.state.is_operational() {
            return Err(TransportError::NotStarted);
        }
        if self.pool.contains(addr) || self.connecting.contains(addr) {
            return Ok(BackgroundConnect::Nothing);
        }
        match parse_tor_addr(addr) {
            Ok(target) => {
                self.connecting.insert(addr.clone(), task);
                Ok(BackgroundConnect::Spawn(target))
            },
            Err(error) => Err(error),
        }
    }

    /// The number of the task that is making a connection to an address.
    pub fn connecting_task(&self, addr: &TransportAddr) -> (task: Option<u64>)
        requires
            self.inv(),
        ensures
            task == if self.connecting@.dom().contains(addr@) {
                Some(self.connecting@[addr@])
            } else {
                None
            },
    {
        match self.connecting.get(addr) {
            Some(task) => Some(*task),
            None => None,
        }
    }

    /// The state that an address shows to a reader that cannot wait for the
    /// pools which other tasks hold.
    pub open spec fn observed_state(
        self,
        addr: Seq<u8>,
        busy: BusyPools,
        progress: TaskProgress,
    ) -> Connection {
        if busy.pool {
            Connection::Connecting
        } else if self.pool@.dom().contains(addr) {
            Connection::Connected
        } else if busy.connecting {
            Connection::Connecting
        } else if !self.connecting@.dom().contains(addr) {
            Connection::Absent
        } else {
            match progress {
                TaskProgress::Running => Connection::Connecting,
                TaskProgress::Made(_) => Connection::Connected,
                TaskProgress::Failed(reason) => Connection::Failed(reason@),
                TaskProgress::Broken(reason) => Connection::Failed("task failed: "@ + reason@),
            }
        }
    }

    /// Whether a reader that cannot wait finds that a connection in the
    /// background is made, or that it will not be.
    pub open spec fn settles(self, addr: Seq<u8>, busy: BusyPools, progress: TaskProgress) -> bool {
        &&& !busy.pool && !busy.connecting
        &&& !self.pool@.dom().contains(addr)
        &&& self.connecting@.dom().contains(addr)
        &&& !(progress is Running)
    }

    /// The state that an address shows without waiting. A connection in the
    /// background that was made is put into the pool; one that was not is
    /// forgotten.
    pub fn connection_state_sync(
        &mut self,
        addr: &TransportAddr,
        busy: BusyPools,
        progress: TaskProgress,
    ) -> (state: ConnectionState)
        requires
            old(self).inv(),
        ensures
            final(self).inv(),
            state@ == old(self).observed_state(addr@, busy, progress),
            *final(self) == (TorTransport {
                pool: final(self).pool,
                connecting: final(self).connecting,
                stats: final(self).stats,
                ..*old(self)
            }),
            if old(self).settles(addr@, busy, progress) {
                &&& final(self).connecting@ == old(self).connecting@.remove(addr@)
                &&& match progress {
                    TaskProgress::Made(id) if !busy.promotion => {
                        &&& final(self).pool@ == old(self).pool@.insert(
                            addr@,
                            (TorConnection { id, direction: Direction::Outbound }),
                        )
                        &&& final(self).stats@ == old(self).stats@.pooled(Direction::Outbound)
                    },
                    _ => final(self).pool == old(self).pool && final(self).stats == old(self).stats,
                }
            } else {
                *final(self) == *old(self)
            },
    {
        if busy.pool {
            return ConnectionState::Connecting;
        }
        if self.pool.contains(addr) {
            return ConnectionState::Connected;
        }
        if busy.connecting {
            return ConnectionState::Connecting;
        }
        if !self.connecting.contains(addr) {
            return ConnectionState::Absent;
        }
        match progress {
            TaskProgress::Running => ConnectionState::Connecting,
            TaskProgress::Made(id) => {
                self.connecting.remove(addr);
                if !busy.promotion {
                    self.put(addr.clone(), id, Direction::Outbound);
                }
                ConnectionState::Connected
            },
            TaskProgress::Failed(reason) => {
                self.connecting.remove(addr);
                ConnectionState::Failed(reason)
            },
            TaskProgress::Broken(reason) => {
                self.connecting.remove(addr);
                ConnectionState::Failed(joined("task failed: ", reason.as_str()))
            },
        }
    }

    /// Closes the connection to a peer, and returns its number.
    pub fn close_connection(&mut self, addr: &TransportAddr) -> (id: Option<u64>)
        requires
            old(self).inv(),
        ensures
            final(self).inv(),
            id == if old(self).pool@.dom().contains(addr@) {
                Some(old(self).pool@[addr@].id)
            } else {
                None
            },
            final(self).pool@ == old(self).pool@.remove(addr@),
            final(self).stats@ == released(old(self).stats@, old(self).pool@, addr@),
            *final(self) == (TorTransport {
                pool: final(self).pool,
                stats: final(self).stats,
                ..*old(self)
            }),
    {
        self.release(addr)
    }

    // -----------------------------------------------------------------------
    // Receiving
    // -----------------------------------------------------------------------

    /// Takes a packet that was read from a connection.
    pub fn packet_read(&mut self, addr: &TransportAddr, data: Vec<u8>, timestamp_ms: u64) -> (packet:
        ReceivedPacket)
        requires
            old(self).inv(),
        ensures
            final(self).inv(),
            packet@ == (Packet {
                transport_id: old(self).transport_id,
                remote_addr: addr@,
                data: data@,
                timestamp_ms,
            }),
            final(self).stats@ == old(self).stats@.received(data@.len() as int),
            *final(self) == (TorTransport { stats: final(self).stats, ..*old(self) }),
    {
        self.stats.record_recv(data.len());
        ReceivedPacket {
            transport_id: self.transport_id,
            remote_addr: addr.clone(),
            data,
            timestamp_ms,
        }
    }

    /// Whether the pool holds this connection, and not another under its address.
    pub open spec fn owns(self, addr: Seq<u8>, id: u64) -> bool {
        self.pool@.dom().contains(addr) && self.pool@[addr].id == id
    }

    /// Ends reading from a connection: `failed` where a packet could not be
    /// read. The connection leaves the pool. One that took its place under the
    /// address meanwhile stays.
    pub fn receive_ended(&mut self, addr: &TransportAddr, id: u64, failed: bool)
        requires
            old(self).inv(),
        ensures
            final(self).inv(),
            final(self).pool@ == if old(self).owns(addr@, id) {
                old(self).pool@.remove(addr@)
            } else {
                old(self).pool@
            },
            ({
                let read = if failed {
                    old(self).stats@.recv_failed()
                } else {
                    old(self).stats@
                };
                final(self).stats@ == if old(self).owns(addr@, id) {
                    released(read, old(self).pool@, addr@)
                } else {
                    read
                }
            }),
            *final(self) == (TorTransport {
                pool: final(self).pool,
                stats: final(self).stats,
                ..*old(self)
            }),
    {
        if failed {
            self.stats.record_recv_error();
        }
        let owned = match self.pool.get(addr) {
            Some(connection) => connection.id == id,
            None => false,
        };
        if owned {
            self.release(addr);
        }
    }

    // -----------------------------------------------------------------------
    // Accepting
    // -----------------------------------------------------------------------

    /// Decides whether one more connection of a peer is taken. Connections that
    /// this side began do not count.
    pub fn admit_inbound(&mut self) -> (admitted: bool)
        requires
            old(self).inv(),
        ensures
            final(self).inv(),
            admitted == (old(self).stats@.pool_inbound < old(self).config.spec_max_inbound()),
            final(self).stats@ == if admitted {
                old(self).stats@
            } else {
                old(self).stats@.rejected()
            },
            *final(self) == (TorTransport { stats: final(self).stats, ..*old(self) }),
    {
        if self.stats.pool_inbound_count() >= self.config.max_inbound_connections() as u64 {
            self.stats.record_connection_rejected();
            return false;
        }
        true
    }

    /// Puts a connection of a peer into the pool, under the text of the address
    /// that it came from.
    pub fn accept_inbound(&mut self, peer: SocketAddr, id: u64) -> (addr: TransportAddr)
        requires
            old(self).inv(),
        ensures
            final(self).inv(),
            addr@ == encode_utf8(socket_addr_text(peer)),
            final(self).pool@ == old(self).pool@.insert(
                addr@,
                (TorConnection { id, direction: Direction::Inbound }),
            ),
            final(self).stats@ == old(self).stats@.pooled(Direction::Inbound),
            *final(self) == (TorTransport {
                pool: final(self).pool,
                stats: final(self).stats,
                ..*old(self)
            }),
    {
        let addr = TransportAddr::from_socket_addr(peer);
        self.put(addr.clone(), id, Direction::Inbound);
        addr
    }

    // -----------------------------------------------------------------------
    // Watching the daemon
    // -----------------------------------------------------------------------

    /// Takes over what the daemon said, if it answered, and says what of it is
    /// worth reporting. `elapsed` are nanoseconds since the watch began.
    pub fn daemon_asked(
        &mut self,
        monitor: &mut TorMonitor,
        answer: Option<TorMonitoringInfo>,
        elapsed: u64,
    ) -> (report: Option<MonitoringReport>)
        requires
            old(self).inv(),
        ensures
            final(self).inv(),
            *final(self) == (TorTransport {
                stats: final(self).stats,
                cached_monitoring: final(self).cached_monitoring,
                ..*old(self)
            }),
            match answer {
                Some(info) => {
                    &&& report matches Some(r) && old(monitor).reports(info, elapsed, r)
                    &&& old(monitor).observed(info, elapsed, *final(monitor))
                    &&& final(self).cached_monitoring == Some(info)
                    &&& final(self).stats == old(self).stats
                },
                None => {
                    &&& report is None
                    &&& *final(monitor) == *old(monitor)
                    &&& final(self).cached_monitoring == old(self).cached_monitoring
                    &&& final(self).stats@ == old(self).stats@.control_failed()
                },
            },
    {
        match answer {
            Some(info) => {
                let report = monitor.observe(&info, elapsed);
                self.cached_monitoring = Some(info);
                Some(report)
            },
            None => {
                self.stats.record_control_error();
                None
            },
        }
    }
}

// ---------------------------------------------------------------------------
// Laws
// ---------------------------------------------------------------------------

/// Whether the gauges tell how many connections of each direction are pooled.
pub open spec fn gauges_match(stats: TorStatsSnapshot, pool: Map<Seq<u8>, TorConnection>) -> bool {
    &&& stats.pool_inbound == pooled_count(pool, Direction::Inbound)
    &&& stats.pool_outbound == pooled_count(pool, Direction::Outbound)
}

/// Before anything is pooled, the gauges are right.
pub proof fn gauges_begin_right()
    ensures
        gauges_match(TorStatsSnapshot::zero(), Map::<Seq<u8>, TorConnection>::empty()),
{
    lemma_count_empty(Map::<Seq<u8>, TorConnection>::empty(), Direction::Inbound);
    lemma_count_empty(Map::<Seq<u8>, TorConnection>::empty(), Direction::Outbound);
}

/// The gauges stay right when a connection to an address that has none is put
/// into the pool.
pub proof fn pooling_keeps_gauges(
    stats: TorStatsSnapshot,
    pool: Map<Seq<u8>, TorConnection>,
    addr: Seq<u8>,
    connection: TorConnection,
)
    requires
        pool.dom().finite(),
        pool.dom().len() < u64::MAX,
        gauges_match(stats, pool),
        !pool.dom().contains(addr),
    ensures
        gauges_match(stats.pooled(connection.direction), pool.insert(addr, connection)),
{
    let grown = pool.insert(addr, connection);
    assert(grown.remove(addr) =~= pool);
    lemma_count_removed(grown, addr, Direction::Inbound);
    lemma_count_removed(grown, addr, Direction::Outbound);
    assert(in_direction(pool, connection.direction).subset_of(pool.dom()));
    vstd::set_lib::lemma_len_subset(in_direction(pool, connection.direction), pool.dom());
}

/// The gauges stay right when a connection leaves the pool: when it is closed,
/// when it cannot be written to, and when it has nothing more to read.
pub proof fn releasing_keeps_gauges(
    stats: TorStatsSnapshot,
    pool: Map<Seq<u8>, TorConnection>,
    addr: Seq<u8>,
)
    requires
        pool.dom().finite(),
        gauges_match(stats, pool),
    ensures
        gauges_match(released(stats, pool, addr), pool.remove(addr)),
{
    if pool.dom().contains(addr) {
        lemma_count_removed(pool, addr, Direction::Inbound);
        lemma_count_removed(pool, addr, Direction::Outbound);
    } else {
        assert(pool.remove(addr) =~= pool);
    }
}

/// Where the gauges were right, a stop leaves them at zero.
pub proof fn stop_clears_gauges(stats: TorStatsSnapshot, pool: Map<Seq<u8>, TorConnection>)
    requires
        gauges_match(stats, pool),
    ensures
        drained(stats, pool).pool_inbound == 0,
        drained(stats, pool).pool_outbound == 0,
{
    lemma_reduced(stats.pool_inbound, pooled_count(pool, Direction::Inbound));
    lemma_reduced(stats.pool_outbound, pooled_count(pool, Direction::Outbound));
}

/// An inbound connection that was admitted keeps the number of inbound ones
/// within the limit, and outbound connections do not count towards it.
pub proof fn inbound_stays_within_limit(stats: TorStatsSnapshot, max_inbound: nat)
    requires
        max_inbound <= u64::MAX,
        stats.pool_inbound < max_inbound,
    ensures
        stats.pooled(Direction::Inbound).pool_inbound <= max_inbound,
        stats.pooled(Direction::Outbound).pool_inbound == stats.pool_inbound,
{
}

/// A reader that cannot wait never reports a connection as absent that is pooled
/// or being made.
pub proof fn contention_hides_no_connection(
    transport: TorTransport,
    addr: Seq<u8>,
    busy: BusyPools,
    progress: TaskProgress,
)
    requires
        transport.pool@.dom().contains(addr) || transport.connecting@.dom().contains(addr),
    ensures
        transport.observed_state(addr, busy, progress) != Connection::Absent,
{
}

/// A host name that was taken over from its file is that of an onion service and
/// has no spaces around it.
pub proof fn hostnames_are_onions(file: Seq<char>, content: Result<Seq<char>, Seq<char>>)
    ensures
        match (onion_hostname(file, content), content) {
            (Ok(host), Ok(text)) => ends_with(host, ".onion"@) && host == trimmed(text),
            (Ok(_), Err(_)) => false,
            (Err(_), _) => true,
        },
{
}

/// How a transport starts: as its mode says, with addresses that can be used. An
/// onion service goes with the directory mode only.
pub proof fn modes_decide_the_start(config: TorConfig)
    requires
        usable_host_port(config.spec_socks5_addr()),
    ensures
        config.spec_mode() == "socks5"@ ==> (config.directory_service is None <==> start_step(config)
            == Ok::<StartStep, Failure>(StartStep::Done)) && (config.directory_service is Some
            ==> start_step(config) is Err),
        config.spec_mode() == "control_port"@ ==> if usable_host_port(config.spec_control_addr())
            || names_unix_socket(config.spec_control_addr()) {
            start_step(config) == Ok::<StartStep, Failure>(StartStep::ConnectControl)
        } else {
            start_step(config) is Err
        },
        config.spec_mode() == "directory"@ ==> start_step(config) == Ok::<StartStep, Failure>(
            StartStep::ReadHostname,
        ),
        config.spec_mode() != "socks5"@ && config.spec_mode() != "control_port"@
            && config.spec_mode() != "directory"@ ==> start_step(config) is Err,
{
    reveal_strlit("socks5");
    reveal_strlit("control_port");
    reveal_strlit("directory");
    assert("socks5"@.len() == 6 && "control_port"@.len() == 12 && "directory"@.len() == 9);
}

/// No transport starts without a proxy whose address can be used: one that is spelled
/// out, or a host and a port.
pub proof fn starts_need_a_proxy(config: TorConfig, text: Seq<char>)
    ensures
        !usable_host_port(config.spec_socks5_addr()) ==> start_step(config) is Err,
        usable_host_port(text) <==> numeric_socket_addr(text) is Some || names_host_port(text),
{
}

/// A control port is a Unix socket where its setting begins like a path.
pub proof fn paths_name_unix_sockets(text: Seq<char>)
    ensures
        names_unix_socket(text) <==> (text.len() >= 1 && text[0] == '/') || (text.len() >= 2
            && text[0] == '.' && text[1] == '/'),
{
    reveal_strlit("/");
    reveal_strlit("./");
    if text.len() >= 1 {
        assert(text.subrange(0, 1)[0] == text[0]);
        if text[0] == '/' {
            assert(text.subrange(0, 1) =~= "/"@);
        }
    }
    if text.len() >= 2 {
        assert(text.subrange(0, 2)[0] == text[0] && text.subrange(0, 2)[1] == text[1]);
        if text[0] == '.' && text[1] == '/' {
            assert(text.subrange(0, 2) =~= "./"@);
        }
    }
}

/// The host name in a file is what the file holds without the spaces around it.
pub proof fn hostnames_are_read_from_files(
    file: Seq<char>,
    before: Seq<char>,
    host: Seq<char>,
    after: Seq<char>,
)
    requires
        all_spaces(before, Spaces::Unicode),
        all_spaces(after, Spaces::Unicode),
        host.len() > 0,
        !Spaces::Unicode.covers(host[0]),
        !Spaces::Unicode.covers(host.last()),
    ensures
        ends_with(host, ".onion"@) ==> onion_hostname(
            file,
            Ok::<Seq<char>, Seq<char>>(before + host + after),
        ) == Ok::<Seq<char>, Failure>(host),
        !ends_with(host, ".onion"@) ==> onion_hostname(
            file,
            Ok::<Seq<char>, Seq<char>>(before + host + after),
        ) is Err,
{
    trimming_takes_the_spaces_off(before, host, after);
}

/// What went wrong outside is told: nothing where nothing did, and else a failure
/// with the reason.
pub proof fn outcomes_are_told(
    bind_addr: Seq<char>,
    file: Seq<char>,
    reason: String,
    unreadable: Seq<char>,
)
    ensures
        control_failure(ControlOutcome::Connected) is None,
        control_failure(ControlOutcome::ConnectFailed(reason)) == Some(
            Failure::StartFailed("Tor control port: "@ + reason@),
        ),
        control_failure(ControlOutcome::AuthConfigInvalid(reason)) == Some(
            Failure::StartFailed("Tor auth config: "@ + reason@),
        ),
        control_failure(ControlOutcome::AuthFailed(reason)) == Some(
            Failure::StartFailed("Tor authentication: "@ + reason@),
        ),
        listen_failure(bind_addr, ListenOutcome::Listening) is None,
        listen_failure(bind_addr, ListenOutcome::BindFailed(reason)) matches Some(
            Failure::StartFailed(_),
        ),
        listen_failure(bind_addr, ListenOutcome::NoLocalAddr(reason)) matches Some(
            Failure::StartFailed(_),
        ),
        connect_failure(ConnectOutcome::Connected) is None,
        connect_failure(ConnectOutcome::Refused) == Some(Failure::ConnectionRefused),
        connect_failure(ConnectOutcome::TimedOut) == Some(Failure::Timeout),
        connect_failure(ConnectOutcome::SetupFailed(reason)) == Some(Failure::StartFailed(reason@)),
        onion_hostname(file, Err::<Seq<char>, Seq<char>>(unreadable)) is Err,
{
}

/// The state that an address shows: what the pool says comes first, then what its
/// background task says, and without either there is no connection.
pub proof fn states_are_shown(
    transport: TorTransport,
    addr: Seq<u8>,
    free: BusyPools,
    progress: TaskProgress,
    reason: String,
)
    requires
        !free.pool,
        !free.connecting,
    ensures
        transport.pool@.dom().contains(addr) ==> transport.observed_state(addr, free, progress)
            is Connected && !transport.settles(addr, free, progress),
        !transport.pool@.dom().contains(addr) && !transport.connecting@.dom().contains(addr)
            ==> transport.observed_state(addr, free, progress) is Absent && !transport.settles(
            addr,
            free,
            progress,
        ),
        !transport.pool@.dom().contains(addr) && transport.connecting@.dom().contains(addr) ==> {
            let state = transport.observed_state(addr, free, progress);
            &&& progress is Running <==> state is Connecting
            &&& progress is Running <==> !transport.settles(addr, free, progress)
            &&& progress is Made ==> state is Connected
            &&& progress == TaskProgress::Failed(reason) ==> state == Connection::Failed(reason@)
            &&& progress == TaskProgress::Broken(reason) ==> state == Connection::Failed(
                "task failed: "@ + reason@,
            )
        },
{
}

/// Nothing is left of the connections of a transport that stopped.
pub proof fn stopped_transports_hold_nothing(before: TorTransport, after: TorTransport)
    requires
        before.stopped(after),
        gauges_match(before.stats@, before.pool@),
    ensures
        after.state is Down,
        after.pool@.dom() == Set::<Seq<u8>>::empty(),
        after.connecting@.dom() == Set::<Seq<u8>>::empty(),
        !after.accepting,
        after.onion_address is None,
        !after.has_control,
        after.stats@.pool_inbound == 0,
        after.stats@.pool_outbound == 0,
        after.stats@.packets_sent == before.stats@.packets_sent,
        after.stats@.packets_recv == before.stats@.packets_recv,
        after.config == before.config,
{
    stop_clears_gauges(before.stats@, before.pool@);
}

/// Only the connection that the pool holds is its own: another under the same address
/// is not.
pub proof fn pools_hold_connections_by_number(transport: TorTransport, addr: Seq<u8>, id: u64)
    ensures
        transport.owns(addr, id) <==> transport.pool@.dom().contains(addr)
            && transport.pool@[addr].id == id,
{
}

/// A gauge never goes below what it was lowered by.
pub proof fn gauges_are_lowered_by_what_left(gauge: u64, n: nat)
    requires
        n <= gauge,
    ensures
        reduced(gauge, n) == gauge - n,
{
}

/// What was read of a file is its text, or the words of the error.
pub proof fn file_contents_are_viewed(text: String, reason: String)
    ensures
        content_view(Ok(text)) == Ok::<Seq<char>, Seq<char>>(text@),
        content_view(Err(reason)) == Err::<Seq<char>, Seq<char>>(reason@),
{
}

/// Every pooled connection is counted in its own direction, once, and in no other.
pub proof fn pooled_connections_are_counted_by_direction(
    pool: Map<Seq<u8>, TorConnection>,
    addr: Seq<u8>,
    direction: Direction,
)
    requires
        pool.dom().finite(),
    ensures
        in_direction(pool, direction).contains(addr) <==> pool.dom().contains(addr)
            && pool[addr].direction == direction,
        pooled_count(pool, Direction::Inbound) + pooled_count(pool, Direction::Outbound)
            == pool.dom().len(),
        pool.dom().contains(addr) ==> pooled_count(pool.remove(addr), pool[addr].direction) + 1
            == pooled_count(pool, pool[addr].direction),
{
    let inbound = in_direction(pool, Direction::Inbound);
    let outbound = in_direction(pool, Direction::Outbound);
    assert(inbound + outbound =~= pool.dom());
    assert(inbound.disjoint(outbound));
    vstd::set_lib::lemma_len_subset(inbound, pool.dom());
    vstd::set_lib::lemma_len_subset(outbound, pool.dom());
    vstd::set_lib::lemma_set_disjoint_lens(inbound, outbound);
    if pool.dom().contains(addr) {
        let same = in_direction(pool, pool[addr].direction);
        vstd::set_lib::lemma_len_subset(same, pool.dom());
        assert(in_direction(pool.remove(addr), pool[addr].direction) =~= same.remove(addr));
    }
}

/// A gauge that is lowered by more than it holds goes round.
pub proof fn gauges_go_round(gauge: u64, n: nat)
    requires
        gauge < n <= 0xffff_ffff_ffff_ffff,
    ensures
        reduced(gauge, n) == gauge - n + 0x1_0000_0000_0000_0000,
{
}

/// A host-name file that could not be read, or that holds no name of an onion
/// service, fails the start by the file's name, with the reason or with what was
/// found.
pub proof fn unusable_hostname_files_fail_the_start(
    file: Seq<char>,
    reason: Seq<char>,
    text: Seq<char>,
)
    ensures
        onion_hostname(file, Err(reason)) == Err::<Seq<char>, Failure>(
            Failure::StartFailed(
                "failed to read onion hostname from '"@ + file + "': "@ + reason
                    + " (ensure HiddenServiceDir is configured in torrc and Tor has started)"@,
            ),
        ),
        all_spaces(text, Spaces::Unicode) ==> onion_hostname(file, Ok(text)) == Err::<
            Seq<char>,
            Failure,
        >(Failure::StartFailed("invalid onion address in '"@ + file + "': ''"@)),
{
    if all_spaces(text, Spaces::Unicode) {
        let none = Seq::<char>::empty();
        trimming_takes_the_spaces_off(text, none, none);
        assert(text + none + none =~= text);
        reveal_strlit(".onion");
        reveal_strlit("': '");
        reveal_strlit("'");
        reveal_strlit("': ''");
        assert("invalid onion address in '"@ + file + "': '"@ + none + "'"@
            =~= "invalid onion address in '"@ + file + "': ''"@);
    }
}

/// A stop leaves the transport's name, number, settings and counts as they were;
/// only the gauges of the pool are lowered, and what the daemon said is forgotten.
pub proof fn stops_keep_what_is_no_connection(before: TorTransport, after: TorTransport)
    requires
        before.stopped(after),
    ensures
        after.transport_id == before.transport_id,
        after.name == before.name,
        after.config == before.config,
        after.cached_monitoring is None,
        after.stats@ == (TorStatsSnapshot {
            pool_inbound: after.stats@.pool_inbound,
            pool_outbound: after.stats@.pool_outbound,
            ..before.stats@
        }),
        after.stats@.pool_inbound == reduced(
            before.stats@.pool_inbound,
            in_direction(before.pool@, Direction::Inbound).len(),
        ),
        after.stats@.pool_outbound == reduced(
            before.stats@.pool_outbound,
            in_direction(before.pool@, Direction::Outbound).len(),
        ),
{
}

/// What a reader that cannot wait sees: a pool that another task holds is taken for
/// one that says no more than connecting. Nothing is settled by such a reader.
pub proof fn held_pools_show_as_connecting(
    transport: TorTransport,
    addr: Seq<u8>,
    busy: BusyPools,
    progress: TaskProgress,
)
    ensures
        ({
            let state = transport.observed_state(addr, busy, progress);
            let pooled = transport.pool@.dom().contains(addr);
            let begun = transport.connecting@.dom().contains(addr);
            &&& busy.pool ==> state is Connecting
            &&& !busy.pool && pooled ==> state is Connected
            &&& !busy.pool && !pooled && busy.connecting ==> state is Connecting
            &&& state is Absent <==> !busy.pool && !pooled && !busy.connecting && !begun
            &&& transport.settles(addr, busy, progress) <==> !busy.pool && !busy.connecting
                && !pooled && begun && !(progress is Running)
        }),
{
}

} // verus!
