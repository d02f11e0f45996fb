//! Transport failures and life-cycle states.

use vstd::prelude::*;
use crate::addr::SocketAddr;
use crate::text::starts_with;

verus! {

/// Why a transport operation failed.
#[derive(Debug)]
pub enum TransportError {
    NotStarted,
    AlreadyStarted,
    NotSupported(String),
    StartFailed(String),
    ShutdownFailed(String),
    SendFailed(String),
    RecvFailed(String),
    InvalidAddress(String),
    MtuExceeded { packet_size: usize, mtu: u16 },
    ConnectionRefused,
    Timeout,
    AddressInUse { address: SocketAddr, reason: String },
}

/// A transport failure as a mathematical value.
pub enum Failure {
    NotStarted,
    AlreadyStarted,
    NotSupported(Seq<char>),
    StartFailed(Seq<char>),
    ShutdownFailed(Seq<char>),
    SendFailed(Seq<char>),
    RecvFailed(Seq<char>),
    InvalidAddress(Seq<char>),
    MtuExceeded { packet_size: nat, mtu: nat },
    ConnectionRefused,
    Timeout,
    AddressInUse { address: SocketAddr, reason: Seq<char> },
}

impl View for TransportError {
    type V = Failure;

    open spec fn view(&self) -> Failure {
        match self {
            TransportError::NotStarted => Failure::NotStarted,
            TransportError::AlreadyStarted => Failure::AlreadyStarted,
            TransportError::NotSupported(m) => Failure::NotSupported(m@),
            TransportError::StartFailed(m) => Failure::StartFailed(m@),
            TransportError::ShutdownFailed(m) => Failure::ShutdownFailed(m@),
            TransportError::SendFailed(m) => Failure::SendFailed(m@),
            TransportError::RecvFailed(m) => Failure::RecvFailed(m@),
            TransportError::InvalidAddress(m) => Failure::InvalidAddress(m@),
            TransportError::MtuExceeded { packet_size, mtu } => Failure::MtuExceeded {
                packet_size: *packet_size as nat,
                mtu: *mtu as nat,
            },
            TransportError::ConnectionRefused => Failure::ConnectionRefused,
            TransportError::Timeout => Failure::Timeout,
            TransportError::AddressInUse { address, reason } => Failure::AddressInUse {
                address: *address,
                reason: reason@,
            },
        }
    }
}

impl Failure {
    /// A start failure whose message begins with `prefix`.
    pub open spec fn start_failed_with(self, prefix: Seq<char>) -> bool {
        self matches Failure::StartFailed(m) && starts_with(m, prefix)
    }
}

/// `a` followed by `b`.
pub fn joined(a: &str, b: &str) -> (s: String)
    ensures
        s@ == a@ + b@,
{
    let mut s = a.to_owned();
    s.append(b);
    s
}

/// `a`, `b` and `c` in a row.
pub fn joined3(a: &str, b: &str, c: &str) -> (s: String)
    ensures
        s@ == a@ + b@ + c@,
{
    let mut s = a.to_owned();
    s.append(b);
    s.append(c);
    s
}

/// Where a transport is in its life cycle.
#[derive(Clone, Copy, Debug, PartialEq, Eq, Structural)]
pub enum TransportState {
    Configured,
    Starting,
    Up,
    Down,
    Failed,
}

impl TransportState {
    /// A transport can be started before its first start, after a stop and
    /// after a failure.
    pub open spec fn startable(self) -> bool {
        self is Configured || self is Down || self is Failed
    }

    pub fn can_start(&self) -> (yes: bool)
        ensures
            yes == self.startable(),
    {
        match self {
            TransportState::Configured | TransportState::Down | TransportState::Failed => true,
            TransportState::Starting | TransportState::Up => false,
        }
    }

    pub open spec fn operational(self) -> bool {
        self is Up
    }

    pub fn is_operational(&self) -> (yes: bool)
        ensures
            yes == self.operational(),
    {
        match self {
            TransportState::Up => true,
            _ => false,
        }
    }
}

/// The state of a connection to one peer.
#[derive(Debug)]
pub enum ConnectionState {
    Absent,
    Connecting,
    Connected,
    Failed(String),
}

/// The state of a connection as a mathematical value.
pub enum Connection {
    Absent,
    Connecting,
    Connected,
    Failed(Seq<char>),
}

impl View for ConnectionState {
    type V = Connection;

    open spec fn view(&self) -> Connection {
        match self {
            ConnectionState::Absent => Connection::Absent,
            ConnectionState::Connecting => Connection::Connecting,
            ConnectionState::Connected => Connection::Connected,
            ConnectionState::Failed(reason) => Connection::Failed(reason@),
        }
    }
}

/// What kind of carrier a transport is.
#[derive(Clone, Copy, Debug)]
pub struct TransportType {
    pub name: &'static str,
    pub connection_oriented: bool,
    pub reliable: bool,
}

/// A text followed by another begins with the first.
pub proof fn joined_starts_with(a: Seq<char>, b: Seq<char>)
    ensures
        starts_with(a + b, a),
{
    assert((a + b).subrange(0, a.len() as int) =~= a);
}

/// A transport works only while it is up, and can be started exactly where it
/// neither works nor is being started.
pub proof fn states_are_told_apart(state: TransportState)
    ensures
        state.operational() <==> state == TransportState::Up,
        state.startable() <==> state != TransportState::Up && state != TransportState::Starting,
{
}

/// The view of an error is the failure of the same name, with the same words,
/// sizes and address.
pub proof fn failures_say_what_errors_say(error: TransportError)
    ensures
        error@ is NotStarted <==> error is NotStarted,
        error@ is AlreadyStarted <==> error is AlreadyStarted,
        error@ is ConnectionRefused <==> error is ConnectionRefused,
        error@ is Timeout <==> error is Timeout,
        error matches TransportError::NotSupported(m) ==> error@ == Failure::NotSupported(m@),
        error matches TransportError::StartFailed(m) ==> error@ == Failure::StartFailed(m@),
        error matches TransportError::ShutdownFailed(m) ==> error@ == Failure::ShutdownFailed(m@),
        error matches TransportError::SendFailed(m) ==> error@ == Failure::SendFailed(m@),
        error matches TransportError::RecvFailed(m) ==> error@ == Failure::RecvFailed(m@),
        error matches TransportError::InvalidAddress(m) ==> error@ == Failure::InvalidAddress(m@),
        error matches TransportError::MtuExceeded { packet_size: p, mtu: n } ==> (
        error@ matches Failure::MtuExceeded { packet_size, mtu } && packet_size == p && mtu == n),
        error matches TransportError::AddressInUse { address: a, reason: r } ==> (
        error@ matches Failure::AddressInUse { address, reason } && address == a && reason == r@),
{
}

/// The view of a connection's state is the state of the same name, with the same
/// reason of a failure.
pub proof fn connections_are_what_their_states_say(state: ConnectionState)
    ensures
        state@ is Absent <==> state is Absent,
        state@ is Connecting <==> state is Connecting,
        state@ is Connected <==> state is Connected,
        state matches ConnectionState::Failed(reason) ==> state@ == Connection::Failed(reason@),
{
}

/// A start fails with some words where it fails, and with words that begin so.
pub proof fn start_failures_begin_with_their_step(step: Seq<char>, reason: Seq<char>, failure: Failure)
    ensures
        Failure::StartFailed(step + reason).start_failed_with(step),
        failure.start_failed_with(step) ==> (failure matches Failure::StartFailed(words)
            && words.len() >= step.len() && words.take(step.len() as int) == step),
{
    assert((step + reason).subrange(0, step.len() as int) =~= step);
    if let Failure::StartFailed(words) = failure {
        if starts_with(words, step) {
            assert(words.take(step.len() as int) =~= words.subrange(0, step.len() as int));
        }
    }
}

} // verus!
