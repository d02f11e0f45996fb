//! UDP sockets: creation, binding and configuration.

use socket2::{Domain, Protocol, Socket, Type};
use vstd::prelude::*;
use crate::addr::SocketAddr;
use crate::error::{Failure, TransportError, joined};
use crate::text::starts_with;

verus! {

/// A socket of the operating system.
#[verifier::external_type_specification]
#[verifier::external_body]
pub struct ExSocket(Socket);

/// An error of the operating system.
#[verifier::external_type_specification]
#[verifier::external_body]
pub struct ExIoError(std::io::Error);

/// What was asked of a socket, as far as the operating system agreed.
#[verifier::ext_equal]
pub struct SocketSetup {
    pub ipv4: bool,
    pub nonblocking: bool,
    /// Whether it was asked that other sockets may bind the same address.
    pub shared: bool,
    pub bound: Option<SocketAddr>,
    pub recv_buffer: Option<usize>,
    pub send_buffer: Option<usize>,
}

/// The record of what was successfully asked of a `socket2::Socket` since it was
/// created.
pub uninterp spec fn socket_setup(socket: Socket) -> SocketSetup;

/// `socket2::Socket::new` for UDP. A new socket has the asked address family, is
/// in blocking mode, does not share its address and is not bound. Whether there can be one is for the
/// operating system to decide.
#[verifier::external_body]
fn new_udp_socket(ipv4: bool) -> (result: Result<Socket, std::io::Error>)
    ensures
        result matches Ok(socket) ==> socket_setup(socket) == (SocketSetup {
            ipv4,
            nonblocking: false,
            shared: false,
            bound: None,
            recv_buffer: None,
            send_buffer: None,
        }),
{
    Socket::new(
        if ipv4 { Domain::IPV4 } else { Domain::IPV6 },
        Type::DGRAM,
        Some(Protocol::UDP),
    )
}

/// `socket2::Socket::set_nonblocking` with `true`. Where it succeeds, that is
/// what changed. Of a socket on which it fails nothing is stated.
#[verifier::external_body]
fn make_nonblocking(socket: &mut Socket) -> (result: Result<(), std::io::Error>)
    ensures
        result is Ok ==> socket_setup(*final(socket)) == (SocketSetup {
            nonblocking: true,
            ..socket_setup(*old(socket))
        }),
{
    socket.set_nonblocking(true)
}

/// `socket2::Socket::bind`. Where it succeeds, the socket is bound to what the
/// given address asks for, and nothing else changed. Of a socket on which it
/// fails nothing is stated, nor which port an address without one comes to.
#[verifier::external_body]
fn bind_socket(socket: &mut Socket, addr: SocketAddr) -> (result: Result<(), std::io::Error>)
    ensures
        result is Ok ==> socket_setup(*final(socket)) == (SocketSetup {
            bound: Some(addr),
            ..socket_setup(*old(socket))
        }),
{
    let address: core::net::SocketAddr = match addr {
        SocketAddr::V4 { ip, port } => core::net::SocketAddrV4::new(ip.into(), port).into(),
        SocketAddr::V6 { ip, port, flowinfo, scope_id } => core::net::SocketAddrV6::new(
            ip.into(),
            port,
            flowinfo,
            scope_id,
        ).into(),
    };
    socket.bind(&address.into())
}

/// `socket2::Socket::set_recv_buffer_size`. Where it succeeds, that size was
/// asked for; the operating system may grant another.
#[verifier::external_body]
fn ask_recv_buffer(socket: &mut Socket, size: usize) -> (result: Result<(), std::io::Error>)
    ensures
        result is Ok ==> socket_setup(*final(socket)) == (SocketSetup {
            recv_buffer: Some(size),
            ..socket_setup(*old(socket))
        }),
{
    socket.set_recv_buffer_size(size)
}

/// `socket2::Socket::set_send_buffer_size`. Where it succeeds, that size was
/// asked for; the operating system may grant another.
#[verifier::external_body]
fn ask_send_buffer(socket: &mut Socket, size: usize) -> (result: Result<(), std::io::Error>)
    ensures
        result is Ok ==> socket_setup(*final(socket)) == (SocketSetup {
            send_buffer: Some(size),
            ..socket_setup(*old(socket))
        }),
{
    socket.set_send_buffer_size(size)
}

/// `socket2::Socket::recv_buffer_size`: what the operating system granted. Which
/// size that is, and whether it can be read, is not stated.
#[verifier::external_body]
fn granted_recv_buffer(socket: &Socket) -> (result: Result<usize, std::io::Error>) {
    socket.recv_buffer_size()
}

/// `socket2::Socket::send_buffer_size`: what the operating system granted. Which
/// size that is, and whether it can be read, is not stated.
#[verifier::external_body]
fn granted_send_buffer(socket: &Socket) -> (result: Result<usize, std::io::Error>) {
    socket.send_buffer_size()
}

/// `socket2::Socket::local_addr`, which the operating system decides. The
/// address is none where it belongs to another family than IPv4 and IPv6.
#[verifier::external_body]
fn bound_addr(socket: &Socket) -> (result: Result<Option<SocketAddr>, std::io::Error>) {
    match socket.local_addr()?.as_socket() {
        Some(core::net::SocketAddr::V4(a)) => Ok(
            Some(SocketAddr::V4 { ip: a.ip().to_bits(), port: a.port() }),
        ),
        Some(core::net::SocketAddr::V6(a)) => {
            let (flowinfo, scope_id) = (a.flowinfo(), a.scope_id());
            Ok(Some(SocketAddr::V6 { ip: a.ip().to_bits(), port: a.port(), flowinfo, scope_id }))
        },
        None => Ok(None),
    }
}

/// `std::io::Error::kind` compared with `AddrInUse`: whether an address could
/// not be bound because another socket has it.
#[verifier::external_body]
fn says_in_use(error: &std::io::Error) -> (yes: bool) {
    error.kind() == std::io::ErrorKind::AddrInUse
}

/// The failure of a socket that could not be bound.
pub open spec fn bind_failure(addr: SocketAddr, in_use: bool, reason: Seq<char>) -> Failure {
    if in_use {
        Failure::AddressInUse { address: addr, reason }
    } else {
        Failure::StartFailed("bind failed: "@ + reason)
    }
}

/// The error of a socket that could not be bound: that another socket has the
/// address is told apart from all else.
pub fn bind_failed(addr: SocketAddr, in_use: bool, reason: String) -> (error: TransportError)
    ensures
        error@ == bind_failure(addr, in_use, reason@),
        open_failure(error@, addr),
{
    proof {
        crate::error::joined_starts_with("bind failed: "@, reason@);
    }
    if in_use {
        TransportError::AddressInUse { address: addr, reason }
    } else {
        TransportError::StartFailed(joined("bind failed: ", reason.as_str()))
    }
}

/// A start failure whose reason follows a fixed text.
pub fn start_failed(step: &str, reason: &str) -> (error: TransportError)
    ensures
        error@ == Failure::StartFailed(step@ + reason@),
        error@.start_failed_with(step@),
{
    proof {
        crate::error::joined_starts_with(step@, reason@);
    }
    TransportError::StartFailed(joined(step, reason))
}

/// Whether a failure is one of configuring a socket.
pub open spec fn configuration_failure(failure: Failure) -> bool {
    ||| failure.start_failed_with("set nonblocking failed: "@)
    ||| failure.start_failed_with("set recv buffer: "@)
    ||| failure.start_failed_with("set send buffer: "@)
    ||| failure.start_failed_with("get recv buffer: "@)
    ||| failure.start_failed_with("get send buffer: "@)
    ||| failure.start_failed_with("get local addr: "@)
    ||| failure == Failure::StartFailed("local address is not an IP socket"@)
}

/// Whether a failure is one of opening a socket on the given address.
pub open spec fn open_failure(failure: Failure, addr: SocketAddr) -> bool {
    ||| configuration_failure(failure)
    ||| failure.start_failed_with("socket create failed: "@)
    ||| failure.start_failed_with("bind failed: "@)
    ||| failure matches Failure::AddressInUse { address, .. } && address == addr
}

/// A UDP socket that is ready for use: bound, in nonblocking mode, and with the
/// asked buffer sizes, as far as the operating system granted them.
pub struct UdpRawSocket {
    pub inner: Socket,
    pub local_addr: SocketAddr,
}

impl UdpRawSocket {
    /// What was asked of the socket.
    pub open spec fn setup(self) -> SocketSetup {
        socket_setup(self.inner)
    }

    /// Opens a socket on an address. Port zero asks for any free port.
    pub fn open(bind_addr: SocketAddr, recv_buf_size: usize, send_buf_size: usize) -> (result:
        Result<UdpRawSocket, TransportError>)
        ensures
            match result {
                Ok(socket) => socket.setup() == (SocketSetup {
                    ipv4: bind_addr.spec_ip().spec_is_ipv4(),
                    nonblocking: true,
                    shared: false,
                    bound: Some(bind_addr),
                    recv_buffer: Some(recv_buf_size),
                    send_buffer: Some(send_buf_size),
                }),
                Err(error) => open_failure(error@, bind_addr),
            },
    {
        UdpRawSocket::open_inner(bind_addr, recv_buf_size, send_buf_size)
    }

    /// Opens a socket on an address that no other socket may share, so that the
    /// bound socket is a lock on the address.
    pub fn open_exclusive(bind_addr: SocketAddr, recv_buf_size: usize, send_buf_size: usize) -> (
        result: Result<UdpRawSocket, TransportError>)
        ensures
            match result {
                Ok(socket) => socket.setup() == (SocketSetup {
                    ipv4: bind_addr.spec_ip().spec_is_ipv4(),
                    nonblocking: true,
                    shared: false,
                    bound: Some(bind_addr),
                    recv_buffer: Some(recv_buf_size),
                    send_buffer: Some(send_buf_size),
                }),
                Err(error) => open_failure(error@, bind_addr),
            },
    {
        UdpRawSocket::open_inner(bind_addr, recv_buf_size, send_buf_size)
    }

    fn open_inner(bind_addr: SocketAddr, recv_buf_size: usize, send_buf_size: usize) -> (result:
        Result<UdpRawSocket, TransportError>)
        ensures
            match result {
                Ok(socket) => socket.setup() == (SocketSetup {
                    ipv4: bind_addr.spec_ip().spec_is_ipv4(),
                    nonblocking: true,
                    shared: false,
                    bound: Some(bind_addr),
                    recv_buffer: Some(recv_buf_size),
                    send_buffer: Some(send_buf_size),
                }),
                Err(error) => open_failure(error@, bind_addr),
            },
    {
        let mut socket = match new_udp_socket(bind_addr.is_ipv4()) {
            Ok(socket) => socket,
            Err(error) => {
                let reason = error.to_string();
                return Err(start_failed("socket create failed: ", reason.as_str()));
            },
        };
        match make_nonblocking(&mut socket) {
            Ok(_) => {},
            Err(error) => {
                let reason = error.to_string();
                return Err(start_failed("set nonblocking failed: ", reason.as_str()));
            },
        }
        match bind_socket(&mut socket, bind_addr) {
            Ok(_) => {},
            Err(error) => {
                let reason = error.to_string();
                return Err(bind_failed(bind_addr, says_in_use(&error), reason));
            },
        }
        UdpRawSocket::finish(socket, recv_buf_size, send_buf_size)
    }

    /// Takes over a socket that is bound already, and with it what the network
    /// knows of its address.
    pub fn adopt(socket: Socket, recv_buf_size: usize, send_buf_size: usize) -> (result: Result<
        UdpRawSocket,
        TransportError,
    >)
        ensures
            match result {
                Ok(adopted) => adopted.setup() == (SocketSetup {
                    nonblocking: true,
                    recv_buffer: Some(recv_buf_size),
                    send_buffer: Some(send_buf_size),
                    ..socket_setup(socket)
                }),
                Err(error) => configuration_failure(error@),
            },
    {
        let mut socket = socket;
        match make_nonblocking(&mut socket) {
            Ok(_) => {},
            Err(error) => {
                let reason = error.to_string();
                return Err(start_failed("set nonblocking failed: ", reason.as_str()));
            },
        }
        UdpRawSocket::finish(socket, recv_buf_size, send_buf_size)
    }

    /// Asks for the buffer sizes and looks the address up.
    fn finish(socket: Socket, recv_buf_size: usize, send_buf_size: usize) -> (result: Result<
        UdpRawSocket,
        TransportError,
    >)
        ensures
            match result {
                Ok(finished) => finished.setup() == (SocketSetup {
                    recv_buffer: Some(recv_buf_size),
                    send_buffer: Some(send_buf_size),
                    ..socket_setup(socket)
                }),
                Err(error) => configuration_failure(error@),
            },
    {
        let mut socket = socket;
        match ask_recv_buffer(&mut socket, recv_buf_size) {
            Ok(_) => {},
            Err(error) => {
                let reason = error.to_string();
                return Err(start_failed("set recv buffer: ", reason.as_str()));
            },
        }
        match ask_send_buffer(&mut socket, send_buf_size) {
            Ok(_) => {},
            Err(error) => {
                let reason = error.to_string();
                return Err(start_failed("set send buffer: ", reason.as_str()));
            },
        }
        match granted_recv_buffer(&socket) {
            Ok(_) => {},
            Err(error) => {
                let reason = error.to_string();
                return Err(start_failed("get recv buffer: ", reason.as_str()));
            },
        }
        match granted_send_buffer(&socket) {
            Ok(_) => {},
            Err(error) => {
                let reason = error.to_string();
                return Err(start_failed("get send buffer: ", reason.as_str()));
            },
        }
        let read = match bound_addr(&socket) {
            Ok(addr) => Ok(addr),
            Err(error) => Err(error.to_string()),
        };
        match local_addr_read(read) {
            Ok(local_addr) => Ok(UdpRawSocket { inner: socket, local_addr }),
            Err(error) => Err(error),
        }
    }

    /// The address that the socket is bound to.
    pub fn local_addr(&self) -> (addr: SocketAddr)
        ensures
            addr == self.local_addr,
    {
        self.local_addr
    }

    /// The receive buffer size that the operating system granted.
    pub fn recv_buffer_size(&self) -> (result: Result<usize, TransportError>)
        ensures
            result matches Err(error) ==> error@.start_failed_with("get recv buffer: "@),
    {
        let read = match granted_recv_buffer(&self.inner) {
            Ok(size) => Ok(size),
            Err(error) => Err(error.to_string()),
        };
        buffer_size_read("get recv buffer: ", read)
    }

    /// The send buffer size that the operating system granted.
    pub fn send_buffer_size(&self) -> (result: Result<usize, TransportError>)
        ensures
            result matches Err(error) ==> error@.start_failed_with("get send buffer: "@),
    {
        let read = match granted_send_buffer(&self.inner) {
            Ok(size) => Ok(size),
            Err(error) => Err(error.to_string()),
        };
        buffer_size_read("get send buffer: ", read)
    }
}

/// What a socket's own address comes to, given what was read of it: the address,
/// or a start failure where it is none of the Internet or could not be read.
pub fn local_addr_read(read: Result<Option<SocketAddr>, String>) -> (result: Result<
    SocketAddr,
    TransportError,
>)
    ensures
        match read {
            Ok(Some(addr)) => result == Ok::<SocketAddr, TransportError>(addr),
            Ok(None) => result matches Err(error) && error@ == Failure::StartFailed(
                "local address is not an IP socket"@,
            ),
            Err(reason) => result matches Err(error) && error@ == Failure::StartFailed(
                "get local addr: "@ + reason@,
            ) && error@.start_failed_with("get local addr: "@),
        },
{
    match read {
        Ok(Some(addr)) => Ok(addr),
        Ok(None) => Err(TransportError::StartFailed("local address is not an IP socket".to_owned())),
        Err(reason) => Err(start_failed("get local addr: ", reason.as_str())),
    }
}

/// What a socket's buffer size comes to, given what was read of it: the size, or
/// a start failure with the reason why there is none.
pub fn buffer_size_read(step: &str, read: Result<usize, String>) -> (result: Result<
    usize,
    TransportError,
>)
    ensures
        match read {
            Ok(size) => result == Ok::<usize, TransportError>(size),
            Err(reason) => result matches Err(error) && error@ == Failure::StartFailed(
                step@ + reason@,
            ) && error@.start_failed_with(step@),
        },
{
    match read {
        Ok(size) => Ok(size),
        Err(reason) => Err(start_failed(step, reason.as_str())),
    }
}

/// Whether a buffer is asked for once more past the limit that the operating
/// system sets for ordinary sockets: it is where less was granted.
pub fn wants_forced_buffer(requested: usize, granted: usize) -> (yes: bool)
    ensures
        yes == (granted < requested),
{
    granted < requested
}

/// A socket that cannot be bound for an address in use says so with the address;
/// one that cannot for another reason fails the start with that reason.
pub proof fn addresses_in_use_are_told_apart(addr: SocketAddr, reason: Seq<char>)
    ensures
        bind_failure(addr, true, reason) == (Failure::AddressInUse { address: addr, reason }),
        bind_failure(addr, false, reason) == Failure::StartFailed("bind failed: "@ + reason),
{
}

/// Opening a socket fails in no other way than by a failed start whose words begin
/// with the step, or by the address that was asked for being in use; setting it up
/// fails in no other way than by a failed start.
pub proof fn opening_fails_by_its_steps(failure: Failure, addr: SocketAddr)
    ensures
        open_failure(failure, addr) ==> failure is StartFailed || (
        failure matches Failure::AddressInUse { address, .. } && address == addr),
        configuration_failure(failure) ==> failure is StartFailed && open_failure(failure, addr),
        failure matches Failure::StartFailed(words) ==> (open_failure(failure, addr) ==> {
            ||| words == "local address is not an IP socket"@
            ||| starts_with(words, "set nonblocking failed: "@)
            ||| starts_with(words, "set recv buffer: "@)
            ||| starts_with(words, "set send buffer: "@)
            ||| starts_with(words, "get recv buffer: "@)
            ||| starts_with(words, "get send buffer: "@)
            ||| starts_with(words, "get local addr: "@)
            ||| starts_with(words, "socket create failed: "@)
            ||| starts_with(words, "bind failed: "@)
        }),
{
}

} // verus!
