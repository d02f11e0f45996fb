//! Probing whether a transport's socket could be opened on the present network.

use vstd::prelude::*;
use crate::addr::{
    SocketAddr, TransportId, numeric_socket_addr, parse_socket_addr, socket_addr_error,
};
use crate::error::{Failure, TransportError, joined};
use crate::udp::transport::{UdpSocketOrigin, UdpTransport};

verus! {

/// A socket to be opened for a moment, to see whether it can be.
#[derive(Debug)]
pub struct UdpNetworkRebindProbe {
    pub transport_id: TransportId,
    pub bind_addr: SocketAddr,
    pub bind_interface: Option<String>,
    pub recv_buf_size: usize,
    pub send_buf_size: usize,
}

/// The address that a transport's socket is bound to, or would be, where it can
/// be rebuilt: one that was taken over while it runs, and one that is opened as
/// configured unless it is just being started.
pub open spec fn rebind_source(transport: UdpTransport) -> Option<Result<SocketAddr, Failure>> {
    if transport.socket_origin == UdpSocketOrigin::Adopted && transport.state.operational() {
        Some(
            match transport.local_addr {
                Some(local) => Ok(local),
                None => Err(Failure::NotStarted),
            },
        )
    } else if transport.socket_origin == UdpSocketOrigin::Configured && (
    transport.state.operational() || transport.state.startable()) {
        let text = transport.config.spec_bind_addr();
        Some(
            match numeric_socket_addr(text) {
                Some(addr) => Ok(addr),
                None => Err(
                    Failure::StartFailed("invalid bind address: "@ + socket_addr_error(text)),
                ),
            },
        )
    } else {
        None
    }
}

/// The address to probe: a running transport has its port in use, so any port
/// will do for it.
pub open spec fn probe_addr(transport: UdpTransport, addr: SocketAddr) -> SocketAddr {
    if transport.state.operational() {
        SocketAddr::spec_new(addr.spec_ip(), 0)
    } else {
        addr
    }
}

/// The probe for a transport's socket, where it can be rebuilt.
pub fn network_rebind_probe(transport: &UdpTransport, bind_interface: Option<String>) -> (result:
    Result<Option<UdpNetworkRebindProbe>, TransportError>)
    ensures
        match result {
            Ok(None) => rebind_source(*transport) is None,
            Ok(Some(probe)) => {
                &&& rebind_source(*transport) matches Some(Ok(addr)) && probe.bind_addr
                    == probe_addr(*transport, addr)
                &&& probe.transport_id == transport.transport_id
                &&& probe.bind_interface == bind_interface
                &&& probe.recv_buf_size == transport.config.recv_buf_size
                &&& probe.send_buf_size == transport.config.send_buf_size
            },
            Err(error) => rebind_source(*transport) == Some(
                Err::<SocketAddr, Failure>(error@),
            ),
        },
{
    let addr = if transport.socket_origin == UdpSocketOrigin::Adopted
        && transport.state.is_operational() {
        match transport.local_addr {
            Some(local) => local,
            None => {
                return Err(TransportError::NotStarted);
            },
        }
    } else if transport.socket_origin == UdpSocketOrigin::Configured && (
    transport.state.is_operational() || transport.state.can_start()) {
        match parse_socket_addr(transport.config.bind_addr()) {
            Ok(addr) => addr,
            Err(reason) => {
                return Err(
                    TransportError::StartFailed(
                        joined("invalid bind address: ", reason.as_str()),
                    ),
                );
            },
        }
    } else {
        return Ok(None);
    };
    let bind_addr = if transport.state.is_operational() {
        SocketAddr::new(addr.ip(), 0)
    } else {
        addr
    };
    Ok(
        Some(
            UdpNetworkRebindProbe {
                transport_id: transport.transport_id,
                bind_addr,
                bind_interface,
                recv_buf_size: transport.config.recv_buf_size,
                send_buf_size: transport.config.send_buf_size,
            },
        ),
    )
}

/// What follows an attempt to open the probe's socket.
#[derive(Debug)]
pub enum ProbeStep {
    Ready,
    /// The attempt is repeated after a pause.
    Retry { delay_ms: u64 },
    /// The last attempt failed.
    GiveUp(TransportError),
}

/// Decides what follows attempt number `attempt`, counted from zero. After each
/// failed attempt but the last comes the next pause of the list.
pub fn after_probe(
    attempt: usize,
    outcome: Result<(), TransportError>,
    retry_delays_ms: &Vec<u64>,
) -> (step: ProbeStep)
    ensures
        match outcome {
            Ok(_) => step is Ready,
            Err(error) => if attempt < retry_delays_ms@.len() {
                step == (ProbeStep::Retry { delay_ms: retry_delays_ms@[attempt as int] })
            } else {
                step == ProbeStep::GiveUp(error)
            },
        },
{
    match outcome {
        Ok(_) => ProbeStep::Ready,
        Err(error) => {
            if attempt < retry_delays_ms.len() {
                ProbeStep::Retry { delay_ms: retry_delays_ms[attempt] }
            } else {
                ProbeStep::GiveUp(error)
            }
        },
    }
}

/// A socket that holds a lock on its address is never probed.
pub proof fn locks_are_not_probed(transport: UdpTransport)
    requires
        transport.socket_origin == UdpSocketOrigin::Exclusive,
    ensures
        rebind_source(transport) is None,
{
}

/// What is probed: the very address of a socket that was taken over, and the
/// configured address of one that is opened as configured. A transport that is up
/// is probed on any port of its address, one that is not on the address itself.
pub proof fn present_address_is_probed(transport: UdpTransport, local: SocketAddr)
    ensures
        transport.socket_origin is Adopted && transport.state is Up && transport.local_addr == Some(
            local,
        ) ==> rebind_source(transport) == Some(Ok::<SocketAddr, Failure>(local)),
        transport.socket_origin is Adopted && !(transport.state is Up) ==> rebind_source(
            transport,
        ) is None,
        transport.socket_origin is Configured && !(transport.state is Starting)
            && numeric_socket_addr(transport.config.spec_bind_addr()) == Some(local)
            ==> rebind_source(transport) == Some(Ok::<SocketAddr, Failure>(local)),
        transport.socket_origin is Configured && !(transport.state is Starting)
            && numeric_socket_addr(transport.config.spec_bind_addr()) is None ==> (rebind_source(
            transport,
        ) matches Some(Err(_))),
        transport.state is Starting ==> rebind_source(transport) is None,
        transport.state is Up ==> probe_addr(transport, local).spec_ip() == local.spec_ip()
            && probe_addr(transport, local).spec_port() == 0,
        !(transport.state is Up) ==> probe_addr(transport, local) == local,
{
}

} // verus!
