//! What the transports have in common, and the UDP transport as a whole.

use fips_transport::addr::{SocketAddr, TransportAddr, TransportId};
use fips_transport::error::{TransportError, TransportState};
use fips_transport::tor::config::TorConfig;
use fips_transport::tor::transport::{StartStep, TorTransport};
use fips_transport::udp::config::UdpConfig;
use fips_transport::udp::gso::{Payload, PayloadBatch};
use fips_transport::udp::rebind::{after_probe, network_rebind_probe, ProbeStep};
use fips_transport::udp::stats::UdpStats;
use fips_transport::udp::transport::{
    batch_send_ended, BatchStep, Destination, UdpSocketOrigin, UdpTransport,
};

const SECOND: u64 = 1_000_000_000;

fn settings(bind_addr: &str) -> UdpConfig {
    UdpConfig {
        bind_addr: bind_addr.to_string(),
        mtu: 1280,
        recv_buf_size: 65536,
        send_buf_size: 65536,
        accept_connections: None,
        outbound_only: None,
        public: None,
    }
}

fn make_config(port: u16) -> UdpConfig {
    settings(&format!("127.0.0.1:{}", port))
}

fn make_udp(id: u32, config: UdpConfig) -> UdpTransport {
    UdpTransport::new(TransportId::new(id), None, config, 0, 0)
}

fn make_tor() -> TorTransport {
    let config = TorConfig {
        socks5_addr: Some("127.0.0.1:19050".to_string()),
        ..Default::default()
    };
    TorTransport::new(TransportId::new(1), None, config)
}

fn start(transport: &mut UdpTransport, exclusive: bool) -> Result<(), TransportError> {
    let socket = transport.open_bound_socket(exclusive)?;
    transport.finish_start(Ok(socket.local_addr()))
}

#[test]
fn tests_test_start_stop() {
    let mut udp = make_udp(1, make_config(0));
    assert_eq!(udp.state(), TransportState::Configured);

    start(&mut udp, false).unwrap();
    assert_eq!(udp.state(), TransportState::Up);
    assert!(udp.local_addr().is_some());

    udp.finish_stop().unwrap();
    assert_eq!(udp.state(), TransportState::Down);

    let mut tor = make_tor();
    assert_eq!(tor.begin_start().unwrap(), StartStep::Done);
    assert_eq!(tor.state(), TransportState::Up);

    tor.stop_all().unwrap();
    assert_eq!(tor.state(), TransportState::Down);
}

#[test]
fn tests_test_double_start_fails() {
    let mut udp = make_udp(1, make_config(0));
    start(&mut udp, false).unwrap();
    assert!(matches!(
        start(&mut udp, false),
        Err(TransportError::AlreadyStarted)
    ));
    udp.finish_stop().unwrap();

    let mut tor = make_tor();
    tor.begin_start().unwrap();
    assert!(tor.begin_start().is_err());
}

#[test]
fn tests_test_stop_not_started_fails() {
    let mut udp = make_udp(1, make_config(0));
    assert!(matches!(udp.finish_stop(), Err(TransportError::NotStarted)));
    assert!(make_tor().stop_all().is_err());
}

#[test]
fn tests_test_send_not_started() {
    let mut udp = make_udp(1, make_config(0));
    assert!(matches!(
        udp.check_packet(4),
        Err(TransportError::NotStarted)
    ));
    assert!(udp.send_snapshot().is_err());

    let addr = TransportAddr::from_string("127.0.0.1:2121");
    assert!(make_tor().route_packet(&addr, 10).is_err());
}

#[test]
fn tests_test_discover_returns_empty() {
    assert!(make_udp(1, make_config(0)).discover().unwrap().is_empty());
    assert!(make_tor().discover().unwrap().is_empty());
}

#[test]
fn tests_test_transport_type() {
    let udp = make_udp(1, make_config(0));
    assert_eq!(udp.transport_type().name, "udp");
    assert!(!udp.transport_type().connection_oriented);
    assert!(!udp.transport_type().reliable);

    let tt = make_tor().transport_type();
    assert_eq!(tt.name, "tor");
    assert!(tt.connection_oriented);
    assert!(tt.reliable);
}

#[test]
fn tests_test_sync_methods_return_not_supported() {
    let mut udp = make_udp(1, make_config(0));
    assert!(matches!(udp.start(), Err(TransportError::NotSupported(_))));
    assert!(matches!(udp.stop(), Err(TransportError::NotSupported(_))));
    assert!(matches!(
        udp.send(&TransportAddr::from_string("test"), b"data"),
        Err(TransportError::NotSupported(_))
    ));

    let mut tor = make_tor();
    assert!(tor.start().is_err());
    assert!(tor.stop().is_err());
    let addr = TransportAddr::from_string("127.0.0.1:2121");
    assert!(tor.send(&addr, &[0u8; 10]).is_err());
}

// ---------------------------------------------------------------------------
// UDP
// ---------------------------------------------------------------------------

#[test]
fn configured_udp_transport_recovers_socket_after_local_route_failure() {
    let mut transport = make_udp(1, make_config(0));
    start(&mut transport, false).unwrap();
    assert!(transport.begin_recovery(100 * SECOND));
    transport.finish_stop().unwrap();
    start(&mut transport, false).unwrap();
    assert_eq!(transport.state(), TransportState::Up);
    assert!(
        !transport.begin_recovery(101 * SECOND),
        "repeated route errors must not churn the UDP socket during the recovery cooldown"
    );
    assert!(transport.begin_recovery(105 * SECOND));
    transport.finish_stop().unwrap();
}

#[test]
fn exclusive_start_reports_address_in_use_and_can_retry() {
    let mut owner = make_udp(1, make_config(0));
    let owned = owner.open_bound_socket(true).unwrap();
    owner.finish_start(Ok(owned.local_addr())).unwrap();
    let owner_addr = owner.local_addr().unwrap();

    let mut candidate = make_udp(2, make_config(owner_addr.port()));
    assert!(matches!(
        candidate.open_bound_socket(true),
        Err(TransportError::AddressInUse { address, .. }) if address == owner_addr
    ));
    assert_eq!(candidate.state(), TransportState::Failed);

    owner.finish_stop().unwrap();
    drop(owned);
    start(&mut candidate, true).unwrap();
    assert_eq!(candidate.local_addr(), Some(owner_addr));
    candidate.finish_stop().unwrap();
}

#[test]
fn exclusive_transport_recovery_preserves_ownership_bind() {
    let mut owner = make_udp(1, make_config(0));
    let owned = owner.open_bound_socket(true).unwrap();
    owner.finish_start(Ok(owned.local_addr())).unwrap();
    let owner_addr = owner.local_addr().unwrap();
    assert!(!owner.begin_recovery(100 * SECOND));

    let mut candidate = make_udp(2, make_config(owner_addr.port()));
    assert!(matches!(
        candidate.open_bound_socket(true),
        Err(TransportError::AddressInUse { address, .. }) if address == owner_addr
    ));
    owner.finish_stop().unwrap();
}

#[test]
fn invalid_bind_addresses_fail_the_start() {
    let mut transport = make_udp(1, settings("nowhere"));
    match transport.open_bound_socket(false) {
        Err(TransportError::StartFailed(message)) => {
            assert!(message.starts_with("invalid bind address: "))
        }
        _ => panic!("expected StartFailed"),
    }
    assert_eq!(transport.state(), TransportState::Failed);
}

#[test]
fn sockets_can_be_taken_over() {
    let mut transport = make_udp(1, make_config(0));
    transport.begin_adopt().unwrap();
    let local = SocketAddr::parse("127.0.0.1:4000").unwrap();
    transport.finish_start(Ok(local)).unwrap();
    assert_eq!(transport.socket_origin.label(), "adopted");
    assert!(!transport.begin_recovery(100 * SECOND));
    let probe = network_rebind_probe(&transport, None).unwrap().unwrap();
    assert_eq!(probe.bind_addr, SocketAddr::parse("127.0.0.1:0").unwrap());
}

#[test]
fn probes_are_repeated_with_pauses() {
    let delays = vec![10, 20];
    assert!(matches!(
        after_probe(0, Ok(()), &delays),
        ProbeStep::Ready
    ));
    assert!(matches!(
        after_probe(1, Err(TransportError::Timeout), &delays),
        ProbeStep::Retry { delay_ms: 20 }
    ));
    assert!(matches!(
        after_probe(2, Err(TransportError::Timeout), &delays),
        ProbeStep::GiveUp(TransportError::Timeout)
    ));
    let mut exclusive = make_udp(1, make_config(0));
    exclusive.socket_origin = UdpSocketOrigin::Exclusive;
    assert!(network_rebind_probe(&exclusive, None).unwrap().is_none());
}

#[test]
fn test_mtu_exceeded() {
    let mut transport = make_udp(
        1,
        UdpConfig {
            mtu: 100,
            ..make_config(0)
        },
    );
    start(&mut transport, false).unwrap();
    assert!(matches!(
        transport.check_packet(200),
        Err(TransportError::MtuExceeded {
            packet_size: 200,
            mtu: 100
        })
    ));
    assert_eq!(transport.stats().snapshot().mtu_exceeded, 1);
    assert!(transport.check_packet(100).is_ok());
    transport.finish_stop().unwrap();
}

#[test]
fn test_send_recv() {
    let mut t1 = make_udp(1, make_config(0));
    let mut t2 = make_udp(2, make_config(0));
    start(&mut t1, false).unwrap();
    start(&mut t2, false).unwrap();
    let addr2 = t2.local_addr().unwrap();
    let data = b"hello world";
    t1.check_packet(data.len()).unwrap();
    let to = TransportAddr::from_socket_addr(addr2);
    assert_eq!(t1.resolve(&to, 0), Destination::Known(addr2));
    t1.check_destination(addr2).unwrap();
    assert_eq!(t1.finish_send(Ok(data.len())).unwrap(), data.len());
    assert_eq!(t1.stats().snapshot().packets_sent, 1);
    assert_eq!(t1.stats().snapshot().bytes_sent, 11);
    let v6 = SocketAddr::parse("[::1]:9").unwrap();
    assert!(matches!(
        t1.check_destination(v6),
        Err(TransportError::InvalidAddress(_))
    ));
    assert!(t1.finish_send(Err(TransportError::Timeout)).is_err());
    assert_eq!(t1.stats().snapshot().send_errors, 1);
}

#[test]
fn test_resolve_socket_addr_ip() {
    let transport = make_udp(1, make_config(0));
    let addr = TransportAddr::from_string("192.168.1.1:2121");
    match transport.resolve(&addr, 0) {
        Destination::Known(known) => assert_eq!(known.text(), "192.168.1.1:2121"),
        Destination::Lookup => panic!("a numeric address needs no lookup"),
    }
}

#[test]
fn looked_up_names_are_kept_for_a_while() {
    let mut transport = make_udp(1, make_config(0));
    let name = TransportAddr::from_string("localhost:2121");
    let found = SocketAddr::parse("127.0.0.1:2121").unwrap();
    assert_eq!(transport.resolve(&name, 0), Destination::Lookup);
    transport.remember_lookup(&name, found, SECOND);
    assert_eq!(
        transport.resolved_socket_addr_if_cached(&name, 60 * SECOND),
        Some(found)
    );
    assert_eq!(
        transport.resolved_socket_addr_if_cached(&name, 61 * SECOND),
        None
    );
}

#[test]
fn test_congestion_reports_kernel_drops() {
    let mut transport = UdpTransport::new(TransportId::new(1), None, make_config(0), 10, 0);
    let cong = transport.congestion(SECOND, || panic!("too early for a reading"));
    assert_eq!(cong.socket_recv_drops, Some(0));
    assert_eq!(cong.recv_drops, cong.namespace_recv_drops);
    let cong = transport.congestion(10 * SECOND, || Some(14));
    assert_eq!(cong.recv_drops, Some(4));
    assert_eq!(cong.namespace_recv_drops, Some(4));
}

#[test]
fn test_accept_connections_default_true() {
    let transport = make_udp(1, make_config(0));
    assert!(transport.accept_connections());
}

#[test]
fn test_accept_connections_false_when_configured() {
    let transport = make_udp(
        1,
        UdpConfig {
            accept_connections: Some(false),
            ..settings("127.0.0.1:0")
        },
    );
    assert!(!transport.accept_connections());
}

#[test]
fn test_accept_connections_forced_false_in_outbound_only() {
    let transport = make_udp(
        1,
        UdpConfig {
            outbound_only: Some(true),
            accept_connections: Some(true), // explicit true; outbound_only wins
            ..make_config(0)
        },
    );
    assert!(!transport.accept_connections());
}

#[test]
fn public_inbound_udp_is_operator_routing_adjacency_only_for_responder() {
    let public = make_udp(
        41,
        UdpConfig {
            public: Some(true),
            accept_connections: Some(true),
            ..settings("0.0.0.0:2121")
        },
    );
    assert!(public.is_operator_routing_adjacency(false));
    assert!(!public.is_operator_routing_adjacency(true));

    let ordinary = make_udp(
        42,
        UdpConfig {
            public: Some(false),
            accept_connections: Some(true),
            ..settings("0.0.0.0:0")
        },
    );
    assert!(!ordinary.is_operator_routing_adjacency(false));
}

#[test]
fn test_outbound_only_binds_ephemeral() {
    let mut transport = make_udp(
        1,
        UdpConfig {
            outbound_only: Some(true),
            ..settings("127.0.0.1:65535")
        },
    );
    start(&mut transport, false).unwrap();
    let local = transport.local_addr().unwrap();
    assert_ne!(local.port(), 65535);
    assert!(local.port() > 0);
    assert!(local.ip().is_unspecified());
    transport.finish_stop().unwrap();
}

#[test]
fn batches_are_counted_as_far_as_they_were_sent() {
    let payloads = PayloadBatch {
        payloads: vec![
            Payload::new(vec![vec![0; 10]]),
            Payload::new(vec![vec![0; 20]]),
            Payload::new(vec![vec![0; 30]]),
        ],
    };
    let mut stats = UdpStats::new();
    assert_eq!(
        batch_send_ended(&payloads, 0, Some(2), &mut stats),
        BatchStep::Continue { offset: 2 }
    );
    assert_eq!(stats.snapshot().bytes_sent, 30);
    assert_eq!(
        batch_send_ended(&payloads, 2, None, &mut stats),
        BatchStep::Finished { failed: 1 }
    );
    assert_eq!(
        batch_send_ended(&payloads, 2, Some(9), &mut stats),
        BatchStep::Finished { failed: 0 }
    );
    let snapshot = stats.snapshot();
    assert_eq!(snapshot.packets_sent, 3);
    assert_eq!(snapshot.bytes_sent, 60);
    assert_eq!(snapshot.send_errors, 1);
}
