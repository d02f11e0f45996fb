//! Tor: addresses, settings, connections and monitoring.

use fips_transport::addr::{SocketAddr, TransportAddr, TransportId};
use fips_transport::error::{ConnectionState, TransportError, TransportState};
use fips_transport::tor::address::{
    check_host_port, classify_tor_addr, parse_tor_addr, proxy_login, validate_host_port, TorAddr,
};
use fips_transport::tor::config::{DirectoryServiceConfig, TorConfig};
use fips_transport::tor::monitoring::{TorMonitor, TorMonitoringInfo};
use fips_transport::tor::stats::{Direction, TorStats};
use fips_transport::tor::transport::{
    connect_result, read_onion_hostname, BackgroundConnect, BusyPools, ConnectOutcome,
    ControlOutcome, ListenOutcome, SendRoute, StartStep, TaskProgress, TorTransport,
};

const SECOND: u64 = 1_000_000_000;
const ONION: &str = "aaaaaaaaaaaaaaaaaaaaaaaaaaaaaaaaaaaaaaaaaaaaaaaaaaaaaaa2.onion";
const IDLE: BusyPools = BusyPools {
    pool: false,
    connecting: false,
    promotion: false,
};

fn make_config() -> TorConfig {
    TorConfig {
        socks5_addr: Some("127.0.0.1:19050".to_string()),
        ..Default::default()
    }
}

fn make_transport(config: TorConfig) -> TorTransport {
    TorTransport::new(TransportId::new(1), None, config)
}

fn started(config: TorConfig) -> TorTransport {
    let mut transport = make_transport(config);
    assert_eq!(transport.begin_start().unwrap(), StartStep::Done);
    transport
}

fn directory_config() -> TorConfig {
    TorConfig {
        mode: Some("directory".to_string()),
        socks5_addr: Some("127.0.0.1:19050".to_string()),
        directory_service: Some(DirectoryServiceConfig {
            hostname_file: Some("/tmp/hostname".to_string()),
            bind_addr: Some("127.0.0.1:0".to_string()),
        }),
        ..Default::default()
    }
}

fn message(error: TransportError) -> String {
    match error {
        TransportError::StartFailed(text) => text,
        other => panic!("expected StartFailed, got {:?}", other),
    }
}

// ---------------------------------------------------------------------------
// Addresses
// ---------------------------------------------------------------------------

#[test]
fn test_parse_tor_addr_onion() {
    let addr = TransportAddr::from_string("abcdef1234567890.onion:2121");
    let tor_addr = parse_tor_addr(&addr).unwrap();
    match tor_addr {
        TorAddr::Onion(host, port) => {
            assert_eq!(host, "abcdef1234567890.onion");
            assert_eq!(port, 2121);
        }
        _ => panic!("expected Onion variant"),
    }
}

#[test]
fn test_parse_tor_addr_clearnet() {
    let addr = TransportAddr::from_string("192.168.1.1:8080");
    let tor_addr = parse_tor_addr(&addr).unwrap();
    match tor_addr {
        TorAddr::Clearnet(socket_addr) => {
            assert_eq!(socket_addr, SocketAddr::parse("192.168.1.1:8080").unwrap());
        }
        _ => panic!("expected Clearnet variant"),
    }
}

#[test]
fn test_parse_tor_addr_clearnet_hostname() {
    let addr = TransportAddr::from_string("peer1.example.com:2121");
    let tor_addr = parse_tor_addr(&addr).unwrap();
    match tor_addr {
        TorAddr::ClearnetHostname(host, port) => {
            assert_eq!(host, "peer1.example.com");
            assert_eq!(port, 2121);
        }
        _ => panic!("expected ClearnetHostname variant"),
    }
}

#[test]
fn test_parse_tor_addr_invalid() {
    // Bare name without a dot: not a valid hostname
    let addr = TransportAddr::from_string("localhost:2121");
    assert!(parse_tor_addr(&addr).is_err());

    // No port
    let addr = TransportAddr::from_string("not-a-valid-address");
    assert!(parse_tor_addr(&addr).is_err());

    // Invalid port
    let addr = TransportAddr::from_string("example.com:notaport");
    assert!(parse_tor_addr(&addr).is_err());
}

#[test]
fn addresses_that_are_no_text_are_refused() {
    assert!(parse_tor_addr(&TransportAddr::new(vec![0xff, 0x80])).is_err());
    assert!(classify_tor_addr("a.onion:99999", None).is_err());
    assert!(classify_tor_addr("a.onion:1", None).is_ok());
}

#[test]
fn test_advert_address_round_trips_through_parser() {
    let onion = "mwvj6q3pnsiaky7i6wg5s42xlfurt5uqr3qzckrlw2graa2ugcgwhiqd.onion";
    let cfg = TorConfig::default();
    let advertised = format!("{}:{}", onion, cfg.advertised_port());

    let parsed = parse_tor_addr(&TransportAddr::from_string(&advertised)).unwrap();
    match parsed {
        TorAddr::Onion(host, port) => {
            assert_eq!(host, onion);
            assert_eq!(port, 443);
        }
        other => panic!("expected Onion variant, got {:?}", other),
    }

    // Sanity-check the inverse: the bare-onion form must not parse, so any
    // future regression in the publisher will be caught by the round-trip
    // test above.
    assert!(parse_tor_addr(&TransportAddr::from_string(onion)).is_err());
}

#[test]
fn settings_name_a_host_and_a_port() {
    assert!(validate_host_port("[::1]:9050", "socks5_addr").is_ok());
    assert!(validate_host_port("tor:9050", "socks5_addr").is_ok());
    assert_eq!(
        message(validate_host_port(":9050", "socks5_addr").unwrap_err()),
        "invalid socks5_addr ':9050': expected host:port or IP:port"
    );
    assert!(check_host_port("x", "f", true).is_ok());
    assert!(check_host_port("x", "f", false).is_err());
}

// ---------------------------------------------------------------------------
// Settings
// ---------------------------------------------------------------------------

#[test]
fn test_config_defaults() {
    let config = TorConfig::default();
    assert_eq!(config.mode(), "socks5");
    assert_eq!(config.socks5_addr(), "127.0.0.1:9050");
    assert_eq!(config.connect_timeout_ms(), 120000);
    assert_eq!(config.mtu(), 1400);
    assert_eq!(config.advertised_port(), 443);
}

#[test]
fn test_advertised_port_override() {
    let config = TorConfig {
        advertised_port: Some(9001),
        ..Default::default()
    };
    assert_eq!(config.advertised_port(), 9001);
}

#[test]
fn test_config_defaults_phase2() {
    let config = TorConfig::default();
    assert_eq!(config.control_addr(), "/run/tor/control");
    assert_eq!(config.control_auth(), "cookie");
    assert_eq!(config.cookie_path(), "/var/run/tor/control.authcookie");
    assert_eq!(config.max_inbound_connections(), 64);
}

#[test]
fn test_directory_service_config_defaults() {
    let config = DirectoryServiceConfig::default();
    assert_eq!(
        config.hostname_file(),
        "/var/lib/tor/fips_onion_service/hostname"
    );
    assert_eq!(config.bind_addr(), "127.0.0.1:8443");
}

// ---------------------------------------------------------------------------
// Starting and stopping
// ---------------------------------------------------------------------------

#[test]
fn test_accept_connections_false() {
    let transport = make_transport(make_config());
    assert!(!transport.accept_connections());
}

#[test]
fn test_invalid_socks5_addr_start_fails() {
    let mut transport = make_transport(TorConfig {
        socks5_addr: Some("not-a-socket-addr".to_string()),
        ..Default::default()
    });
    assert!(transport.begin_start().is_err());
    assert_eq!(transport.state(), TransportState::Starting);
}

#[test]
fn test_unsupported_mode_start_fails() {
    let mut transport = make_transport(TorConfig {
        mode: Some("embedded".to_string()),
        socks5_addr: Some("127.0.0.1:9050".to_string()),
        ..Default::default()
    });
    assert_eq!(
        message(transport.begin_start().unwrap_err()),
        "unsupported Tor mode 'embedded' (expected 'socks5', 'control_port', or 'directory')"
    );
}

#[test]
fn test_socks5_mode_rejects_directory_service_config() {
    let mut transport = make_transport(TorConfig {
        mode: Some("socks5".to_string()),
        socks5_addr: Some("127.0.0.1:9050".to_string()),
        directory_service: Some(DirectoryServiceConfig::default()),
        ..Default::default()
    });
    let err = message(transport.begin_start().unwrap_err());
    assert!(err.contains("directory"));
}

#[test]
fn test_control_port_start_stop() {
    let mut transport = make_transport(TorConfig {
        mode: Some("control_port".to_string()),
        socks5_addr: Some("127.0.0.1:19050".to_string()),
        control_addr: Some("127.0.0.1:9051".to_string()),
        control_auth: Some("password:testpass".to_string()),
        ..Default::default()
    });
    assert_eq!(transport.begin_start().unwrap(), StartStep::ConnectControl);
    transport
        .finish_control_start(ControlOutcome::Connected)
        .unwrap();
    assert_eq!(transport.state(), TransportState::Up);
    assert!(transport.onion_address().is_none());
    assert!(!transport.accept_connections());

    transport.stop_all().unwrap();
    assert!(!transport.has_control);
}

#[test]
fn control_port_failures_are_told_apart() {
    let mut transport = make_transport(TorConfig {
        mode: Some("control_port".to_string()),
        ..Default::default()
    });
    assert_eq!(transport.begin_start().unwrap(), StartStep::ConnectControl);
    let failed = transport.finish_control_start(ControlOutcome::ConnectFailed("a".to_string()));
    assert_eq!(message(failed.unwrap_err()), "Tor control port: a");
    let config = transport.finish_control_start(ControlOutcome::AuthConfigInvalid("b".to_string()));
    assert_eq!(message(config.unwrap_err()), "Tor auth config: b");
    let auth = transport.finish_control_start(ControlOutcome::AuthFailed("c".to_string()));
    assert_eq!(message(auth.unwrap_err()), "Tor authentication: c");
    assert_eq!(transport.stats().snapshot().control_errors, 2);
    let mut invalid = make_transport(TorConfig {
        mode: Some("control_port".to_string()),
        control_addr: Some("nowhere".to_string()),
        ..Default::default()
    });
    assert!(invalid.begin_start().is_err());
}

#[test]
fn test_directory_mode_start_stop() {
    let mut transport = make_transport(directory_config());
    assert_eq!(transport.begin_start().unwrap(), StartStep::ReadHostname);
    transport
        .take_hostname(&Ok(format!("{}\n", ONION)))
        .unwrap();
    transport
        .finish_directory_start(ListenOutcome::Listening)
        .unwrap();
    assert_eq!(transport.state(), TransportState::Up);
    assert_eq!(transport.onion_address(), Some(ONION));
    assert!(transport.accept_connections());
    assert!(!transport.wants_control_port());

    transport.stop_all().unwrap();
    assert_eq!(transport.state(), TransportState::Down);
    assert!(transport.onion_address().is_none());
    assert!(!transport.accept_connections());
}

#[test]
fn test_directory_mode_missing_hostname_file() {
    let mut transport = make_transport(TorConfig {
        directory_service: Some(DirectoryServiceConfig {
            hostname_file: Some("/nonexistent/hostname".to_string()),
            bind_addr: Some("127.0.0.1:0".to_string()),
        }),
        ..directory_config()
    });
    transport.begin_start().unwrap();
    let result = transport.take_hostname(&Err("No such file".to_string()));
    let err = message(result.unwrap_err());
    assert!(err.contains("hostname"));
    assert!(err.contains("/nonexistent/hostname"));
}

#[test]
fn test_directory_mode_invalid_hostname() {
    let mut transport = make_transport(directory_config());
    transport.begin_start().unwrap();
    let result = transport.take_hostname(&Ok("not-an-onion-address\n".to_string()));
    let err = message(result.unwrap_err());
    assert!(err.contains("invalid onion address"));
    assert!(read_onion_hostname("f", &Ok("  \n".to_string())).is_err());
}

#[test]
fn test_directory_mode_accept_inbound() {
    let mut transport = make_transport(TorConfig {
        max_inbound_connections: Some(1),
        ..directory_config()
    });
    transport.begin_start().unwrap();
    transport.take_hostname(&Ok(ONION.to_string())).unwrap();
    transport
        .finish_directory_start(ListenOutcome::Listening)
        .unwrap();
    assert!(transport.accept_connections());

    assert!(transport.admit_inbound());
    let peer = SocketAddr::parse("127.0.0.1:40000").unwrap();
    let addr = transport.accept_inbound(peer, 5);
    assert_eq!(addr.as_str(), Some("127.0.0.1:40000"));
    assert!(!transport.admit_inbound());
    let stats = transport.stats().snapshot();
    assert_eq!(stats.connections_accepted, 1);
    assert_eq!(stats.connections_rejected, 1);
    assert_eq!(stats.pool_inbound, 1);

    transport.stop_all().unwrap();
    assert_eq!(transport.stats().snapshot().pool_inbound, 0);
}

#[test]
fn listeners_can_fail() {
    let mut transport = make_transport(directory_config());
    transport.begin_start().unwrap();
    let bind = transport.finish_directory_start(ListenOutcome::BindFailed("taken".to_string()));
    assert_eq!(
        message(bind.unwrap_err()),
        "failed to bind directory-mode listener on 127.0.0.1:0: taken"
    );
    let addr = transport.finish_directory_start(ListenOutcome::NoLocalAddr("gone".to_string()));
    assert_eq!(
        message(addr.unwrap_err()),
        "failed to get local addr: gone"
    );
    assert!(!transport.accept_connections());
}

#[test]
fn the_control_port_is_optional_in_directory_mode() {
    let mut transport = make_transport(TorConfig {
        control_addr: Some("./control".to_string()),
        ..directory_config()
    });
    assert!(transport.wants_control_port());
    transport.control_attempt_ended(&ControlOutcome::AuthFailed("no".to_string()));
    assert!(!transport.has_control);
    transport.control_attempt_ended(&ControlOutcome::Connected);
    assert!(transport.has_control);
    let invalid = make_transport(TorConfig {
        control_addr: Some("nowhere".to_string()),
        ..directory_config()
    });
    assert!(!invalid.wants_control_port());
}

// ---------------------------------------------------------------------------
// Connections
// ---------------------------------------------------------------------------

#[test]
fn test_send_recv_via_socks5() {
    let mut transport = started(make_config());
    let target = TransportAddr::from_string("127.0.0.1:2121");
    let frame = vec![0xAA; 114];
    match transport.route_packet(&target, frame.len()) {
        Ok(SendRoute::Connect(TorAddr::Clearnet(addr))) => {
            assert_eq!(addr, SocketAddr::parse("127.0.0.1:2121").unwrap())
        }
        other => panic!("unexpected {:?}", other),
    }
    transport
        .connect_ended(&target, 9, ConnectOutcome::Connected)
        .unwrap();
    assert!(matches!(
        transport.route_packet(&target, frame.len()),
        Ok(SendRoute::Pooled(9))
    ));
    assert_eq!(transport.finish_send(&target, 114, Ok(())).unwrap(), 114);

    let received = transport.packet_read(&target, frame.clone(), 3);
    assert_eq!(received.data, frame);
    assert_eq!(received.remote_addr.as_str(), Some("127.0.0.1:2121"));
    let stats = transport.stats().snapshot();
    assert_eq!(stats.packets_sent, 1);
    assert_eq!(stats.bytes_sent, 114);
    assert_eq!(stats.packets_recv, 1);
    assert_eq!(stats.bytes_recv, 114);
    transport.stop_all().unwrap();
}

#[test]
fn test_socks5_proxy_down() {
    let mut transport = started(make_config());
    let addr = TransportAddr::from_string("192.168.1.1:2121");
    assert!(matches!(
        transport.connect_ended(&addr, 1, ConnectOutcome::Refused),
        Err(TransportError::ConnectionRefused)
    ));
    assert_eq!(transport.stats().snapshot().socks5_errors, 1);
}

#[test]
fn test_connect_timeout() {
    let mut transport = started(make_config());
    let addr = TransportAddr::from_string("10.0.0.1:2121");
    assert!(matches!(
        transport.connect_ended(&addr, 1, ConnectOutcome::TimedOut),
        Err(TransportError::Timeout)
    ));
    assert_eq!(transport.stats().snapshot().connect_timeouts, 1);
    let setup = transport.connect_ended(
        &addr,
        1,
        ConnectOutcome::SetupFailed("set nodelay: no".to_string()),
    );
    assert_eq!(message(setup.unwrap_err()), "set nodelay: no");
    assert!(connect_result(ConnectOutcome::Connected).is_ok());
}

#[test]
fn test_close_connection() {
    let mut transport = started(make_config());
    let target = TransportAddr::from_string("127.0.0.1:2121");
    transport
        .connect_ended(&target, 4, ConnectOutcome::Connected)
        .unwrap();
    assert_eq!(transport.pool.len(), 1);
    assert_eq!(transport.stats().snapshot().pool_outbound, 1);
    assert_eq!(transport.stats().snapshot().pool_inbound, 0);

    assert_eq!(transport.close_connection(&target), Some(4));
    assert_eq!(transport.close_connection(&target), None);
    assert_eq!(transport.pool.len(), 0);
    assert_eq!(transport.stats().snapshot().pool_outbound, 0);

    transport.stop_all().unwrap();
}

#[test]
fn broken_connections_leave_the_pool() {
    let mut transport = started(make_config());
    let one = TransportAddr::from_string("127.0.0.1:1");
    let two = TransportAddr::from_string("127.0.0.1:2");
    transport
        .connect_ended(&one, 1, ConnectOutcome::Connected)
        .unwrap();
    transport
        .connect_ended(&two, 2, ConnectOutcome::Connected)
        .unwrap();
    assert!(matches!(
        transport.finish_send(&one, 10, Err("broken pipe".to_string())),
        Err(TransportError::SendFailed(reason)) if reason == "broken pipe"
    ));
    assert!(!transport.pool.contains(&one));
    transport.receive_ended(&two, 9, false);
    assert!(transport.pool.contains(&two), "another connection's reader ended");
    assert_eq!(transport.stats().snapshot().pool_outbound, 1);
    transport.receive_ended(&two, 2, true);
    assert!(transport.pool.is_empty());
    let stats = transport.stats().snapshot();
    assert_eq!(stats.send_errors, 1);
    assert_eq!(stats.recv_errors, 1);
    assert_eq!(stats.pool_outbound, 0);
}

#[test]
fn background_connections_are_promoted() {
    let mut transport = started(make_config());
    let addr = TransportAddr::from_string("a.onion:1");
    assert!(matches!(
        transport.begin_connect(&addr, 8),
        Ok(BackgroundConnect::Spawn(TorAddr::Onion(_, 1)))
    ));
    assert!(matches!(
        transport.begin_connect(&addr, 9),
        Ok(BackgroundConnect::Nothing)
    ));
    assert_eq!(transport.connecting_task(&addr), Some(8));
    assert!(matches!(
        transport.connection_state_sync(&addr, IDLE, TaskProgress::Running),
        ConnectionState::Connecting
    ));
    let busy = BusyPools {
        connecting: true,
        ..IDLE
    };
    assert!(matches!(
        transport.connection_state_sync(&addr, busy, TaskProgress::Made(3)),
        ConnectionState::Connecting
    ));
    assert!(matches!(
        transport.connection_state_sync(&addr, IDLE, TaskProgress::Made(3)),
        ConnectionState::Connected
    ));
    assert_eq!(transport.connecting_task(&addr), None);
    assert_eq!(transport.pool.get(&addr).map(|c| c.id), Some(3));
    assert_eq!(transport.stats().snapshot().connections_established, 1);
}

#[test]
fn background_connections_can_fail() {
    let mut transport = started(make_config());
    let addr = TransportAddr::from_string("a.onion:1");
    transport.begin_connect(&addr, 8).unwrap();
    match transport.connection_state_sync(&addr, IDLE, TaskProgress::Broken("panic".to_string())) {
        ConnectionState::Failed(reason) => assert_eq!(reason, "task failed: panic"),
        other => panic!("unexpected {:?}", other),
    }
    assert!(matches!(
        transport.connection_state_sync(&addr, IDLE, TaskProgress::Running),
        ConnectionState::Absent
    ));
    transport.begin_connect(&addr, 9).unwrap();
    assert!(matches!(
        transport.connection_state_sync(&addr, IDLE, TaskProgress::Failed("x".to_string())),
        ConnectionState::Failed(reason) if reason == "x"
    ));
    assert!(transport
        .begin_connect(&TransportAddr::from_string("bare"), 10)
        .is_err());
}

// ---------------------------------------------------------------------------
// Statistics and monitoring
// ---------------------------------------------------------------------------

#[test]
fn gauges_follow_the_pool() {
    let mut stats = TorStats::new();
    stats.record_pooled(Direction::Inbound);
    stats.record_pooled(Direction::Outbound);
    stats.record_pooled(Direction::Outbound);
    stats.record_unpooled(Direction::Outbound);
    assert_eq!(stats.pool_inbound_count(), 1);
    let snapshot = stats.snapshot();
    assert_eq!(snapshot.pool_outbound, 1);
    assert_eq!(snapshot.connections_accepted, 1);
    assert_eq!(snapshot.connections_established, 2);
}

fn info(bootstrap: u8, liveness: &str, dormant: bool) -> TorMonitoringInfo {
    TorMonitoringInfo {
        bootstrap,
        network_liveness: liveness.to_string(),
        dormant,
    }
}

#[test]
fn milestones_and_stalls_are_reported_once() {
    let mut monitor = TorMonitor::new();
    let first = monitor.observe(&info(60, "up", false), SECOND);
    assert_eq!(first.milestones, vec![25, 50]);
    assert!(!first.stalled && !first.liveness_changed && !first.became_dormant);
    let second = monitor.observe(&info(60, "down", true), 61 * SECOND);
    assert!(second.milestones.is_empty());
    assert!(second.stalled && second.liveness_changed && second.became_dormant);
    let third = monitor.observe(&info(60, "down", true), 71 * SECOND);
    assert!(!third.stalled && !third.liveness_changed && !third.became_dormant);
    let done = monitor.observe(&info(100, "up", false), 81 * SECOND);
    assert_eq!(done.milestones, vec![75, 100]);
}

#[test]
fn the_daemon_is_watched() {
    let mut transport = started(make_config());
    let mut monitor = TorMonitor::new();
    assert!(transport.cached_monitoring().is_none());
    assert!(transport
        .daemon_asked(&mut monitor, None, SECOND)
        .is_none());
    assert_eq!(transport.stats().snapshot().control_errors, 1);
    let report = transport.daemon_asked(&mut monitor, Some(info(100, "up", false)), SECOND);
    assert_eq!(report.unwrap().milestones, vec![25, 50, 75, 100]);
    assert_eq!(transport.cached_monitoring().unwrap().bootstrap, 100);
    transport.stop_all().unwrap();
    assert!(transport.cached_monitoring().is_none());
}

#[test]
fn each_address_has_circuits_of_its_own() {
    let one = proxy_login(&TransportAddr::from_string("a.onion:1"));
    assert_eq!(one.user, "fips");
    assert_eq!(one.password, "a.onion:1");
    let other = proxy_login(&TransportAddr::from_string("a.onion:2"));
    assert_eq!(other.user, "fips");
    assert_ne!(one.password, other.password);
}
