//! UDP: receiving, sending in batches, sockets and statistics.

use fips_transport::addr::{IpAddr, SocketAddr, TransportAddr, TransportId};
use fips_transport::udp::drain::{
    after_poll, after_read, dispatch_ready_packets, keep_packet, order_for_delivery, AfterRead,
    ConnectedUdpDrainPacket, ConnectedUdpKernelDropSampler, ConnectedUdpPacketFastPathBatcher,
    DrainStep, FastPathHistory, PollEvents, PollOutcome, ReadOutcome,
    CONNECTED_UDP_PRIORITY_MAX_LEN,
};
use fips_transport::udp::gso::{
    choose_send_method, is_udp_gso_capability_error, plan_gso_batch, plan_send_batch, send_ended,
    udp_gso_prefix_len, GsoErrnos, Payload, PayloadBatch, SendMethod, SendProgress,
};
use fips_transport::udp::receive::{
    after_delivery, batch_drops, check_reported_lengths, is_punch_packet, packet_buf_size,
    parse_linux_recv_cmsgs, receive_batch, recv_batch_width, recv_buf_size,
    sockaddr_to_socket_addr, udp_gro_segment_count, AddrCache, ControlMessage, KernelAddr,
    LinuxRecvCmsgs, ReceiveSlot, ReceiveStep, UDP_RECV_BATCH_SIZE,
};
use fips_transport::udp::service_type::{
    chosen_service_type, default_service_type, parse_net_service_type, NetServiceType,
    VPN_SERVICE_TYPE,
};
use fips_transport::udp::snmp::{
    parse_proc_net_snmp_udp_rcvbuf_errors, LinuxUdpRcvbufErrorSnapshot,
    LINUX_UDP_RCVBUF_ERRORS_POLL_INTERVAL,
};
use fips_transport::udp::socket::{
    bind_failed, buffer_size_read, local_addr_read, start_failed, wants_forced_buffer, UdpRawSocket,
};
use fips_transport::udp::stats::{UdpStats, UdpStatsSnapshot};
use fips_transport::error::TransportError;

const SECOND: u64 = 1_000_000_000;

fn numeric(text: &str) -> SocketAddr {
    SocketAddr::parse(text).unwrap()
}

fn batch(payloads: Vec<Vec<&[u8]>>) -> PayloadBatch {
    PayloadBatch {
        payloads: payloads
            .into_iter()
            .map(|slices| Payload::new(slices.into_iter().map(Vec::from).collect()))
            .collect(),
    }
}

// ---------------------------------------------------------------------------
// Service types
// ---------------------------------------------------------------------------

#[test]
fn parses_service_type_aliases() {
    assert_eq!(parse_net_service_type("off").unwrap(), None);
    assert_eq!(parse_net_service_type("default").unwrap(), None);
    assert_eq!(
        parse_net_service_type("vpn").unwrap(),
        Some(VPN_SERVICE_TYPE)
    );
    let video = parse_net_service_type("interactive_video").unwrap().unwrap();
    assert_eq!(video.name(), "vi");
    assert_eq!(video.value(), 3);
    let data = parse_net_service_type("responsive-data").unwrap().unwrap();
    assert_eq!(data.name(), "rd");
    assert_eq!(data.value(), 8);
    assert!(parse_net_service_type("wat").is_err());
}

#[test]
fn default_service_type_is_responsive_data() {
    let chosen = default_service_type().unwrap();
    assert_eq!(chosen.name(), "rd");
    assert_eq!(chosen.value(), 8);
}

#[test]
fn service_type_settings_are_folded() {
    assert_eq!(
        parse_net_service_type(" \tBest-Effort \n"),
        Ok(Some(NetServiceType::BestEffort))
    );
    assert_eq!(parse_net_service_type("   "), Ok(None));
    assert_eq!(chosen_service_type(Some("wat")), default_service_type());
    assert_eq!(chosen_service_type(Some("none")), None);
    assert_eq!(chosen_service_type(None), default_service_type());
}

// ---------------------------------------------------------------------------
// Draining a connected socket
// ---------------------------------------------------------------------------

struct OrderRecordingBatcher {
    seen: Vec<usize>,
    flushed: usize,
    takes: bool,
}

impl ConnectedUdpPacketFastPathBatcher for OrderRecordingBatcher {
    fn history(&self) -> FastPathHistory {
        unreachable!("only specifications speak of the history")
    }

    fn try_dispatch(
        &mut self,
        _transport_id: TransportId,
        _remote_addr: TransportAddr,
        packet_data: Vec<u8>,
        _timestamp_ms: u64,
    ) -> Result<(), Vec<u8>> {
        self.seen.push(packet_data.len());
        if self.takes {
            Ok(())
        } else {
            Err(packet_data)
        }
    }

    fn flush(&mut self) {
        self.flushed += 1;
    }
}

#[test]
fn dispatch_prioritizes_local_control_lane_before_bulk_lane() {
    let packet_addr = TransportAddr::from_socket_addr(numeric("127.0.0.1:12345"));
    let priority_len = 8;
    let bulk_len = CONNECTED_UDP_PRIORITY_MAX_LEN + 1;
    let ready = vec![
        ConnectedUdpDrainPacket {
            data: vec![0x11; priority_len],
            timestamp_ms: 1,
        },
        ConnectedUdpDrainPacket {
            data: vec![0x22; bulk_len],
            timestamp_ms: 1,
        },
    ];
    let mut batcher = OrderRecordingBatcher {
        seen: Vec::new(),
        flushed: 0,
        takes: false,
    };

    let packets =
        dispatch_ready_packets(ready, TransportId::new(42), &packet_addr, Some(&mut batcher));

    assert_eq!(batcher.seen, vec![priority_len, bulk_len]);
    assert_eq!(packets.len(), 2);
}

#[test]
fn control_traffic_overtakes_bulk_traffic() {
    let datagrams = vec![
        vec![0x22; 600],
        vec![0x11; 8],
        Vec::new(),
        vec![0x4E, 0x50, 0x54, 0x43],
        vec![0x33; 512],
        vec![0x44; 513],
    ];
    let ready = order_for_delivery(datagrams, 77);
    let lens: Vec<usize> = ready.iter().map(|packet| packet.data.len()).collect();
    assert_eq!(lens, vec![8, 512, 600, 513]);
    assert!(ready.iter().all(|packet| packet.timestamp_ms == 77));
}

#[test]
fn drain_flushes_connected_udp_fast_path_batches() {
    let addr = TransportAddr::from_string("127.0.0.1:1");
    let mut batcher = OrderRecordingBatcher {
        seen: Vec::new(),
        flushed: 0,
        takes: true,
    };
    let datagrams: Vec<Vec<u8>> = (0u8..5).map(|i| vec![i, 0xDD, 0xEE, 0xFF]).collect();
    let ready = order_for_delivery(datagrams, 1);
    let left = dispatch_ready_packets(ready, TransportId::new(42), &addr, Some(&mut batcher));
    assert_eq!(batcher.seen.len(), 5);
    assert_eq!(batcher.flushed, 1);
    assert!(
        left.is_empty(),
        "fast-path-consumed packets must not also enter PacketRx"
    );
}

/// Takes every second packet.
struct AlternatingBatcher {
    events: Vec<(u8, bool)>,
    flushed: usize,
}

impl ConnectedUdpPacketFastPathBatcher for AlternatingBatcher {
    fn history(&self) -> FastPathHistory {
        unreachable!("only specifications speak of the history")
    }

    fn try_dispatch(
        &mut self,
        _transport_id: TransportId,
        _remote_addr: TransportAddr,
        packet_data: Vec<u8>,
        _timestamp_ms: u64,
    ) -> Result<(), Vec<u8>> {
        let taken = self.events.len() % 2 == 0;
        self.events.push((packet_data[0], taken));
        if taken {
            Ok(())
        } else {
            Err(packet_data)
        }
    }

    fn flush(&mut self) {
        self.flushed += 1;
    }
}

#[test]
fn packets_that_the_fast_path_takes_do_not_come_back() {
    let addr = TransportAddr::from_string("127.0.0.1:1");
    let mut batcher = AlternatingBatcher { events: Vec::new(), flushed: 0 };
    let datagrams: Vec<Vec<u8>> = (0u8..5).map(|i| vec![i, 0x11]).collect();
    let ready = order_for_delivery(datagrams, 1);
    let packets = dispatch_ready_packets(ready, TransportId::new(42), &addr, Some(&mut batcher));
    assert_eq!(
        batcher.events,
        vec![(0, true), (1, false), (2, true), (3, false), (4, true)]
    );
    assert_eq!(batcher.flushed, 1);
    let kept: Vec<u8> = packets.iter().map(|packet| packet.data[0]).collect();
    assert_eq!(kept, vec![1, 3]);
}

#[test]
fn drain_routes_fast_path_ineligible_packets_to_packet_rx() {
    let addr = TransportAddr::from_string("127.0.0.1:1");
    let mut batcher = OrderRecordingBatcher {
        seen: Vec::new(),
        flushed: 0,
        takes: false,
    };
    let datagrams: Vec<Vec<u8>> = (0u8..3).map(|i| vec![i, 0x11, 0x22, 0x33]).collect();
    let ready = order_for_delivery(datagrams, 1);
    let packets = dispatch_ready_packets(ready, TransportId::new(42), &addr, Some(&mut batcher));
    for (i, packet) in packets.iter().enumerate() {
        assert_eq!(packet.transport_id, TransportId::new(42));
        assert_eq!(packet.data, vec![i as u8, 0x11, 0x22, 0x33]);
    }
    assert_eq!(packets.len(), 3);
}

#[test]
fn drain_delivers_packets_to_packet_tx() {
    let addr = TransportAddr::from_string("127.0.0.1:1");
    let datagrams: Vec<Vec<u8>> = (0u8..5).map(|i| vec![i, 0xAA, 0xBB, 0xCC]).collect();
    let ready = order_for_delivery(datagrams, 1);
    let no_fast_path: Option<&mut OrderRecordingBatcher> = None;
    let packets = dispatch_ready_packets(ready, TransportId::new(42), &addr, no_fast_path);
    for i in 0u8..5 {
        let packet = &packets[i as usize];
        assert_eq!(packet.transport_id, TransportId::new(42));
        assert_eq!(packet.data.len(), 4);
        assert_eq!(packet.data[0], i, "packet {} payload mismatch", i);
        assert_eq!(packet.remote_addr.as_str(), Some("127.0.0.1:1"));
    }
}

#[test]
fn packets_that_come_back_are_kept() {
    let addr = TransportAddr::from_string("peer");
    let mut packets = Vec::new();
    keep_packet(None, TransportId::new(1), &addr, 5, &mut packets);
    assert!(packets.is_empty());
    keep_packet(Some(vec![9]), TransportId::new(1), &addr, 5, &mut packets);
    assert_eq!(packets.len(), 1);
    assert_eq!(packets[0].data, vec![9]);
    assert_eq!(packets[0].timestamp_ms, 5);
}

fn events() -> PollEvents {
    PollEvents {
        stop_pipe: false,
        invalid: false,
        hung_up: false,
        error: false,
        readable: false,
    }
}

#[test]
fn socket_error_is_consumed_so_poll_does_not_spin() {
    let failing = PollEvents {
        error: true,
        ..events()
    };
    assert_eq!(
        after_poll(false, PollOutcome::Ready(failing)),
        DrainStep::TakeError { read: false }
    );
    let readable = PollEvents {
        error: true,
        readable: true,
        ..events()
    };
    assert_eq!(
        after_poll(false, PollOutcome::Ready(readable)),
        DrainStep::TakeError { read: true }
    );
}

#[test]
fn dropping_idle_drain_returns_promptly() {
    let stopped = PollEvents {
        stop_pipe: true,
        readable: true,
        ..events()
    };
    assert_eq!(
        after_poll(true, PollOutcome::Ready(stopped)),
        DrainStep::Exit
    );
    assert_eq!(
        after_poll(false, PollOutcome::Ready(stopped)),
        DrainStep::Read
    );
    assert_eq!(
        after_poll(false, PollOutcome::Ready(events())),
        DrainStep::PollAgain
    );
    assert_eq!(
        after_poll(false, PollOutcome::Interrupted),
        DrainStep::PollAgain
    );
    assert_eq!(after_poll(false, PollOutcome::Failed), DrainStep::Exit);
}

#[test]
fn reading_ends_on_failure_only() {
    assert_eq!(after_read(ReadOutcome::Count(3)), AfterRead::Dispatch(3));
    assert_eq!(after_read(ReadOutcome::WouldBlock), AfterRead::PollAgain);
    assert_eq!(after_read(ReadOutcome::Failed), AfterRead::Exit);
}

#[test]
fn kernel_drops_are_sampled_now_and_then() {
    let mut sampler = ConnectedUdpKernelDropSampler::new(Some(u32::MAX), 0);
    assert!(!sampler.due(SECOND - 1));
    assert!(sampler.due(SECOND));
    assert_eq!(sampler.sample(Some(1), SECOND), Some(2));
    assert!(sampler.due(2 * SECOND));
    assert_eq!(sampler.sample(None, 2 * SECOND), None);
    assert!(!sampler.due(9 * SECOND));
    assert!(!ConnectedUdpKernelDropSampler::new(None, 0).due(9 * SECOND));
}

// ---------------------------------------------------------------------------
// Sockets
// ---------------------------------------------------------------------------

#[test]
fn test_udp_socket_bind() {
    // Bind to an ephemeral port
    let sock = UdpRawSocket::open(numeric("127.0.0.1:0"), 65536, 65536)
        .expect("failed to bind UDP socket");

    let addr = sock.local_addr();
    assert!(addr.port() > 0, "should be assigned an ephemeral port");
    assert!(addr.ip().is_loopback());
}

#[test]
fn test_udp_socket_buffer_sizes() {
    let sock = UdpRawSocket::open(numeric("127.0.0.1:0"), 65536, 65536)
        .expect("failed to bind UDP socket");

    let recv_buf = sock.recv_buffer_size().expect("get recv buffer");
    let send_buf = sock.send_buffer_size().expect("get send buffer");
    assert!(recv_buf > 0, "recv buffer should be non-zero");
    assert!(send_buf > 0, "send buffer should be non-zero");
}

#[test]
fn buffer_sizes_are_passed_on() {
    let size = buffer_size_read("get recv buffer: ", Ok(4096));
    assert!(matches!(size, Ok(4096)));
    match buffer_size_read("get send buffer: ", Err("no such option".to_string())) {
        Err(TransportError::StartFailed(reason)) => {
            assert_eq!(reason, "get send buffer: no such option");
        }
        other => panic!("expected StartFailed, got {other:?}"),
    }
}

#[test]
fn local_addresses_are_passed_on() {
    let addr = numeric("127.0.0.1:4871");
    assert!(matches!(local_addr_read(Ok(Some(addr))), Ok(read) if read == addr));
    assert!(matches!(
        local_addr_read(Ok(None)),
        Err(TransportError::StartFailed(reason)) if reason == "local address is not an IP socket"
    ));
    assert!(matches!(
        local_addr_read(Err("bad descriptor".to_string())),
        Err(TransportError::StartFailed(reason)) if reason == "get local addr: bad descriptor"
    ));
}

#[test]
fn sockets_keep_the_address_that_they_are_bound_to() {
    let first = UdpRawSocket::open(numeric("127.0.0.1:0"), 65536, 65536).unwrap();
    let addr = first.local_addr();
    assert_eq!(addr.ip(), numeric("127.0.0.1:0").ip());
    assert_eq!(first.local_addr(), addr);
    drop(first);
    let second = UdpRawSocket::open(addr, 65536, 65536).unwrap();
    assert_eq!(second.local_addr(), addr);
}

#[test]
fn bound_address_is_reported_as_in_use() {
    let owner = UdpRawSocket::open_exclusive(numeric("127.0.0.1:0"), 65536, 65536).unwrap();
    let taken = owner.local_addr();
    match UdpRawSocket::open_exclusive(taken, 65536, 65536) {
        Err(TransportError::AddressInUse { address, .. }) => assert_eq!(address, taken),
        other => panic!("expected AddressInUse, got {:?}", other.is_ok()),
    }
}

#[test]
fn bound_sockets_can_be_adopted() {
    let socket = socket2::Socket::new(
        socket2::Domain::IPV6,
        socket2::Type::DGRAM,
        Some(socket2::Protocol::UDP),
    );
    if let Ok(socket) = socket {
        let any = "[::1]:0".parse::<core::net::SocketAddr>().unwrap();
        if socket.bind(&any.into()).is_ok() {
            let adopted = UdpRawSocket::adopt(socket, 65536, 65536).unwrap();
            assert!(!adopted.local_addr().ip().is_ipv4());
            assert!(adopted.local_addr().port() > 0);
        }
    }
}

#[test]
fn bind_failures_name_the_address() {
    let addr = numeric("127.0.0.1:9");
    match bind_failed(addr, true, "taken".to_string()) {
        TransportError::AddressInUse { address, reason } => {
            assert_eq!(address, addr);
            assert_eq!(reason, "taken");
        }
        other => panic!("unexpected {:?}", other),
    }
    match start_failed("bind failed: ", "no route") {
        TransportError::StartFailed(message) => assert!(message.ends_with("no route")),
        other => panic!("unexpected {:?}", other),
    }
    assert!(wants_forced_buffer(100, 99));
    assert!(!wants_forced_buffer(100, 100));
}

// ---------------------------------------------------------------------------
// Segmented sends
// ---------------------------------------------------------------------------

#[test]
fn udp_gso_prefix_accepts_vectored_equal_len_payloads() {
    let payloads = batch(vec![
        vec![b"DFP1".as_slice(), b"aaaaaaaa".as_slice()],
        vec![b"DFP1".as_slice(), b"bbbbbbbb".as_slice()],
        vec![b"DFP1".as_slice(), b"cccccccc".as_slice()],
    ]);

    assert_eq!(udp_gso_prefix_len(&payloads, 0, 64), 3);
}

#[test]
fn udp_gso_prefix_stops_before_longer_vectored_payload() {
    let payloads = batch(vec![
        vec![b"DFP1".as_slice(), b"aaaa".as_slice()],
        vec![b"DFP1".as_slice(), b"bbbbbbbb".as_slice()],
    ]);

    assert_eq!(udp_gso_prefix_len(&payloads, 0, 64), 0);
}

#[test]
fn udp_gso_prefix_preserves_short_tail_segment() {
    let payloads = batch(vec![
        vec![b"DFP1".as_slice(), b"aaaaaaaa".as_slice()],
        vec![b"DFP1".as_slice(), b"bbbbbbbb".as_slice()],
        vec![b"DFP1".as_slice(), b"cc".as_slice()],
        vec![b"DFP1".as_slice(), b"dddddddd".as_slice()],
    ]);

    assert_eq!(udp_gso_prefix_len(&payloads, 0, 64), 3);
}

/// Two ends between which the kernel carries datagrams in order, standing for
/// two bound UDP sockets where no network is up.
struct Wire {
    near: socket2::Socket,
    far: socket2::Socket,
    source: SocketAddr,
}

impl Wire {
    fn new() -> Wire {
        let bound = UdpRawSocket::open(numeric("127.0.0.1:0"), 65536, 65536)
            .expect("failed to bind UDP socket");
        let (near, far) =
            socket2::Socket::pair(socket2::Domain::UNIX, socket2::Type::DGRAM, None)
                .expect("a pair of datagram sockets");
        let limit = Some(core::time::Duration::from_secs(10));
        far.set_read_timeout(limit).expect("read timeout");
        Wire { near, far, source: bound.local_addr() }
    }

    fn send(&self, data: &[u8]) {
        assert_eq!(self.near.send(data).expect("send"), data.len());
    }

    /// Reads one datagram into a buffer of the given size.
    fn receive(&self, capacity: usize) -> ReceiveSlot {
        let mut data = vec![0u8; capacity];
        let len = std::io::Read::read(&mut &self.far, &mut data).expect("recv");
        assert!(check_reported_lengths(&vec![len], &vec![capacity]).is_ok());
        data.truncate(len);
        ReceiveSlot {
            data,
            source: Some(self.source),
            gro_segment_size: 0,
        }
    }
}

#[test]
fn send_batch_to_sends_vectored_payloads() {
    let wire = Wire::new();
    let payloads = batch(vec![
        vec![b"DFP1".as_slice(), b"first".as_slice()],
        vec![b"second".as_slice()],
        vec![b"DFP1".as_slice(), b"third".as_slice()],
    ]);

    for gso_disabled in [false, true] {
        let mut sent = 0;
        let mut methods = Vec::new();
        let total = loop {
            let method = choose_send_method(&payloads, 0, sent, gso_disabled);
            methods.push(method);
            let count = match method {
                SendMethod::Nothing => 0,
                SendMethod::Segmented(count) => {
                    assert!(plan_gso_batch(&payloads, sent, count).is_ok());
                    count
                }
                SendMethod::Batched(count) => {
                    plan_send_batch(&payloads, sent, count).expect("plan batch")
                }
            };
            for index in sent..sent + count {
                let mut datagram = Vec::new();
                payloads.copy_payload_into(index, &mut datagram);
                wire.send(&datagram);
            }
            match send_ended(&payloads, 0, sent, method, Some(count)) {
                SendProgress::Continue { sent: after } => sent = after,
                SendProgress::Finished { sent: total } => break total,
                SendProgress::Failed => panic!("send batch"),
            }
        };
        assert_eq!(total, payloads.payloads.len());
        if gso_disabled {
            assert_eq!(methods, vec![SendMethod::Batched(3)]);
        } else {
            assert_eq!(methods, vec![SendMethod::Segmented(2), SendMethod::Batched(1)]);
        }

        for expected in [
            b"DFP1first".as_slice(),
            b"second".as_slice(),
            b"DFP1third".as_slice(),
        ] {
            assert_eq!(wire.receive(1024).data, expected.to_vec());
        }
    }
}

#[test]
fn batches_are_planned_from_where_they_stand() {
    let payloads = batch(vec![
        vec![b"hello ".as_slice(), b"one".as_slice()],
        vec![b"hello ".as_slice(), b"two".as_slice()],
        vec![b"bye".as_slice()],
    ]);
    assert_eq!(
        choose_send_method(&payloads, 0, 0, false),
        SendMethod::Segmented(3)
    );
    assert_eq!(choose_send_method(&payloads, 0, 0, true), SendMethod::Batched(3));
    assert_eq!(choose_send_method(&payloads, 0, 2, false), SendMethod::Batched(1));
    assert_eq!(choose_send_method(&payloads, 2, 0, false), SendMethod::Batched(1));
    assert_eq!(choose_send_method(&payloads, 2, 1, false), SendMethod::Nothing);
    assert_eq!(choose_send_method(&payloads, 3, 0, false), SendMethod::Nothing);
    assert_eq!(plan_send_batch(&payloads, 0, 3), Ok(3));
    assert_eq!(plan_send_batch(&payloads, 1, 300), Ok(2));
    assert_eq!(plan_send_batch(&payloads, 1, 1), Ok(1));
    assert_eq!(plan_gso_batch(&payloads, 0, 3).unwrap().len(), 5);
    let mut whole = vec![9];
    payloads.copy_payload_into(1, &mut whole);
    assert_eq!(whole, b"hello two".to_vec());
}

#[test]
fn calls_end_with_what_left() {
    let many = batch((0..300).map(|_| vec![b"same".as_slice()]).collect());
    let segmented = choose_send_method(&many, 0, 0, false);
    assert_eq!(segmented, SendMethod::Segmented(64));
    assert_eq!(
        send_ended(&many, 0, 0, segmented, Some(64)),
        SendProgress::Continue { sent: 64 }
    );
    assert_eq!(
        send_ended(&many, 0, 192, segmented, Some(64)),
        SendProgress::Finished { sent: 256 }
    );
    assert_eq!(choose_send_method(&many, 0, 256, false), SendMethod::Nothing);
    assert_eq!(choose_send_method(&many, 0, 250, false), SendMethod::Segmented(6));
    assert_eq!(choose_send_method(&many, 256, 0, true), SendMethod::Batched(44));
    assert_eq!(send_ended(&many, 0, 0, segmented, None), SendProgress::Failed);
    assert_eq!(
        send_ended(&many, 0, 64, segmented, None),
        SendProgress::Finished { sent: 64 }
    );
    let batched = SendMethod::Batched(44);
    assert_eq!(
        send_ended(&many, 256, 0, batched, Some(40)),
        SendProgress::Finished { sent: 40 }
    );
    assert_eq!(send_ended(&many, 256, 0, batched, None), SendProgress::Failed);
    assert_eq!(
        send_ended(&many, 300, 0, SendMethod::Nothing, Some(0)),
        SendProgress::Finished { sent: 0 }
    );
}

#[test]
fn segmentation_is_given_up_when_the_kernel_cannot_do_it() {
    let errnos = GsoErrnos {
        eopnotsupp: 95,
        enoprotoopt: 92,
        eio: 5,
    };
    assert!(is_udp_gso_capability_error(true, None, errnos));
    assert!(is_udp_gso_capability_error(false, Some(95), errnos));
    assert!(is_udp_gso_capability_error(false, Some(92), errnos));
    assert!(is_udp_gso_capability_error(false, Some(5), errnos));
    assert!(!is_udp_gso_capability_error(false, Some(11), errnos));
    assert!(!is_udp_gso_capability_error(false, None, errnos));
}

// ---------------------------------------------------------------------------
// Receiving
// ---------------------------------------------------------------------------

#[test]
fn udp_receive_batch_width_matches_dataplane_reference() {
    assert_eq!(UDP_RECV_BATCH_SIZE, 128);
}

#[test]
fn test_is_punch_packet_helper() {
    // PUNCH_MAGIC ("NPTC", be)
    assert!(is_punch_packet(&[0x4E, 0x50, 0x54, 0x43, 0xAA, 0xBB]));
    // PUNCH_ACK_MAGIC ("NPTA", be)
    assert!(is_punch_packet(&[0x4E, 0x50, 0x54, 0x41]));
    // Non-magic packet
    assert!(!is_punch_packet(&[0x01, 0x02, 0x03, 0x04]));
    // Too short
    assert!(!is_punch_packet(&[0x4E, 0x50, 0x54]));
    assert!(!is_punch_packet(&[]));
}

fn slot(data: Vec<u8>, gro_segment_size: usize) -> ReceiveSlot {
    ReceiveSlot {
        data,
        source: Some(numeric("192.0.2.7:2121")),
        gro_segment_size,
    }
}

#[test]
fn test_punch_probe_dropped() {
    let mut probe = vec![0u8; 16];
    probe[..4].copy_from_slice(&0x4E505443u32.to_be_bytes());
    let mut ack = vec![0u8; 16];
    ack[..4].copy_from_slice(&0x4E505441u32.to_be_bytes());
    let real = b"valid-fmp-frame".to_vec();

    let mut stats = UdpStats::new();
    let mut cache = AddrCache::new();
    let packets = receive_batch(
        vec![slot(probe, 0), slot(ack, 0), slot(real.clone(), 0)],
        3,
        1280,
        TransportId::new(1),
        99,
        &mut stats,
        &mut cache,
    );
    assert_eq!(packets.len(), 1, "punch probe/ack leaked through filter");
    assert_eq!(packets[0].data, real);
    assert_eq!(packets[0].remote_addr.as_str(), Some("192.0.2.7:2121"));
    assert_eq!(packets[0].timestamp_ms, 99);
    assert_eq!(stats.snapshot().kernel_drops, 3);
}

#[test]
fn coalesced_datagrams_are_split() {
    let mut stats = UdpStats::new();
    let mut cache = AddrCache::new();
    let packets = receive_batch(
        vec![slot(vec![1, 2, 3, 4, 5, 6, 7], 3)],
        0,
        1280,
        TransportId::new(1),
        0,
        &mut stats,
        &mut cache,
    );
    let parts: Vec<Vec<u8>> = packets.into_iter().map(|packet| packet.data).collect();
    assert_eq!(parts, vec![vec![1, 2, 3], vec![4, 5, 6], vec![7]]);
    assert_eq!(stats.snapshot().packets_recv, 1);
    assert_eq!(stats.snapshot().bytes_recv, 7);
    assert_eq!(udp_gro_segment_count(7, 3), 3);
    assert_eq!(udp_gro_segment_count(7, 0), 0);
}

#[test]
fn receive_buffers_have_slack() {
    assert_eq!(packet_buf_size(1280), 1380);
    assert_eq!(recv_buf_size(1280, false), 1380);
    assert_eq!(recv_buf_size(1280, true), 65_535);
    assert_eq!(recv_batch_width(500, 200, 130), 128);
    assert_eq!(recv_batch_width(500, 2, 130), 2);
}

#[test]
fn recv_batch_writes_into_vec_spare_capacity() {
    let wire = Wire::new();
    let mut stats = UdpStats::new();
    let mut cache = AddrCache::new();
    for sent in [b"first-packet".as_slice(), b"2".as_slice()] {
        wire.send(sent);
        let packets = receive_batch(
            vec![wire.receive(64)],
            0,
            1280,
            TransportId::new(1),
            7,
            &mut stats,
            &mut cache,
        );
        assert_eq!(packets.len(), 1);
        assert_eq!(packets[0].data, sent.to_vec(), "a batch holds what came with it alone");
        let source = TransportAddr::from_socket_addr(wire.source);
        assert!(packets[0].remote_addr.same(&source));
    }
    assert_eq!(stats.snapshot().packets_recv, 2);
    assert_eq!(stats.snapshot().bytes_recv, 13);
}

#[test]
fn reported_lengths_fit_their_buffers() {
    assert!(check_reported_lengths(&vec![10, 20], &vec![10, 20, 30]).is_ok());
    assert_eq!(
        check_reported_lengths(&vec![10, 21], &vec![10, 20]),
        Err("recvmmsg reported a datagram larger than the receive buffer".to_string())
    );
}

#[test]
fn receiving_ends_when_nobody_takes_packets() {
    assert_eq!(after_delivery(1, true), ReceiveStep::Stop);
    assert_eq!(after_delivery(0, true), ReceiveStep::Continue);
    assert_eq!(after_delivery(1, false), ReceiveStep::Continue);
}

#[test]
fn control_messages_are_read() {
    let parsed = parse_linux_recv_cmsgs(&vec![
        ControlMessage::Drops(4),
        ControlMessage::Drops(6),
    ]);
    assert_eq!(batch_drops(&vec![parsed]), 6);
    let with = |drops| LinuxRecvCmsgs { drops, gro_segment_size: 0 };
    assert_eq!(batch_drops(&vec![with(Some(3)), with(Some(5))]), 3);
    assert_eq!(batch_drops(&vec![with(None), with(Some(5)), with(Some(9))]), 5);
    assert_eq!(batch_drops(&vec![with(None), with(None)]), 0);
}

#[test]
fn link_local_source_keeps_scope_id() {
    let ip = "fe80::1".parse::<core::net::Ipv6Addr>().unwrap().to_bits();
    let addr = sockaddr_to_socket_addr(KernelAddr::Inet6 {
        v6: ip,
        port: 4871,
        scope_id: 42,
    })
    .unwrap();
    assert_eq!(
        addr,
        SocketAddr::V6 {
            ip,
            port: 4871,
            flowinfo: 0,
            scope_id: 42
        }
    );
}

#[test]
fn scoped_and_unscoped_addresses_are_distinct() {
    let ip = "fe80::1".parse::<core::net::Ipv6Addr>().unwrap().to_bits();
    let scoped = sockaddr_to_socket_addr(KernelAddr::Inet6 {
        v6: ip,
        port: 4871,
        scope_id: 42,
    })
    .unwrap();
    let unscoped = sockaddr_to_socket_addr(KernelAddr::Inet6 {
        v6: ip,
        port: 4871,
        scope_id: 0,
    })
    .unwrap();
    assert_ne!(scoped, unscoped);
}

#[test]
fn global_v6_and_v4_sources_are_unchanged() {
    let v6 = "2001:db8::1".parse::<core::net::Ipv6Addr>().unwrap().to_bits();
    assert_eq!(
        sockaddr_to_socket_addr(KernelAddr::Inet6 {
            v6,
            port: 4871,
            scope_id: 0
        })
        .unwrap(),
        SocketAddr::new(IpAddr::V6(v6), 4871)
    );
    let v4 = IpAddr::v4(192, 168, 8, 238);
    let bits = match v4 {
        IpAddr::V4(bits) => bits,
        IpAddr::V6(_) => panic!("an IPv4 address"),
    };
    assert_eq!(
        sockaddr_to_socket_addr(KernelAddr::Inet { v4: bits, port: 2121 }).unwrap(),
        SocketAddr::new(v4, 2121)
    );
    assert_eq!(
        sockaddr_to_socket_addr(KernelAddr::Other { family: 16 }),
        Err("unsupported address family: 16".to_string())
    );
}

// ---------------------------------------------------------------------------
// Statistics
// ---------------------------------------------------------------------------

#[test]
fn batch_and_scalar_updates_preserve_udp_stats_snapshot() {
    let mut stats = UdpStats::new();

    stats.record_send_batch(32, 45_120);
    stats.record_send(1410);
    stats.record_recv(1400);
    stats.record_send_error();
    stats.record_recv_error();
    stats.record_mtu_exceeded();
    stats.set_kernel_drops(7);

    let snapshot = stats.snapshot();
    assert_eq!(snapshot.packets_sent, 33);
    assert_eq!(snapshot.bytes_sent, 46_530);
    assert_eq!(snapshot.packets_recv, 1);
    assert_eq!(snapshot.bytes_recv, 1400);
    assert_eq!(snapshot.send_errors, 1);
    assert_eq!(snapshot.recv_errors, 1);
    assert_eq!(snapshot.mtu_exceeded, 1);
    assert_eq!(snapshot.kernel_drops, 7);
    assert_eq!(UdpStats::default().snapshot(), UdpStatsSnapshot::default());
}

#[test]
fn proc_net_snmp_udp_parser_reads_rcvbuf_errors() {
    let contents = "\
Ip: Forwarding DefaultTTL InReceives\n\
Ip: 1 64 123\n\
Udp: InDatagrams NoPorts InErrors OutDatagrams RcvbufErrors SndbufErrors InCsumErrors IgnoredMulti MemErrors\n\
Udp: 10 0 7 12 42 0 0 0 0\n\
";
    assert_eq!(parse_proc_net_snmp_udp_rcvbuf_errors(contents), Some(42));
    assert_eq!(
        parse_proc_net_snmp_udp_rcvbuf_errors("Udp: InDatagrams\n"),
        None
    );
}

#[test]
fn udp_namespace_drop_sampling_is_bounded_and_keeps_last_good_value() {
    let started_at = 1_000 * SECOND;
    let mut snapshot = LinuxUdpRcvbufErrorSnapshot::new(10, started_at);
    let mut reads = 0;

    assert_eq!(
        snapshot.namespace_drops(started_at + SECOND, || {
            reads += 1;
            Some(15)
        }),
        0
    );
    assert_eq!(
        reads, 0,
        "the one-second node tick must not read /proc/net/snmp"
    );

    assert_eq!(
        snapshot.namespace_drops(started_at + LINUX_UDP_RCVBUF_ERRORS_POLL_INTERVAL, || {
            reads += 1;
            Some(15)
        }),
        5
    );
    assert_eq!(reads, 1);

    assert_eq!(
        snapshot.namespace_drops(started_at + 11 * SECOND, || {
            reads += 1;
            Some(99)
        }),
        5
    );
    assert_eq!(reads, 1);

    assert_eq!(
        snapshot.namespace_drops(started_at + 20 * SECOND, || {
            reads += 1;
            None
        }),
        5,
        "a transient procfs read failure must retain the last observed count"
    );
    assert_eq!(reads, 2);
}
