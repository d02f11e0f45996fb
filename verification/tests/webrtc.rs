//! WebRTC: candidates, signals, offers, sessions and physical connections.

use fips_transport::addr::{IpAddr, TransportAddr, TransportId};
use fips_transport::error::{ConnectionState, TransportError, TransportState};
use fips_transport::rtc::candidate_policy::{
    address_scope_rank, is_preferred, is_usable_candidate, oper_status_rank,
    select_candidate_addresses, IfOperStatus, LocalCandidateAddress,
};
use fips_transport::rtc::candidates::{
    validate_embedded_ice_candidates, EmbeddedCandidateScope, EmbeddedRoutes, IceCandidate,
};
use fips_transport::rtc::channel::{
    begin_send, data_channel_closed, data_channel_opened, finish_send, peer_state_changed,
    ready_marker_failed, receive_channel_message, webrtc_peer_state_is_terminal,
    webrtc_ready_fallback, webrtc_ready_frame, ChannelOpened, PeerConnectionState, PeerTeardown,
    SendOutcome, TeardownAction,
};
use fips_transport::rtc::config::{
    WebRtcConfig, MAX_WEBRTC_CONFIG_CANDIDATE_SOCKETS, MAX_WEBRTC_HOST_CANDIDATE_SOCKETS,
    MAX_WEBRTC_LOCAL_CANDIDATE_ROUTES, MAX_WEBRTC_REMOTE_CANDIDATE_LINES,
    MAX_WEBRTC_REMOTE_CANDIDATE_ROUTES, MAX_WEBRTC_SDP_LENGTH, MAX_WEBRTC_SOCKETS_PER_STUN_SERVER,
    MAX_WEBRTC_STUN_SERVERS, SIGNAL_TTL_MS,
};
use fips_transport::rtc::counters::WebRtcNegotiationCounters;
use fips_transport::rtc::description::{description_read, remote_answer, remote_offer};
use fips_transport::rtc::ice_url::{check_ice_server, check_ice_servers, IceScheme};
use fips_transport::rtc::keys::{
    canonical_webrtc_addr, clock_ms, now_ms, random_session_id, session_id_of, show_addr, signal_sender,
    validate_compressed_pubkey_hex, xonly_from_compressed_hex,
};
use fips_transport::rtc::lifecycle::{
    PhysicalPhase, PhysicalReserveError, PhysicalResources, ReleaseWaitStart,
};
use fips_transport::rtc::mdns::{
    is_mdns_hostname, max_mdns_waiters, mdns_candidate_hostnames, normalize_mdns_hostname,
    preferred_address, rewrite_mdns_candidates, strip_mdns_candidates, MAX_MDNS_HOSTNAMES,
};
use fips_transport::rtc::negotiation::{
    admit_negotiation, answer_failed, end_negotiation, fail_negotiation, local_description_signal,
    session_rejected, NegotiationRole, NegotiationStep, NegotiationUndo,
};
use fips_transport::rtc::offers::{
    admit_signal, begin_connect, begin_offer, incoming_offer_replaces_pending,
    incoming_offer_wins_glare, place_offer, pooled_replacement_disposition,
    reserve_physical_for_incoming_offer, resume_after_release, route_answer, AnswerRoute,
    ConnectStart, OfferPlacement, OfferReserve, OfferStart, PooledOfferDisposition,
};
use fips_transport::rtc::resolver::{
    hostname_event, stop_outcome, DaemonStop, HostnameEvent, MdnsResolverSnapshot, ResolvePlan,
    SharedMdnsResolver,
};
use fips_transport::rtc::seen::SeenSessions;
use fips_transport::rtc::sessions::{
    PendingDial, PendingDialOrigin, PooledSession, SessionTables, WebRtcSessionOwner,
};
use fips_transport::rtc::signal::{
    deadline_from_signal, description_signal, ice_gathering_outcome, is_negotiation_timeout,
    reject_signal, require_non_trickle_ice_candidates, signal_expiry_for_deadline,
    validate_signal, LinkNegotiationKind, WebRtcSignal, WebRtcSignalPayload,
    LINK_NEGOTIATION_VERSION,
};
use fips_transport::rtc::transport::{signal_task_limit, BusyTables, WebRtcTransport};

const MS: u64 = 1_000_000;
const LOWER: &str = "02aaaaaaaaaaaaaaaaaaaaaaaaaaaaaaaaaaaaaaaaaaaaaaaaaaaaaaaaaaaaaaaa";
const HIGHER: &str = "03bbbbbbbbbbbbbbbbbbbbbbbbbbbbbbbbbbbbbbbbbbbbbbbbbbbbbbbbbbbbbbbb";
const SDP: &str = "v=0\r\na=candidate:1 1 UDP 1 127.0.0.1 5000 typ host\r\n";

fn addr(text: &str) -> TransportAddr {
    TransportAddr::from_string(text)
}

fn ip(text: &str) -> IpAddr {
    match text.parse::<core::net::IpAddr>().unwrap() {
        core::net::IpAddr::V4(a) => IpAddr::V4(a.to_bits()),
        core::net::IpAddr::V6(a) => IpAddr::V6(a.to_bits()),
    }
}

fn transport(config: WebRtcConfig) -> WebRtcTransport {
    WebRtcTransport::new(
        TransportId::new(1),
        None,
        config,
        LOWER.to_string(),
        &Vec::new(),
    )
    .expect("WebRTC transport")
}

fn signal(kind: LinkNegotiationKind, session_id: &str, sdp: &str, now: u64) -> WebRtcSignal {
    WebRtcSignal {
        version: LINK_NEGOTIATION_VERSION,
        negotiation_id: session_id.to_string(),
        link_type: "webrtc".to_string(),
        kind,
        created_at_ms: now,
        expires_at_ms: now + SIGNAL_TTL_MS,
        payload: WebRtcSignalPayload {
            sdp: Some(sdp.to_string()),
            candidates: None,
        },
    }
}

fn dial(session_id: &str, owner: &str, peer: u64, generation: u64, deadline: u64) -> PendingDial {
    PendingDial {
        session_id: session_id.to_string(),
        phase_owner_id: owner.to_string(),
        peer,
        generation,
        created_at_ms: 100,
        origin: PendingDialOrigin::Local,
        deadline,
    }
}

fn pooled(session_id: &str, peer: u64, generation: u64) -> PooledSession {
    PooledSession {
        session_id: session_id.to_string(),
        peer,
        generation,
    }
}

/// Tables with one pending session of a peer whose connection is active.
fn pending_session(
    physical: &mut PhysicalResources,
    peer_addr: &TransportAddr,
    session_id: &str,
    peer: u64,
) -> (SessionTables, u64) {
    let mut tables = SessionTables::new();
    let reservation = physical.reserve(peer_addr).expect("physical permit");
    let lease = physical.into_lease(reservation);
    let generation = lease.generation;
    let admitted = tables.try_reserve_pending(
        peer_addr,
        dial(session_id, session_id, peer, generation, 2_000 * MS),
        physical,
    );
    assert!(admitted);
    (tables, generation)
}

/// Tables with one pooled session of a peer whose connection is active.
fn pooled_session(
    physical: &mut PhysicalResources,
    peer_addr: &TransportAddr,
    session_id: &str,
    peer: u64,
) -> (SessionTables, u64) {
    let (mut tables, generation) = pending_session(physical, peer_addr, session_id, peer);
    let promoted = tables.promote_pending_webrtc_session(
        peer_addr,
        pooled(session_id, peer, generation),
        physical,
    );
    assert!(matches!(promoted, Ok(None)));
    (tables, generation)
}

// ---------------------------------------------------------------------------
// Keys
// ---------------------------------------------------------------------------

#[test]
fn validates_compressed_pubkey_addresses() {
    let good = "02aaaaaaaaaaaaaaaaaaaaaaaaaaaaaaaaaaaaaaaaaaaaaaaaaaaaaaaaaaaaaaaa";
    assert!(validate_compressed_pubkey_hex(good).is_ok());
    assert!(validate_compressed_pubkey_hex(&good[2..]).is_err());
    assert!(validate_compressed_pubkey_hex(
        "04aaaaaaaaaaaaaaaaaaaaaaaaaaaaaaaaaaaaaaaaaaaaaaaaaaaaaaaaaaaaaaaa"
    )
    .is_err());
}

#[test]
fn keys_with_odd_parity_have_the_same_canonical_address() {
    let generator = "79be667ef9dcbbac55a06295ce870b07029bfcdb2dce28d959f2815b16f81798";
    let even = addr(&format!("02{}", generator));
    let odd = addr(&format!("03{}", generator.to_uppercase()));
    let canonical = canonical_webrtc_addr(&odd).expect("a key");
    assert_eq!(canonical.as_str(), even.as_str());
    assert_eq!(
        canonical_webrtc_addr(&even).unwrap().as_str(),
        even.as_str()
    );
    let xonly = xonly_from_compressed_hex(&format!("03{}", generator)).unwrap();
    assert_eq!(xonly.len(), 32);
    assert_eq!(xonly[0], 0x79);
    assert_eq!(xonly[31], 0x98);
    assert!(canonical_webrtc_addr(&addr("no key")).is_err());
    assert!(xonly_from_compressed_hex("no key").is_err());
}

#[test]
fn senders_are_known_by_their_key() {
    let text = "0379be667ef9dcbbac55a06295ce870b07029bfcdb2dce28d959f2815b16f81798";
    let key: Vec<u8> = (0..33)
        .map(|i| u8::from_str_radix(&text[2 * i..2 * i + 2], 16).unwrap())
        .collect();
    let (xonly, shown) = signal_sender(&key).unwrap();
    assert_eq!(xonly, key[1..].to_vec());
    assert_eq!(shown, text);
    assert_eq!(xonly_from_compressed_hex(&shown).unwrap(), xonly);
    assert!(signal_sender(&vec![4; 33]).is_err());
    assert!(signal_sender(&vec![2; 32]).is_err());
}

#[test]
fn addresses_are_shown_as_text_or_digits() {
    assert_eq!(show_addr(&addr("peer")), "peer");
    assert_eq!(show_addr(&TransportAddr::new(vec![0xff, 0x80])), "ff80");
}

#[test]
fn session_ids_are_random_digits() {
    assert_eq!(
        session_id_of(&vec![0, 1, 2, 0xab]),
        "000102ab".to_string()
    );
    let one = random_session_id();
    assert_eq!(one.len(), 32);
    assert!(one.chars().all(|c| c.is_ascii_hexdigit()));
    assert_ne!(one, random_session_id());
}

#[test]
fn clock_readings_are_clamped() {
    assert_eq!(clock_ms(Some(5)), 5);
    assert_eq!(clock_ms(None), 0);
    assert!(now_ms() > 1_600_000_000_000);
}

// ---------------------------------------------------------------------------
// Candidates
// ---------------------------------------------------------------------------

#[test]
fn embedded_candidate_budget_deduplicates_components_but_caps_raw_lines() {
    let twins = "v=0\r\n\
         a=candidate:same 1 UDP 1 192.0.2.10 5000 typ host\r\n\
         a=candidate:same 2 UDP 1 192.0.2.10 5000 typ host\r\n";
    let count = validate_embedded_ice_candidates(twins, EmbeddedCandidateScope::Remote)
        .expect("component twins");
    assert_eq!(count.raw_lines, 2);
    assert_eq!(count.unique_routes, 1);

    let mut duplicates = String::from("v=0\r\n");
    for index in 0..=MAX_WEBRTC_REMOTE_CANDIDATE_LINES {
        duplicates.push_str(&format!(
            "a=candidate:{index} 1 UDP 1 192.0.2.10 5000 typ host\r\n"
        ));
    }
    assert!(
        validate_embedded_ice_candidates(&duplicates, EmbeddedCandidateScope::Remote).is_err()
    );
}

fn many_routes(count: usize, host: &str) -> String {
    let mut sdp = String::from("v=0\r\n");
    for index in 0..count {
        sdp.push_str(&format!(
            "a=candidate:{index} 1 UDP 1 {} {} typ host\r\n",
            host,
            5_000 + index
        ));
    }
    sdp
}

#[test]
fn remote_sdp_can_exceed_the_local_socket_route_budget() {
    let transport = transport(WebRtcConfig {
        stun_servers: Some(Vec::new()),
        ..WebRtcConfig::default()
    });
    let sdp = many_routes(MAX_WEBRTC_LOCAL_CANDIDATE_ROUTES + 4, "192.0.2.1");
    assert!(
        validate_embedded_ice_candidates(&sdp, EmbeddedCandidateScope::Local).is_err(),
        "the same SDP exceeds the locally generated socket-route budget"
    );
    validate_embedded_ice_candidates(&sdp, EmbeddedCandidateScope::Remote)
        .expect("bounded remote SDP can describe more routes than this host binds");
    let now = now_ms();
    let offer = WebRtcSignal {
        expires_at_ms: now + 1_000,
        ..signal(
            LinkNegotiationKind::Offer,
            "browser-sized-embedded-sdp",
            &sdp,
            now,
        )
    };
    validate_signal(&offer, now)
        .expect("remote browser routes do not allocate matching local sockets");
    assert_eq!(transport.resource_snapshot().created_total, 0);
}

#[test]
fn oversized_remote_sdp_is_rejected_at_signal_admission() {
    let transport = transport(WebRtcConfig {
        stun_servers: Some(Vec::new()),
        ..WebRtcConfig::default()
    });
    let sdp = many_routes(MAX_WEBRTC_REMOTE_CANDIDATE_ROUTES + 1, "192.0.2.1");
    let now = now_ms();
    let offer = WebRtcSignal {
        expires_at_ms: now + 1_000,
        ..signal(LinkNegotiationKind::Offer, "oversized-remote-sdp", &sdp, now)
    };
    assert!(validate_signal(&offer, now).is_err());
    assert_eq!(transport.resource_snapshot().created_total, 0);
}

#[test]
fn oversized_embedded_offer_never_starts_mdns_or_allocates_a_pc() {
    let transport = transport(WebRtcConfig {
        accept_connections: Some(true),
        max_connections: Some(1),
        resolve_mdns_candidates: Some(true),
        stun_servers: Some(Vec::new()),
        ..WebRtcConfig::default()
    });
    let sdp = many_routes(MAX_WEBRTC_REMOTE_CANDIDATE_ROUTES + 1, "one-host.local");
    let now = now_ms();
    let offer = signal(LinkNegotiationKind::Offer, "pre-mdns-budget", &sdp, now);
    let mut counters = WebRtcNegotiationCounters::new();
    let result = admit_signal(&offer, now, &mut counters);
    assert!(matches!(result, Err(TransportError::InvalidAddress(_))));
    let resolver = SharedMdnsResolver::new(true, 1);
    assert_eq!(
        resolver.snapshot(),
        MdnsResolverSnapshot {
            owner_count: 0,
            max_waiters: 1,
            active_waiters: 0,
            peak_waiters: 0,
        }
    );
    assert_eq!(transport.resource_snapshot().created_total, 0);
    assert_eq!(transport.seen.len(), 0);
}

#[test]
fn routes_are_told_apart_by_what_they_say() {
    let route = |address: &str, related: Option<(String, u16)>| IceCandidate {
        network_type: "udp4".to_string(),
        candidate_type: "host".to_string(),
        address: address.to_string(),
        port: 9,
        tcp_type: "".to_string(),
        related,
    };
    assert_eq!(
        route("HOST.local", None).route_key(),
        "udp4|host|host.local|9||"
    );
    assert_eq!(
        route("a", Some(("B".to_string(), 7))).route_key(),
        "udp4|host|a|9||b:7"
    );
    let mut routes = EmbeddedRoutes::new();
    assert!(routes
        .admit_line("candidate:1", EmbeddedCandidateScope::Local)
        .is_ok());
    assert!(routes
        .admit_route(Ok(route("a", None)), EmbeddedCandidateScope::Local)
        .is_ok());
    assert!(routes
        .admit_route(Err("bad".to_string()), EmbeddedCandidateScope::Local)
        .is_err());
    assert_eq!(routes.count().unique_routes, 1);
}

fn candidate(
    interface: &str,
    address: &str,
    is_p2p: bool,
    index: u32,
    oper_status: IfOperStatus,
) -> LocalCandidateAddress {
    LocalCandidateAddress {
        interface: interface.to_string(),
        index: Some(index),
        ip: ip(address),
        is_p2p,
        oper_status,
    }
}

#[test]
fn synthetic_many_interface_selection_preserves_ip_families_and_p2p_routes() {
    let mut snapshot = Vec::new();
    for index in 1..=12u32 {
        let lan = format!("lan{index}");
        let vpn = format!("vpn{index}");
        let up = IfOperStatus::Up;
        snapshot.push(candidate(&lan, &format!("192.0.2.{index}"), false, index, up));
        snapshot.push(candidate(&lan, &format!("2001:db8::{index}"), false, index, up));
        snapshot.push(candidate(&vpn, &format!("10.0.0.{index}"), true, 100 + index, up));
        snapshot.push(candidate(&vpn, &format!("fd00::{index}"), true, 100 + index, up));
    }
    let selected = select_candidate_addresses(&snapshot);
    assert_eq!(selected.len(), MAX_WEBRTC_HOST_CANDIDATE_SOCKETS);
    assert!(selected.iter().any(IpAddr::is_ipv4));
    assert!(selected.iter().any(IpAddr::is_ipv6));
    assert!(selected
        .iter()
        .any(|ip| matches!(ip, IpAddr::V4(bits) if bits >> 24 == 10)));
    assert!(selected
        .iter()
        .any(|ip| matches!(ip, IpAddr::V6(bits) if (bits >> 112) & 0xfe00 == 0xfc00)));
}

#[test]
fn temporary_addresses_on_one_interface_do_not_multiply_sockets() {
    let mut snapshot = vec![candidate("uplink", "192.0.2.10", false, 1, IfOperStatus::Up)];
    for index in 1..=12u32 {
        snapshot.push(candidate(
            "uplink",
            &format!("2001:db8::{index}"),
            false,
            1,
            IfOperStatus::Up,
        ));
    }
    let selected = select_candidate_addresses(&snapshot);
    assert_eq!(selected.len(), 2);
    assert!(selected.iter().any(IpAddr::is_ipv4));
    assert!(selected.iter().any(IpAddr::is_ipv6));
}

#[test]
fn unknown_oper_status_preserves_point_to_point_and_vpn_routes() {
    let selected = select_candidate_addresses(&vec![
        candidate("vpn-unknown-v4", "10.77.0.1", true, 40, IfOperStatus::Unknown),
        candidate("vpn-unknown-v6", "fd77::1", true, 40, IfOperStatus::Unknown),
        candidate("vpn-explicitly-down", "10.88.0.1", true, 41, IfOperStatus::Down),
    ]);

    assert_eq!(selected.len(), 2);
    assert!(selected.contains(&ip("10.77.0.1")));
    assert!(selected.contains(&ip("fd77::1")));
    assert!(!selected.contains(&ip("10.88.0.1")));
}

#[test]
fn known_up_routes_are_not_crowded_out_by_unknown_interfaces() {
    let mut snapshot = Vec::new();
    for index in 1..=8u32 {
        snapshot.push(candidate(
            &format!("unknown-{index}"),
            &format!("198.51.100.{index}"),
            false,
            index,
            IfOperStatus::Unknown,
        ));
    }
    snapshot.push(candidate("known-up-lan-v4", "192.168.77.9", false, 100, IfOperStatus::Up));
    snapshot.push(candidate("known-up-lan-v6", "2001:db8:77::9", false, 100, IfOperStatus::Up));
    snapshot.push(candidate("unknown-vpn-v4", "10.77.0.1", true, 101, IfOperStatus::Unknown));
    snapshot.push(candidate("unknown-vpn-v6", "fd77::1", true, 101, IfOperStatus::Unknown));
    let selected = select_candidate_addresses(&snapshot);

    assert_eq!(selected.len(), MAX_WEBRTC_HOST_CANDIDATE_SOCKETS);
    assert!(selected.contains(&ip("192.168.77.9")));
    assert!(selected.contains(&ip("2001:db8:77::9")));
    assert!(selected.contains(&ip("10.77.0.1")));
    assert!(selected.contains(&ip("fd77::1")));
}

#[test]
fn known_up_lans_fill_spare_slots_before_unknown_p2p_routes() {
    let mut snapshot = Vec::new();
    for index in 1..=4u32 {
        snapshot.push(candidate(
            &format!("lan-{index}"),
            &format!("192.0.2.{index}"),
            false,
            index,
            IfOperStatus::Up,
        ));
    }
    for index in 1..=6u32 {
        snapshot.push(candidate(
            &format!("vpn-v4-{index}"),
            &format!("10.0.0.{index}"),
            true,
            100 + index,
            IfOperStatus::Unknown,
        ));
        snapshot.push(candidate(
            &format!("vpn-v6-{index}"),
            &format!("fd00::{index}"),
            true,
            200 + index,
            IfOperStatus::Unknown,
        ));
    }
    let selected = select_candidate_addresses(&snapshot);

    assert_eq!(selected.len(), MAX_WEBRTC_HOST_CANDIDATE_SOCKETS);
    for index in 1..=4u32 {
        assert!(selected.contains(&ip(&format!("192.0.2.{index}"))));
    }
}

#[test]
fn unusable_addresses_are_not_selected() {
    let up = IfOperStatus::Up;
    assert!(!is_usable_candidate(&candidate("lo", "127.0.0.1", false, 1, up)));
    assert!(!is_usable_candidate(&candidate("eth", "0.0.0.0", false, 1, up)));
    assert!(!is_usable_candidate(&candidate("eth", "224.0.0.1", false, 1, up)));
    assert!(is_usable_candidate(&candidate("eth", "192.0.2.1", false, 1, up)));
    assert!(oper_status_rank(up) < oper_status_rank(IfOperStatus::Unknown));
    assert_eq!(
        address_scope_rank(ip("192.0.2.1")),
        address_scope_rank(ip("192.0.2.2"))
    );
    let first = candidate("a", "192.0.2.1", false, 1, up);
    let second = candidate("a", "192.0.2.2", false, 1, up);
    assert!(is_preferred(&first, &second));
    assert!(!is_preferred(&second, &first));
    assert!(select_candidate_addresses(&Vec::new()).is_empty());
}

// ---------------------------------------------------------------------------
// Settings
// ---------------------------------------------------------------------------

#[test]
fn default_connection_capacity_fits_the_reviewed_configured_socket_budget() {
    let worst_case_per_pc = MAX_WEBRTC_HOST_CANDIDATE_SOCKETS
        + MAX_WEBRTC_STUN_SERVERS * MAX_WEBRTC_SOCKETS_PER_STUN_SERVER;
    let configured = WebRtcConfig::default().max_connections();
    assert_eq!(MAX_WEBRTC_LOCAL_CANDIDATE_ROUTES, worst_case_per_pc);
    assert!(
        configured * worst_case_per_pc <= MAX_WEBRTC_CONFIG_CANDIDATE_SOCKETS,
        "default {configured} peer connections can allocate {} candidate sockets; configured budget is {MAX_WEBRTC_CONFIG_CANDIDATE_SOCKETS}",
        configured * worst_case_per_pc
    );
}

#[test]
fn default_ice_gather_timeout_keeps_signaling_interactive() {
    assert_eq!(WebRtcConfig::default().ice_gather_timeout_ms(), 2_000);
}

#[test]
fn stun_override_distinguishes_unset_from_explicit_empty() {
    let fallback = vec!["stun:fallback.invalid:3478".to_string()];
    assert_eq!(WebRtcConfig::default().stun_servers(&fallback), fallback);

    let disabled = WebRtcConfig {
        stun_servers: Some(Vec::new()),
        ..WebRtcConfig::default()
    };
    assert!(disabled.stun_servers(&fallback).is_empty());

    let explicit = WebRtcConfig {
        stun_servers: Some(vec!["stun:override.invalid:3478".to_string()]),
        ..WebRtcConfig::default()
    };
    assert_eq!(
        explicit.stun_servers(&fallback),
        vec!["stun:override.invalid:3478".to_string()]
    );
}

#[test]
fn transport_constructor_rejects_unsupported_or_invalid_ice_urls() {
    for url in ["turn:turn.example:3478", "stun:", "stun:stun.example:bad"] {
        assert!(
            WebRtcTransport::new(
                TransportId::new(604),
                None,
                WebRtcConfig {
                    max_connections: Some(1),
                    stun_servers: Some(vec![url.to_string()]),
                    ..WebRtcConfig::default()
                },
                LOWER.to_string(),
                &Vec::new(),
            )
            .is_err(),
            "unsupported or malformed ICE URL must fail during construction: {url}"
        );
    }
}

#[test]
fn configured_stun_urls_reach_peer_connection_configuration() {
    let urls = vec![
        "stun:192.0.2.1:3478".to_string(),
        "stun:192.0.2.2:3478".to_string(),
    ];
    let transport = transport(WebRtcConfig {
        max_connections: Some(1),
        stun_servers: Some(urls.clone()),
        ..WebRtcConfig::default()
    });
    assert_eq!(transport.stun_servers, urls);
    assert_eq!(transport.resource_snapshot().capacity, 1);
}

#[test]
fn the_first_unusable_server_is_named() {
    let urls = vec![
        "stun:192.0.2.1:3478".to_string(),
        "turn:192.0.2.2:3478".to_string(),
        "nonsense".to_string(),
    ];
    match check_ice_servers(&urls) {
        Err(TransportError::StartFailed(message)) => {
            assert_eq!(message, "unsupported ICE server 'turn:192.0.2.2:3478'")
        }
        other => panic!("unexpected {:?}", other),
    }
    assert!(check_ice_server("stuns:a", &Ok(IceScheme::Stuns)).is_ok());
    match check_ice_server("x", &Err("no scheme".to_string())) {
        Err(TransportError::StartFailed(message)) => {
            assert_eq!(message, "invalid ICE server 'x': no scheme")
        }
        other => panic!("unexpected {:?}", other),
    }
}

#[test]
fn handlers_are_bounded() {
    assert_eq!(signal_task_limit(0), 1);
    assert_eq!(signal_task_limit(7), 7);
    assert_eq!(signal_task_limit(1_000), 32);
    assert_eq!(max_mdns_waiters(0), 1);
    assert_eq!(max_mdns_waiters(3), 3);
    assert_eq!(max_mdns_waiters(1_000), 8);
}

// ---------------------------------------------------------------------------
// Names
// ---------------------------------------------------------------------------

#[test]
fn candidate_parser_rewrites_only_the_connection_address() {
    let sdp = "v=0\r\n\
         a=candidate:1 1 UDP 2122260223 browser-host.local 5000 typ host generation 0\r\n\
         a=candidate:2 1 UDP 1 192.0.2.4 5001 typ host\r\n\
         a=ice-options:trickle\r\n";
    let hostname = "browser-host.local.".to_string();
    assert_eq!(
        mdns_candidate_hostnames(sdp).unwrap(),
        vec![hostname.clone()]
    );
    let rewritten = rewrite_mdns_candidates(sdp, &vec![(hostname, ip("192.0.2.8"))]).unwrap();
    assert_eq!(
        rewritten,
        sdp.replacen("browser-host.local", "192.0.2.8", 1)
    );
}

#[test]
fn candidate_parser_deduplicates_and_validates_mdns_names() {
    let repeated = "a=candidate:1 1 UDP 1 Browser-Host.LOCAL 5000 typ host\n\
         a=candidate:2 1 UDP 1 browser-host.local. 5001 typ host\n";
    assert_eq!(
        mdns_candidate_hostnames(repeated).unwrap(),
        vec!["browser-host.local.".to_string()]
    );
    let invalid = "a=candidate:1 1 UDP 1 -bad.local 5000 typ host\r\n";
    assert!(matches!(
        mdns_candidate_hostnames(invalid),
        Err(TransportError::InvalidAddress(_))
    ));
}

#[test]
fn malformed_or_non_candidate_lines_are_left_to_the_sdp_parser() {
    let sdp = "a=x-note:browser.local\r\n\
         a=candidate:too few browser.local\r\n\
         a=candidate:1 1 UDP 1 198.51.100.1 5000 typ host\r\n";
    assert!(mdns_candidate_hostnames(sdp).unwrap().is_empty());
    assert_eq!(rewrite_mdns_candidates(sdp, &Vec::new()).unwrap(), sdp);
}

#[test]
fn candidate_parser_caps_unique_mdns_hostnames() {
    let sdp = (0..=MAX_MDNS_HOSTNAMES)
        .map(|index| {
            format!("a=candidate:{index} 1 UDP 1 browser-{index}.local 5000 typ host\r\n")
        })
        .collect::<String>();
    assert!(matches!(
        mdns_candidate_hostnames(&sdp),
        Err(TransportError::InvalidAddress(message)) if message.contains("more than 32")
    ));
}

#[test]
fn disabled_resolver_strips_mdns_candidates_without_starting_an_owner() {
    let resolver = SharedMdnsResolver::new(false, 4);
    let sdp = "v=0\r\n\
         a=candidate:1 1 UDP 1 browser.local 5000 typ host\r\n\
         a=candidate:2 1 UDP 1 192.0.2.4 5001 typ host\r\n";
    match resolver.plan(sdp) {
        Ok(ResolvePlan::Stripped(stripped)) => {
            assert_eq!(
                stripped,
                "v=0\r\na=candidate:2 1 UDP 1 192.0.2.4 5001 typ host\r\n"
            );
        }
        other => panic!("unexpected {:?}", other),
    }
    assert_eq!(resolver.snapshot().owner_count, 0);
    assert_eq!(
        strip_mdns_candidates(SDP).unwrap(),
        SDP,
        "a plain description stays as it is"
    );
}

#[test]
fn shared_resolver_bounds_waiters_and_cleans_up_cancellation() {
    let mut resolver = SharedMdnsResolver::new(true, 2);
    match resolver.plan("a=candidate:1 1 UDP 1 a.local 5000 typ host\r\n") {
        Ok(ResolvePlan::Lookup(names)) => assert_eq!(names, vec!["a.local.".to_string()]),
        other => panic!("unexpected {:?}", other),
    }
    assert!(matches!(resolver.plan(SDP), Ok(ResolvePlan::Unchanged)));
    assert_eq!(resolver.claim_daemon().unwrap(), true);
    resolver.daemon_started(None).unwrap();
    assert_eq!(resolver.claim_daemon().unwrap(), false);
    assert!(resolver.has_room());
    resolver.begin_lookup();
    resolver.begin_lookup();
    assert!(!resolver.has_room());
    resolver.end_lookup();
    resolver.end_lookup();
    let snapshot = resolver.snapshot();
    assert_eq!(snapshot.owner_count, 1);
    assert_eq!(snapshot.active_waiters, 0);
    assert_eq!(snapshot.peak_waiters, 2);
    assert!(resolver.begin_stop());
    assert_eq!(resolver.snapshot().owner_count, 0);
    assert!(resolver.claim_daemon().is_err());
    assert!(!resolver.begin_stop());
}

#[test]
fn resolver_daemons_end_in_one_of_several_ways() {
    assert!(stop_outcome(DaemonStop::Shutdown).is_ok());
    assert!(stop_outcome(DaemonStop::Refused("busy".to_string())).is_err());
    assert!(stop_outcome(DaemonStop::Status("Running".to_string())).is_err());
    assert!(stop_outcome(DaemonStop::Gone("closed".to_string())).is_err());
    assert!(stop_outcome(DaemonStop::TimedOut).is_err());
    let mut resolver = SharedMdnsResolver::new(true, 2);
    assert!(resolver.daemon_started(Some("no socket")).is_err());
    assert_eq!(resolver.snapshot().owner_count, 0);
}

#[test]
fn found_hosts_answer_with_a_preferred_address() {
    let found = HostnameEvent::Found(vec![ip("2001:db8::1"), ip("192.0.2.9"), ip("192.0.2.3")]);
    match hostname_event(&found, "host.local.") {
        Some(Ok(address)) => assert!(address.is_ipv4()),
        _ => panic!("expected an address"),
    }
    assert!(matches!(
        hostname_event(&HostnameEvent::TimedOut, "host.local."),
        Some(Err(_))
    ));
    assert!(matches!(
        hostname_event(&HostnameEvent::Stopped, "host.local."),
        Some(Err(_))
    ));
    assert!(hostname_event(&HostnameEvent::Other, "host.local.").is_none());
    assert!(preferred_address(&Vec::new()).is_none());
}

#[test]
fn names_are_checked_and_put_in_one_form() {
    assert!(is_mdns_hostname("Host.LOCAL"));
    assert!(is_mdns_hostname("host.local."));
    assert!(!is_mdns_hostname("host.example"));
    assert_eq!(
        normalize_mdns_hostname("Host.Local").unwrap(),
        "host.local."
    );
    assert!(normalize_mdns_hostname("bad_name-.local").is_err());
}

// ---------------------------------------------------------------------------
// Signals
// ---------------------------------------------------------------------------

#[test]
fn completed_non_trickle_sdp_requires_at_least_one_candidate() {
    assert!(require_non_trickle_ice_candidates("v=0\r\n").is_err());
    assert_eq!(
        require_non_trickle_ice_candidates(
            "v=0\r\na=candidate:1 1 UDP 1 127.0.0.1 5000 typ host\r\n"
        )
        .expect("candidate-bearing SDP"),
        1
    );
}

#[test]
fn incomplete_ice_gathering_is_not_treated_as_success() {
    let error = ice_gathering_outcome(false)
        .expect_err("a held non-trickle gather must fail at its deadline");
    assert!(matches!(error, TransportError::StartFailed(_)));
    assert!(ice_gathering_outcome(true).is_ok());
}

#[test]
fn offer_expiry_and_responder_deadline_preserve_the_original_phase_budget() {
    let monotonic_now = 77_000 * MS;
    let expires_at_ms =
        signal_expiry_for_deadline(monotonic_now + 1_500 * MS, monotonic_now, 10_000);
    assert_eq!(expires_at_ms, 11_500);

    assert_eq!(
        deadline_from_signal(expires_at_ms, 30_000 * MS, monotonic_now, 10_300),
        monotonic_now + 1_200 * MS,
        "responder work uses the initiator's remaining absolute budget"
    );
    assert_eq!(
        deadline_from_signal(expires_at_ms, 500 * MS, monotonic_now, 10_300),
        monotonic_now + 500 * MS,
        "the local configured timeout may only tighten the signal deadline"
    );
}

#[test]
fn inverted_signal_lifetime_is_rejected() {
    let now = now_ms();
    let mut incoming = signal(
        LinkNegotiationKind::Offer,
        "inverted-lifetime",
        "invalid but bounded SDP",
        now,
    );
    incoming.created_at_ms = now + 1_000;
    incoming.expires_at_ms = now + 500;

    assert!(matches!(
        validate_signal(&incoming, now),
        Err(TransportError::Timeout)
    ));
}

#[test]
fn signals_of_another_kind_of_link_are_refused() {
    let now = 1_000_000;
    let good = signal(LinkNegotiationKind::Offer, "s", SDP, now);
    assert!(validate_signal(&good, now).is_ok());
    let version = WebRtcSignal {
        version: LINK_NEGOTIATION_VERSION + 1,
        ..signal(LinkNegotiationKind::Offer, "s", SDP, now)
    };
    assert!(matches!(
        validate_signal(&version, now),
        Err(TransportError::InvalidAddress(_))
    ));
    let link = WebRtcSignal {
        link_type: "tcp".to_string(),
        ..signal(LinkNegotiationKind::Offer, "s", SDP, now)
    };
    assert!(matches!(
        validate_signal(&link, now),
        Err(TransportError::InvalidAddress(_))
    ));
    let expired = WebRtcSignal {
        created_at_ms: now - 10,
        expires_at_ms: now - 1,
        ..signal(LinkNegotiationKind::Offer, "s", SDP, now)
    };
    assert!(matches!(
        validate_signal(&expired, now),
        Err(TransportError::Timeout)
    ));
    let long = "x".repeat(MAX_WEBRTC_SDP_LENGTH + 1);
    assert!(validate_signal(&signal(LinkNegotiationKind::Offer, "s", &long, now), now).is_err());
    let rejection = reject_signal("s".to_string(), now);
    assert_eq!(rejection.kind, LinkNegotiationKind::Reject);
    assert_eq!(rejection.negotiation_id, "s");
    assert!(validate_signal(&rejection, now).is_ok());
    assert!(is_negotiation_timeout(&TransportError::Timeout));
    assert!(!is_negotiation_timeout(&TransportError::NotStarted));
}

#[test]
fn descriptions_become_signals() {
    let offer = description_signal(
        LinkNegotiationKind::Offer,
        "s".to_string(),
        SDP.to_string(),
        5,
        9,
    );
    assert_eq!(offer.created_at_ms, 5);
    assert_eq!(offer.expires_at_ms, 9);
    assert_eq!(offer.payload.sdp.as_deref(), Some(SDP));
    let answer = local_description_signal(
        NegotiationRole::Answerer,
        Some(SDP.to_string()),
        "s".to_string(),
        5,
        9,
    )
    .unwrap();
    assert_eq!(answer.kind, LinkNegotiationKind::Answer);
    assert!(
        local_description_signal(NegotiationRole::Offerer, None, "s".to_string(), 5, 9).is_err()
    );
}

#[test]
fn expired_answer_after_connect_timer_counts_one_phase_timeout() {
    let now = now_ms();
    let mut physical = PhysicalResources::new(4);
    let peer = addr(HIGHER);
    let (mut tables, _) = pending_session(&mut physical, &peer, "one-timeout", 7);
    let mut counters = WebRtcNegotiationCounters::new();
    assert!(tables
        .connect_timeout(&peer, "one-timeout", 2_000 * MS, 7)
        .is_some());
    counters.record_timeout();
    assert!(tables.pending(&peer).is_none());

    let late = WebRtcSignal {
        created_at_ms: now - 10,
        expires_at_ms: now - 1,
        ..signal(LinkNegotiationKind::Answer, "one-timeout", SDP, now)
    };
    assert!(matches!(
        admit_signal(&late, now, &mut counters),
        Err(TransportError::Timeout)
    ));
    assert_eq!(counters.snapshot().timeouts_fired, 1);
    assert_eq!(counters.snapshot().late_answers_rejected, 1);
}

// ---------------------------------------------------------------------------
// Offers
// ---------------------------------------------------------------------------

#[test]
fn simultaneous_webrtc_offers_have_one_deterministic_winner() {
    let smaller = "02aaaaaaaaaaaaaaaaaaaaaaaaaaaaaaaaaaaaaaaaaaaaaaaaaaaaaaaaaaaaaaaa";
    let larger = "03bbbbbbbbbbbbbbbbbbbbbbbbbbbbbbbbbbbbbbbbbbbbbbbbbbbbbbbbbbbbbbbb";

    assert!(incoming_offer_wins_glare(larger, smaller));
    assert!(!incoming_offer_wins_glare(smaller, larger));
    assert_eq!(
        pooled_replacement_disposition(larger, smaller),
        PooledOfferDisposition::Accept
    );
    assert_eq!(
        pooled_replacement_disposition(smaller, larger),
        PooledOfferDisposition::Redial
    );
}

#[test]
fn pending_offer_conflicts_choose_the_newest_offer_or_stable_initiator() {
    let lower = "02aaaaaaaaaaaaaaaaaaaaaaaaaaaaaaaaaaaaaaaaaaaaaaaaaaaaaaaaaaaaaaaa";
    let higher = "03bbbbbbbbbbbbbbbbbbbbbbbbbbbbbbbbbbbbbbbbbbbbbbbbbbbbbbbbbbbbbbbb";

    assert!(incoming_offer_replaces_pending(
        higher,
        lower,
        PendingDialOrigin::Remote,
        100,
        101,
    ));
    assert!(!incoming_offer_replaces_pending(
        higher,
        lower,
        PendingDialOrigin::Remote,
        101,
        100,
    ));
    assert!(incoming_offer_replaces_pending(
        higher,
        lower,
        PendingDialOrigin::Local,
        100,
        100,
    ));
    assert!(!incoming_offer_replaces_pending(
        lower,
        higher,
        PendingDialOrigin::Local,
        100,
        100,
    ));
}

#[test]
fn accepted_webrtc_offer_cannot_be_replayed_before_expiry() {
    let mut seen_sessions = SeenSessions::new();
    let remote_addr = addr("02aaaaaaaaaaaaaaaaaaaaaaaaaaaaaaaaaaaaaaaaaaaaaaaaaaaaaaaaaaaaaaaa");

    assert!(seen_sessions.accept_webrtc_offer_once(&remote_addr, "session-a", 200, 100));
    assert!(
        !seen_sessions.accept_webrtc_offer_once(&remote_addr, "session-a", 200, 150),
        "a delayed copy of an accepted offer must not recreate its ICE peer"
    );
    assert!(
        seen_sessions.accept_webrtc_offer_once(&remote_addr, "session-a", 300, 201),
        "expired replay entries must not block a later offer"
    );
}

#[test]
fn one_same_peer_offer_is_admitted_before_expensive_mdns_work() {
    let mut tables = SessionTables::new();
    let mut seen = SeenSessions::new();
    let mut physical = PhysicalResources::new(1);
    let remote_addr = addr(HIGHER);
    let reservation = physical.reserve(&remote_addr).expect("old physical permit");
    let lease = physical.into_lease(reservation);
    let cleanup = physical.begin_cleanup(lease);
    assert_eq!(physical.phase(&remote_addr), Some(PhysicalPhase::Closing));

    let sdp = "v=0\r\na=candidate:1 1 UDP 1 never-resolves-fips.local 5000 typ host\r\n";
    let first = signal(LinkNegotiationKind::Offer, "first-offer", sdp, 1_000);
    let second = signal(LinkNegotiationKind::Offer, "second-offer", sdp, 1_000);
    let started = begin_offer(
        &mut tables,
        &mut seen,
        &mut physical,
        &remote_addr,
        &first,
        LOWER,
        HIGHER,
        true,
        1_000,
    );
    assert!(matches!(started, OfferStart::Resolve { evicted: None }));
    assert!(physical.has_offer_handler(&remote_addr));
    assert!(
        !physical.has_peer_release_waiter(&remote_addr),
        "offer admission must precede mDNS and physical-release waiting"
    );
    let refused = begin_offer(
        &mut tables,
        &mut seen,
        &mut physical,
        &remote_addr,
        &second,
        LOWER,
        HIGHER,
        true,
        1_000,
    );
    assert!(matches!(refused, OfferStart::Refuse));
    let repeated = begin_offer(
        &mut tables,
        &mut seen,
        &mut physical,
        &remote_addr,
        &first,
        LOWER,
        HIGHER,
        true,
        1_001,
    );
    assert!(
        matches!(repeated, OfferStart::Ignore { evicted: None }),
        "a copy of the offer that is being handled must not be answered"
    );
    assert!(physical.has_offer_handler(&remote_addr));

    physical.release_offer(&remote_addr);
    assert!(!physical.has_offer_handler(&remote_addr));
    physical.complete(cleanup);
    assert!(physical.is_quiescent());
}

#[test]
fn copies_of_a_pending_offer_are_ignored() {
    let mut physical = PhysicalResources::new(4);
    let mut seen = SeenSessions::new();
    let peer = addr(HIGHER);
    let (mut tables, _) = pending_session(&mut physical, &peer, "s", 7);
    let copy = signal(LinkNegotiationKind::Offer, "s", SDP, 1_000);
    let other = signal(LinkNegotiationKind::Offer, "t", SDP, 1_000);
    for handled in [false, true] {
        if handled {
            assert!(physical.try_claim_offer(&peer));
        }
        let repeated = begin_offer(
            &mut tables,
            &mut seen,
            &mut physical,
            &peer,
            &copy,
            LOWER,
            HIGHER,
            true,
            1_000,
        );
        assert!(matches!(repeated, OfferStart::Ignore { evicted: None }));
        assert_eq!(physical.has_offer_handler(&peer), handled);
        assert!(tables.pending(&peer).is_some());
    }
    let refused = begin_offer(
        &mut tables,
        &mut seen,
        &mut physical,
        &peer,
        &other,
        LOWER,
        HIGHER,
        true,
        1_000,
    );
    assert!(matches!(refused, OfferStart::Refuse));
    assert!(!seen.knows(&peer, "t", 1_000), "a refused offer may be sent again");
    assert!(tables.pending(&peer).is_some());
}

#[test]
fn known_offers_are_refused_where_none_are_accepted() {
    let mut tables = SessionTables::new();
    let mut seen = SeenSessions::new();
    let mut physical = PhysicalResources::new(1);
    let peer = addr(HIGHER);
    let offer = signal(LinkNegotiationKind::Offer, "s", SDP, 1_000);
    assert!(seen.accept_webrtc_offer_once(&peer, "s", 5_000, 1_000));
    assert!(physical.try_claim_offer(&peer));
    for (accept_connections, ignored) in [(false, false), (true, true)] {
        let start = begin_offer(
            &mut tables,
            &mut seen,
            &mut physical,
            &peer,
            &offer,
            LOWER,
            HIGHER,
            accept_connections,
            1_000,
        );
        if ignored {
            assert!(matches!(start, OfferStart::Ignore { evicted: None }));
        } else {
            assert!(matches!(start, OfferStart::Refuse));
        }
        assert!(physical.has_offer_handler(&peer));
        assert!(seen.knows(&peer, "s", 1_000));
        assert!(tables.pending(&peer).is_none());
    }
}

#[test]
fn offers_are_known_until_they_expire() {
    let mut seen = SeenSessions::new();
    let peer = addr(HIGHER);
    assert!(!seen.knows(&peer, "s", 100));
    assert!(seen.accept_webrtc_offer_once(&peer, "s", 200, 100));
    assert!(seen.knows(&peer, "s", 199));
    assert!(!seen.knows(&peer, "s", 200));
    assert!(!seen.knows(&peer, "t", 150));
    assert!(!seen.knows(&addr(LOWER), "s", 150));
}

#[test]
fn offers_are_refused_where_none_are_accepted() {
    let mut tables = SessionTables::new();
    let mut seen = SeenSessions::new();
    let mut physical = PhysicalResources::new(1);
    let offer = signal(LinkNegotiationKind::Offer, "s", SDP, 1_000);
    let refused = begin_offer(
        &mut tables,
        &mut seen,
        &mut physical,
        &addr(HIGHER),
        &offer,
        LOWER,
        HIGHER,
        false,
        1_000,
    );
    assert!(matches!(refused, OfferStart::Refuse));
}

#[test]
fn one_mapless_closing_offer_waits_for_release_and_later_offers_are_refused() {
    let mut physical = PhysicalResources::new(1);
    let peer = addr("mapless-closing-peer");
    let reservation = physical.reserve(&peer).expect("physical permit");
    let lease = physical.into_lease(reservation);
    let cleanup = physical.begin_cleanup(lease);

    let wait = match reserve_physical_for_incoming_offer(&mut physical, &peer) {
        OfferReserve::Wait(wait) => wait,
        _ => panic!("the first replacement waits"),
    };
    assert!(physical.has_peer_release_waiter(&peer));
    assert!(matches!(
        reserve_physical_for_incoming_offer(&mut physical, &peer),
        OfferReserve::Refused(PhysicalReserveError::PeerBusy(PhysicalPhase::Closing))
    ));
    assert_eq!(physical.check_release(&wait), None);
    physical.complete(cleanup);
    assert_eq!(physical.check_release(&wait), Some(true));
    assert!(resume_after_release(&mut physical, wait, true).is_ok());
    assert!(!physical.has_peer_release_waiter(&peer));
}

#[test]
fn pooled_replacement_starts_cleanup_without_awaiting_escaped_raw_owners() {
    let mut physical = PhysicalResources::new(1);
    let peer = addr(LOWER);
    let (mut tables, generation) = pooled_session(&mut physical, &peer, "old", 7);
    match place_offer(&mut tables, &peer, "new", 9_000, HIGHER, &physical, 1_000) {
        OfferPlacement::Reserve { removed, redial } => {
            assert!(!redial);
            assert_eq!(removed.pooled.unwrap().generation, generation);
        }
        _ => panic!("the newer session takes the place of the pooled one"),
    }
    assert!(tables.pooled(&peer).is_none());
}

#[test]
fn session_replacement_fresh_offer_replaces_an_existing_webrtc_session() {
    let mut physical = PhysicalResources::new(2);
    let peer = addr(HIGHER);
    let (mut tables, _) = pooled_session(&mut physical, &peer, "old", 7);
    assert!(matches!(
        place_offer(&mut tables, &peer, "old", 9_000, LOWER, &physical, 1_000),
        OfferPlacement::Ignore
    ));
    match place_offer(&mut tables, &peer, "new", 9_000, LOWER, &physical, 1_000) {
        OfferPlacement::Reserve { removed, redial } => {
            assert!(redial);
            assert_eq!(removed.pooled.unwrap().session_id, "old");
        }
        _ => panic!("the offer loses the glare, and this side dials again"),
    }
}

#[test]
fn offers_that_expired_meanwhile_are_refused() {
    let physical = PhysicalResources::new(2);
    let mut tables = SessionTables::new();
    assert!(matches!(
        place_offer(&mut tables, &addr(HIGHER), "s", 999, LOWER, &physical, 1_000),
        OfferPlacement::Refuse { .. }
    ));
}

#[test]
fn answer_without_a_pending_or_pooled_session_is_explicitly_rejected() {
    let tables = SessionTables::new();
    let mut counters = WebRtcNegotiationCounters::new();
    assert!(
        route_answer(&tables, &addr(HIGHER), "late-answer", &mut counters).is_err(),
        "a late or unknown answer must not be silently accepted"
    );
    assert_eq!(counters.snapshot().answers_without_session, 1);
}

#[test]
fn mismatched_answer_does_not_remove_the_newer_pending_session() {
    let mut physical = PhysicalResources::new(4);
    let peer = addr(HIGHER);
    let (tables, generation) = pending_session(&mut physical, &peer, "new-session", 7);
    let mut counters = WebRtcNegotiationCounters::new();
    assert!(route_answer(&tables, &peer, "old-session", &mut counters).is_err());
    assert_eq!(
        tables.pending(&peer).map(|pending| pending.session_id.as_str()),
        Some("new-session")
    );
    match route_answer(&tables, &peer, "new-session", &mut counters) {
        Ok(AnswerRoute::Apply {
            peer: found,
            generation: applied,
        }) => {
            assert_eq!(found, 7);
            assert_eq!(applied, generation);
        }
        _ => panic!("the answer to the pending session is applied"),
    }
}

#[test]
fn duplicate_answer_for_the_pooled_session_is_a_benign_replay() {
    let mut physical = PhysicalResources::new(4);
    let peer = addr(HIGHER);
    let (tables, _) = pooled_session(&mut physical, &peer, "pooled-session", 7);
    let mut counters = WebRtcNegotiationCounters::new();
    assert!(matches!(
        route_answer(&tables, &peer, "pooled-session", &mut counters),
        Ok(AnswerRoute::Ignore)
    ));
    assert!(tables.pooled(&peer).is_some());
}

#[test]
fn dials_begin_once() {
    let mut physical = PhysicalResources::new(1);
    let mut tables = SessionTables::new();
    let other = addr("0279be667ef9dcbbac55a06295ce870b07029bfcdb2dce28d959f2815b16f81798");
    let peer = addr(LOWER);
    let reservation = match begin_connect(&mut tables, &mut physical, &peer) {
        Ok(ConnectStart::Dial(reservation)) => reservation,
        _ => panic!("a dial begins"),
    };
    assert!(begin_connect(&mut tables, &mut physical, &other).is_err());
    assert!(matches!(
        begin_connect(&mut tables, &mut physical, &peer),
        Ok(ConnectStart::Underway)
    ));
    assert!(matches!(
        begin_connect(&mut tables, &mut physical, &addr("no key")),
        Err(TransportError::InvalidAddress(_))
    ));
    physical.cancel(reservation);
    let (mut pooled_tables, _) = pooled_session(&mut physical, &peer, "s", 7);
    assert!(matches!(
        begin_connect(&mut pooled_tables, &mut physical, &peer),
        Ok(ConnectStart::Underway)
    ));
}

// ---------------------------------------------------------------------------
// Negotiations
// ---------------------------------------------------------------------------

#[test]
fn negotiations_go_through_their_steps() {
    let mut steps = vec![NegotiationStep::CreatePeer];
    while let Some(step) = steps[steps.len() - 1].next(NegotiationRole::Offerer) {
        steps.push(step);
    }
    assert_eq!(steps[1], NegotiationStep::CreateDataChannel);
    assert_eq!(steps[steps.len() - 1], NegotiationStep::QueueSignal);
    assert!(!steps.contains(&NegotiationStep::ApplyOffer));
    let (undo, result) = end_negotiation(
        NegotiationRole::Offerer,
        NegotiationStep::CreatePeer,
        TransportError::Timeout,
    );
    assert_eq!(undo, NegotiationUndo::CancelReservation);
    assert!(matches!(result, Err(TransportError::Timeout)));
}

#[test]
fn outbound_post_attach_error_immediately_closes_its_pending_session() {
    let mut physical = PhysicalResources::new(4);
    let peer = addr(HIGHER);
    let reservation = physical.reserve(&peer).unwrap();
    let lease = physical.into_lease(reservation);
    let mut tables = SessionTables::new();
    assert!(admit_negotiation(
        &mut tables,
        &physical,
        NegotiationRole::Offerer,
        &peer,
        "s".to_string(),
        "s".to_string(),
        7,
        lease.generation,
        1_000,
        5_000 * MS,
    ));
    let failed = fail_negotiation(
        &mut tables,
        &physical,
        NegotiationRole::Offerer,
        &peer,
        "s",
        7,
        "set local description",
    );
    assert_eq!(failed.unwrap().session_id, "s");
    assert!(tables.pending(&peer).is_none());
    assert!(matches!(
        tables.connection_state(&peer),
        ConnectionState::Failed(_)
    ));
}

#[test]
fn invalid_answer_immediately_removes_and_closes_its_pending_session() {
    let mut physical = PhysicalResources::new(4);
    let peer = addr(HIGHER);
    let (mut tables, _) = pending_session(&mut physical, &peer, "s", 7);
    assert!(answer_failed(&mut tables, &physical, &peer, "other", 7, "bad").is_none());
    assert!(answer_failed(&mut tables, &physical, &peer, "s", 7, "bad").is_some());
    assert!(tables.pending(&peer).is_none());
    assert!(tables.failure(&peer).is_some());
    tables.forget_failure(&peer);
    assert!(matches!(
        tables.connection_state(&peer),
        ConnectionState::Absent
    ));
}

#[test]
fn rejected_sessions_fail() {
    let mut physical = PhysicalResources::new(4);
    let peer = addr(HIGHER);
    let (mut tables, _) = pending_session(&mut physical, &peer, "s", 7);
    assert!(session_rejected(&mut tables, &physical, &peer, "other".to_string()).is_none());
    assert!(session_rejected(&mut tables, &physical, &peer, "s".to_string()).is_some());
    assert!(matches!(
        tables.connection_state(&peer),
        ConnectionState::Failed(_)
    ));
}

#[test]
fn expired_handler_cleanup_cannot_remove_a_newer_pending_generation() {
    let mut physical = PhysicalResources::new(4);
    let peer = addr(HIGHER);
    let reservation = physical.reserve(&peer).unwrap();
    let lease = physical.into_lease(reservation);
    let deadline = 5_000 * MS;
    let mut tables = SessionTables::new();
    assert!(tables.try_reserve_pending(
        &peer,
        dial("new-session", "new-owner", 7, lease.generation, deadline),
        &physical,
    ));
    let now = deadline + MS;
    let stale = tables.mark_expired_pending_failed(
        &peer,
        "old-owner",
        deadline,
        now,
        "old handler timed out".to_string(),
    );
    assert!(stale.is_none());
    assert_eq!(
        tables.pending(&peer).map(|pending| pending.phase_owner_id.as_str()),
        Some("new-owner")
    );
    let own = tables.mark_expired_pending_failed(
        &peer,
        "new-owner",
        deadline,
        now,
        "owning handler timed out".to_string(),
    );
    assert!(own.is_some());
    assert!(tables.pending(&peer).is_none());
}

#[test]
fn cleanup_winning_during_gather_prevents_a_stale_signal_queue() {
    let mut physical = PhysicalResources::new(4);
    let peer = addr(HIGHER);
    let (mut tables, generation) = pending_session(&mut physical, &peer, "stale-session", 7);
    let now = 1_000 * MS;
    assert!(tables
        .queue_signal_for_pending(
            &peer,
            "stale-session",
            7,
            generation,
            9_000,
            now,
            1_000,
            &physical
        )
        .is_ok());
    let owner = WebRtcSessionOwner::new("stale-session", 7);
    let removed = tables.cleanup_webrtc_session(&peer, Some(&owner), None, &physical);
    assert!(removed.any());
    assert!(tables
        .queue_signal_for_pending(
            &peer,
            "stale-session",
            7,
            generation,
            9_000,
            now,
            1_000,
            &physical
        )
        .is_err());
}

#[test]
fn pending_lock_contention_cannot_queue_a_signal_after_its_deadline() {
    let mut physical = PhysicalResources::new(4);
    let peer = addr(HIGHER);
    let (tables, generation) = pending_session(&mut physical, &peer, "s", 7);
    assert!(matches!(
        tables.queue_signal_for_pending(
            &peer,
            "s",
            7,
            generation,
            9_000,
            2_001 * MS,
            1_000,
            &physical
        ),
        Err(TransportError::Timeout)
    ));
    assert!(matches!(
        tables.queue_signal_for_pending(
            &peer,
            "s",
            7,
            generation,
            900,
            1_000 * MS,
            1_000,
            &physical
        ),
        Err(TransportError::Timeout)
    ));
}

#[test]
fn old_connect_timeout_cannot_remove_same_id_successor() {
    let mut physical = PhysicalResources::new(4);
    let peer = addr(HIGHER);
    let reservation = physical.reserve(&peer).unwrap();
    let lease = physical.into_lease(reservation);
    let mut tables = SessionTables::new();
    assert!(tables.try_reserve_pending(
        &peer,
        dial("reused-session", "successor-owner", 8, lease.generation, 2_000 * MS),
        &physical,
    ));
    assert!(tables
        .connect_timeout(&peer, "reused-session", 30 * MS, 7)
        .is_none());
    let successor = tables.pending(&peer).expect("the successor stays pending");
    assert_eq!(successor.peer, 8);
    assert_eq!(successor.deadline, 2_000 * MS);
    assert!(tables.failure(&peer).is_none());
}

// ---------------------------------------------------------------------------
// Sessions
// ---------------------------------------------------------------------------

#[test]
fn detached_cleanup_cannot_remove_same_id_successor() {
    let mut physical = PhysicalResources::new(4);
    let peer = addr(HIGHER);
    let (mut tables, _) = pooled_session(&mut physical, &peer, "same-id", 8);
    let stale = WebRtcSessionOwner::new("same-id", 7);
    let removed = tables.cleanup_webrtc_session(
        &peer,
        Some(&stale),
        Some("stale".to_string()),
        &physical,
    );
    assert!(!removed.any());
    assert!(tables.pooled(&peer).is_some());
    assert!(tables.failure(&peer).is_none());
}

#[test]
fn owners_match_what_they_name() {
    assert!(WebRtcSessionOwner::new("s", 7).matches("s", 7, None));
    assert!(!WebRtcSessionOwner::new("s", 7).matches("s", 8, None));
    assert!(WebRtcSessionOwner::for_generation(3).matches("s", 7, Some(3)));
    assert!(!WebRtcSessionOwner::for_generation(3).matches("s", 7, Some(4)));
}

#[test]
fn newer_offers_evict_a_pending_session() {
    let mut physical = PhysicalResources::new(4);
    let peer = addr(HIGHER);
    let (mut tables, _) = pending_session(&mut physical, &peer, "s", 7);
    assert_eq!(tables.peers(), vec![7]);
    assert!(tables
        .evict_pending_webrtc_session_for_offer(&peer, "other")
        .is_none());
    assert!(tables
        .evict_pending_webrtc_session_for_offer(&peer, "s")
        .is_some());
    assert!(tables.pending(&peer).is_none());
    assert!(tables.peers().is_empty());
}

#[test]
fn ready_sessions_are_connected() {
    let mut physical = PhysicalResources::new(4);
    let peer = addr(HIGHER);
    let (mut tables, generation) = pooled_session(&mut physical, &peer, "s", 7);
    assert!(tables.pooled_webrtc_session_is_active(&peer, "s", 7, &physical));
    assert!(tables.session_generation_is_active_or_pooled(&peer, "s", 7, generation, &physical));
    assert!(matches!(
        tables.connection_state(&peer),
        ConnectionState::Connecting
    ));
    let owner = WebRtcSessionOwner::new("s", 7);
    assert!(tables.mark_webrtc_ready_if_pooled(&peer, &owner, &physical));
    assert!(tables.is_ready(&peer));
    assert!(matches!(
        tables.connection_state(&peer),
        ConnectionState::Connected
    ));
    assert_eq!(tables.peers(), vec![7]);
    let drained = tables.drain();
    assert!(drained.pooled(&peer).is_some());
    assert!(tables.pooled(&peer).is_none());
    assert!(!tables.is_ready(&peer));
}

// ---------------------------------------------------------------------------
// Channels
// ---------------------------------------------------------------------------

#[test]
fn disconnected_webrtc_sessions_are_terminal_for_fips() {
    for state in [
        PeerConnectionState::Disconnected,
        PeerConnectionState::Failed,
        PeerConnectionState::Closed,
    ] {
        assert!(webrtc_peer_state_is_terminal(state));
    }
    for state in [
        PeerConnectionState::New,
        PeerConnectionState::Connecting,
        PeerConnectionState::Connected,
    ] {
        assert!(!webrtc_peer_state_is_terminal(state));
    }
}

#[test]
fn terminal_session_cleanup_closes_the_peer_connection() {
    let mut physical = PhysicalResources::new(4);
    let peer = addr(HIGHER);
    let (mut tables, _) = pooled_session(&mut physical, &peer, "s", 7);
    assert!(peer_state_changed(
        &mut tables,
        &physical,
        &peer,
        "s",
        7,
        PeerConnectionState::Connected
    )
    .is_none());
    let removed = peer_state_changed(
        &mut tables,
        &physical,
        &peer,
        "s",
        7,
        PeerConnectionState::Failed,
    )
    .expect("a terminal state ends the session");
    assert_eq!(removed.pooled.unwrap().peer, 7);
    assert!(matches!(
        tables.connection_state(&peer),
        ConnectionState::Failed(_)
    ));
}

#[test]
fn close_cannot_miss_the_atomic_pending_to_pool_handoff() {
    let mut physical = PhysicalResources::new(4);
    let peer = addr(HIGHER);
    let (mut tables, generation) = pending_session(&mut physical, &peer, "s", 7);
    match data_channel_opened(&mut tables, &physical, &peer, "s".to_string(), 7, generation) {
        ChannelOpened::SendReady { previous } => assert!(previous.is_none()),
        _ => panic!("the session is pooled"),
    }
    assert!(tables.pending(&peer).is_none());
    let removed = tables.cleanup_webrtc_session(&peer, None, None, &physical);
    assert!(removed.any());
}

#[test]
fn stop_during_pending_to_pool_handoff_cannot_resurrect_a_session() {
    let mut physical = PhysicalResources::new(4);
    let peer = addr(HIGHER);
    let (mut tables, generation) = pending_session(&mut physical, &peer, "s", 7);
    physical.stop_accepting();
    assert!(matches!(
        data_channel_opened(&mut tables, &physical, &peer, "s".to_string(), 7, generation),
        ChannelOpened::Close
    ));
    assert!(tables.pooled(&peer).is_none());
}

#[test]
fn cleanup_linearized_first_suppresses_ready_send() {
    let mut physical = PhysicalResources::new(4);
    let peer = addr(HIGHER);
    let (mut tables, _) = pooled_session(&mut physical, &peer, "s", 7);
    tables.cleanup_webrtc_session(&peer, None, None, &physical);
    assert!(!webrtc_ready_fallback(&mut tables, &physical, &peer, "s", 7));
    assert!(!tables.is_ready(&peer));
}

#[test]
fn received_ready_marker_and_cleanup_share_one_owner_epoch() {
    let mut physical = PhysicalResources::new(4);
    let peer = addr(HIGHER);
    let (mut tables, _) = pooled_session(&mut physical, &peer, "s", 7);
    let marker = webrtc_ready_frame();
    assert!(
        receive_channel_message(&mut tables, &physical, &peer, "s", 8, false, marker).is_none()
    );
    assert!(!tables.is_ready(&peer));
    let marker = webrtc_ready_frame();
    assert!(
        receive_channel_message(&mut tables, &physical, &peer, "s", 7, false, marker).is_none()
    );
    assert!(tables.is_ready(&peer));
    assert_eq!(
        receive_channel_message(&mut tables, &physical, &peer, "s", 7, false, vec![1, 2]),
        Some(vec![1, 2])
    );
}

#[test]
fn ready_fallback_and_cleanup_share_one_owner_epoch() {
    let mut physical = PhysicalResources::new(4);
    let peer = addr(HIGHER);
    let (mut tables, _) = pooled_session(&mut physical, &peer, "s", 7);
    assert!(!webrtc_ready_fallback(&mut tables, &physical, &peer, "s", 8));
    assert!(webrtc_ready_fallback(&mut tables, &physical, &peer, "s", 7));
    assert!(tables.is_ready(&peer));
}

#[test]
fn failed_markers_and_closed_channels_end_their_session() {
    let mut physical = PhysicalResources::new(4);
    let peer = addr(HIGHER);
    let (mut tables, _) = pooled_session(&mut physical, &peer, "s", 7);
    assert!(!ready_marker_failed(&mut tables, &physical, &peer, "s", 8).any());
    assert!(ready_marker_failed(&mut tables, &physical, &peer, "s", 7).any());
    let other = addr(LOWER);
    let (mut tables, _) = pooled_session(&mut physical, &other, "t", 9);
    assert!(data_channel_closed(&mut tables, &physical, &other, "t", 9).any());
    assert!(tables.pooled(&other).is_none());
}

#[test]
fn send_tests_stalled_webrtc_send_times_out_and_starts_cleanup() {
    let mut physical = PhysicalResources::new(4);
    let peer = addr(HIGHER);
    let (mut tables, _) = pooled_session(&mut physical, &peer, "s", 7);
    assert!(matches!(
        begin_send(&tables, &peer, 1_000, 900),
        Err(TransportError::MtuExceeded { .. })
    ));
    let (result, cleanup) = finish_send(&mut tables, &physical, &peer, SendOutcome::TimedOut);
    assert!(matches!(result, Err(TransportError::Timeout)));
    assert!(cleanup.expect("cleanup started").any());
    assert!(begin_send(&tables, &peer, 10, 900).is_err());
}

#[test]
fn failed_webrtc_send_runs_bounded_cleanup_and_preserves_error() {
    let mut physical = PhysicalResources::new(4);
    let peer = addr(HIGHER);
    let (mut tables, _) = pooled_session(&mut physical, &peer, "s", 7);
    let (result, cleanup) = finish_send(
        &mut tables,
        &physical,
        &peer,
        SendOutcome::Failed("carrier send failed".to_string()),
    );
    assert!(matches!(
        result,
        Err(TransportError::SendFailed(error)) if error == "carrier send failed"
    ));
    assert!(cleanup.is_some());
    let (mut tables, _) = pooled_session(&mut physical, &addr(LOWER), "t", 9);
    let (result, cleanup) =
        finish_send(&mut tables, &physical, &addr(LOWER), SendOutcome::Sent(12));
    assert!(matches!(result, Ok(12)));
    assert!(cleanup.is_none());
}

#[test]
fn straggler_peer_reference_keeps_cleanup_owned_and_replacement_blocked() {
    let mut physical = PhysicalResources::new(1);
    let peer = addr(HIGHER);
    let reservation = physical.reserve(&peer).unwrap();
    let lease = physical.into_lease(reservation);
    let guard = physical.begin_cleanup(lease);
    let mut teardown = PeerTeardown::new(true);
    teardown.ice_stop_ended(true, &mut physical);
    assert!(matches!(
        teardown.next(2, &mut physical),
        TeardownAction::WaitForReferences
    ));
    assert_eq!(physical.snapshot().straggler_waiters, 1);
    assert!(physical.reserve(&peer).is_err());
    assert!(matches!(
        teardown.next(1, &mut physical),
        TeardownAction::Finish
    ));
    assert_eq!(physical.snapshot().straggler_waiters, 0);
    physical.complete(guard);
    assert!(physical.reserve(&peer).is_ok());
}

// ---------------------------------------------------------------------------
// Physical connections
// ---------------------------------------------------------------------------

#[test]
fn physical_peer_owner_retains_cap_until_cleanup_finishes() {
    let mut resources = PhysicalResources::new(1);
    let reservation = resources.reserve(&addr("peer-a")).expect("first reserve");
    assert_eq!(resources.available_permits(), 0);

    let lease = resources.into_lease(reservation);
    let cleanup = resources.begin_cleanup(lease);

    assert_eq!(resources.snapshot().closing, 1);
    assert!(matches!(
        resources.reserve(&addr("peer-b")),
        Err(PhysicalReserveError::Capacity)
    ));
    resources.complete(cleanup);
    assert_eq!(resources.snapshot().closing, 0);
    assert_eq!(resources.snapshot().closed_total, 1);
    assert!(resources.reserve(&addr("peer-b")).is_ok());
}

#[test]
fn cancelled_cleanup_is_abandoned_and_retains_capacity() {
    let mut resources = PhysicalResources::new(1);
    let reservation = resources.reserve(&addr("peer-a")).expect("reserve");
    let lease = resources.into_lease(reservation);
    let cleanup = resources.begin_cleanup(lease);

    resources.abandon(cleanup);
    let snapshot = resources.snapshot();
    assert_eq!(snapshot.capacity, 1);
    assert_eq!(snapshot.closing, 1);
    assert_eq!(snapshot.cleanup_inflight, 0);
    assert_eq!(snapshot.abandoned, 1);
    assert_eq!(snapshot.closed_total, 0);
    assert_eq!(snapshot.created_total - snapshot.closed_total, 1);
    assert!(matches!(
        resources.reserve(&addr("peer-b")),
        Err(PhysicalReserveError::Capacity)
    ));
}

#[test]
fn same_peer_cannot_overlap_while_closing() {
    let mut resources = PhysicalResources::new(2);
    let reservation = resources.reserve(&addr("peer-a")).expect("reserve");
    assert!(matches!(
        resources.reserve(&addr("peer-a")),
        Err(PhysicalReserveError::PeerBusy(PhysicalPhase::Creating))
    ));
    resources.cancel(reservation);
    assert!(resources.reserve(&addr("peer-a")).is_ok());
}

#[test]
fn zero_capacity_refuses_physical_peer_creation() {
    let mut resources = PhysicalResources::new(0);
    assert!(matches!(
        resources.reserve(&addr("peer-a")),
        Err(PhysicalReserveError::Capacity)
    ));
}

#[test]
fn release_waiter_does_not_follow_a_new_peer_generation() {
    let mut resources = PhysicalResources::new(1);
    let peer = addr("peer-a");
    let reservation = resources.reserve(&peer).expect("first reserve");
    let lease = resources.into_lease(reservation);
    let first_cleanup = resources.begin_cleanup(lease);
    let old_wait = match resources.begin_release_wait(&peer) {
        ReleaseWaitStart::Waiting(wait) => wait,
        ReleaseWaitStart::Settled(_) => panic!("the slot is being closed"),
    };
    assert!(resources.has_peer_release_waiter(&peer));

    resources.complete(first_cleanup);
    let reservation = resources.reserve(&peer).expect("second reserve");
    let lease = resources.into_lease(reservation);
    let second_cleanup = resources.begin_cleanup(lease);
    let new_wait = match resources.begin_release_wait(&peer) {
        ReleaseWaitStart::Waiting(wait) => wait,
        ReleaseWaitStart::Settled(_) => panic!("the slot is being closed"),
    };

    assert_eq!(
        resources.check_release(&old_wait),
        Some(false),
        "old waiter does not follow the new generation"
    );
    resources.end_release_wait(old_wait);
    assert!(resources.has_peer_release_waiter(&peer));
    resources.complete(second_cleanup);
    assert_eq!(resources.check_release(&new_wait), Some(true));
}

#[test]
fn concurrent_phase_changes_expose_only_conserved_snapshots() {
    let mut resources = PhysicalResources::new(4);
    for worker in 0..8 {
        let peer = addr(&format!("peer-{worker}"));
        for iteration in 0..256 {
            let reservation = resources.reserve(&peer).expect("a slot is free");
            if iteration % 5 == 0 {
                resources.cancel(reservation);
            } else {
                let lease = resources.into_lease(reservation);
                let guard = resources.begin_cleanup(lease);
                let snapshot = resources.snapshot();
                assert!(
                    snapshot.creating + snapshot.active + snapshot.closing <= snapshot.capacity
                );
                assert_eq!(
                    snapshot.cleanup_inflight + snapshot.abandoned,
                    snapshot.closing
                );
                assert_eq!(
                    snapshot.created_total.checked_sub(snapshot.closed_total),
                    Some((snapshot.active + snapshot.closing) as u64)
                );
                resources.complete(guard);
            }
        }
    }
    let snapshot = resources.snapshot();
    assert_eq!(snapshot.creating + snapshot.active + snapshot.closing, 0);
    assert_eq!(snapshot.created_total, snapshot.closed_total);
    assert!(snapshot.peak_physical <= snapshot.capacity);
}

#[test]
fn stopped_resources_refuse_everything() {
    let mut resources = PhysicalResources::new(4);
    assert!(resources.is_accepting());
    resources.stop_accepting();
    assert!(matches!(
        resources.reserve(&addr("peer")),
        Err(PhysicalReserveError::Stopped)
    ));
    resources.start_accepting();
    assert!(resources.reserve(&addr("peer")).is_ok());
    resources.note_ice_stop_failure();
    assert_eq!(resources.snapshot().ice_stop_failures_total, 1);
    assert!(!resources.is_quiescent());
}

// ---------------------------------------------------------------------------
// The transport
// ---------------------------------------------------------------------------

const IDLE: BusyTables = BusyTables {
    pool: false,
    ready: false,
    failed: false,
    pending: false,
};

#[test]
fn connection_state_does_not_report_none_during_pool_contention() {
    let transport = transport(WebRtcConfig::default());
    let peer = addr("02aaaaaaaaaaaaaaaaaaaaaaaaaaaaaaaaaaaaaaaaaaaaaaaaaaaaaaaaaaaaaaaa");
    let busy = BusyTables { pool: true, ..IDLE };
    assert!(matches!(
        transport.connection_state_sync(&peer, busy),
        ConnectionState::Connecting
    ));
    assert!(matches!(
        transport.connection_state_sync(&peer, IDLE),
        ConnectionState::Absent
    ));
}

#[test]
fn transports_start_and_stop_once() {
    let mut transport = transport(WebRtcConfig::default());
    assert!(transport.name().is_none());
    assert!(matches!(
        transport.begin_stop(),
        Err(TransportError::NotStarted)
    ));
    transport.start().unwrap();
    assert!(matches!(
        transport.start(),
        Err(TransportError::AlreadyStarted)
    ));
    let peer = addr(HIGHER);
    let (tables, _) = pooled_session(&mut transport.physical, &peer, "s", 7);
    transport.sessions = tables;
    let removed = transport.close_connection(&peer);
    assert!(removed.any());
    assert!(matches!(
        transport.connection_state_sync(&peer, IDLE),
        ConnectionState::Absent
    ));
    transport.begin_stop().unwrap();
    assert!(!transport.physical.is_accepting());
    assert!(transport.finish_stop(Ok(()), "1 left").is_err());
    assert_eq!(transport.state, TransportState::Failed);
}

// ---------------------------------------------------------------------------
// Descriptions
// ---------------------------------------------------------------------------

#[test]
fn descriptions_are_read_from_their_text() {
    let text = "v=0\r\no=- 1 2 IN IP4 127.0.0.1\r\ns=-\r\nt=0 0\r\n";
    let offer = remote_offer(text.to_string()).expect("an offer");
    assert_eq!(offer.sdp, text);
    assert_eq!(format!("{}", offer.sdp_type), "offer");
    let answer = remote_answer(text.to_string()).expect("an answer");
    assert_eq!(answer.sdp, text);
    assert_eq!(format!("{}", answer.sdp_type), "answer");
}

#[test]
fn texts_that_are_no_descriptions_fail_the_negotiation() {
    let wrong = "v=1\r\n".to_string();
    assert!(matches!(
        remote_offer(wrong.clone()),
        Err(TransportError::StartFailed(reason)) if reason == "SdpInvalidSyntax: 1"
    ));
    assert!(matches!(
        remote_answer(wrong),
        Err(TransportError::StartFailed(reason)) if reason == "SdpInvalidSyntax: 1"
    ));
    assert!(matches!(
        description_read(Err("no reason".to_string())),
        Err(TransportError::StartFailed(reason)) if reason == "no reason"
    ));
}

#[test]
fn each_class_of_addresses_is_selected() {
    let mut addresses = Vec::new();
    for index in 0u32..12 {
        addresses.push(LocalCandidateAddress {
            interface: format!("eth{index}"),
            index: Some(index),
            ip: IpAddr::V4(0x0505_0500 + index),
            is_p2p: false,
            oper_status: IfOperStatus::Up,
        });
    }
    let tunnel = IpAddr::V6(0x2a00 << 112);
    addresses.push(LocalCandidateAddress {
        interface: "tun0".to_string(),
        index: Some(40),
        ip: tunnel,
        is_p2p: true,
        oper_status: IfOperStatus::Up,
    });
    let selected = select_candidate_addresses(&addresses);
    assert_eq!(selected.len(), MAX_WEBRTC_HOST_CANDIDATE_SOCKETS);
    assert_eq!(selected[0], IpAddr::V4(0x0505_0500));
    assert_eq!(selected[1], tunnel);
    let few = select_candidate_addresses(&addresses.split_off(9));
    assert_eq!(few.len(), 4);
}
