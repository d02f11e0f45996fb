//! Limits and settings of the WebRTC transport.

use vstd::prelude::*;
use crate::rtc::ice_url::texts;

verus! {

/// Host candidate sockets that one peer connection may gather.
pub const MAX_WEBRTC_HOST_CANDIDATE_SOCKETS: usize = 8;

/// STUN servers that one peer connection may use.
pub const MAX_WEBRTC_STUN_SERVERS: usize = 4;

/// Sockets that gathering opens for each STUN server: one for each IP family.
pub const MAX_WEBRTC_SOCKETS_PER_STUN_SERVER: usize = 2;

/// Candidate routes that a local description may hold.
pub const MAX_WEBRTC_LOCAL_CANDIDATE_ROUTES: usize = 16;

/// Candidate lines that a local description may hold: two components per route.
pub const MAX_WEBRTC_LOCAL_CANDIDATE_LINES: usize = 32;

/// Candidate routes that a remote description may hold.
pub const MAX_WEBRTC_REMOTE_CANDIDATE_ROUTES: usize = 32;

/// Candidate lines that a remote description may hold.
pub const MAX_WEBRTC_REMOTE_CANDIDATE_LINES: usize = 64;

/// Candidate sockets that a transport may open with its default capacity.
pub const MAX_WEBRTC_CONFIG_CANDIDATE_SOCKETS: usize = 1024;

/// Bytes of one candidate.
pub const MAX_WEBRTC_CANDIDATE_LENGTH: usize = 2048;

/// Bytes of one session description.
pub const MAX_WEBRTC_SDP_LENGTH: usize = 49152;

/// How long a signal is valid, in milliseconds.
pub const SIGNAL_TTL_MS: u64 = 60_000;

/// Signal handlers that run at the same time.
pub const MAX_WEBRTC_SIGNAL_TASKS: usize = 32;

/// Settings of a WebRTC transport; what is unset has its default.
#[derive(Debug)]
pub struct WebRtcConfig {
    pub accept_connections: Option<bool>,
    pub max_connections: Option<usize>,
    pub ice_gather_timeout_ms: Option<u64>,
    pub resolve_mdns_candidates: Option<bool>,
    pub stun_servers: Option<Vec<String>>,
}

impl WebRtcConfig {
    /// Settings with everything unset.
    pub fn unset() -> (config: WebRtcConfig)
        ensures
            config.accept_connections is None,
            config.max_connections is None,
            config.ice_gather_timeout_ms is None,
            config.resolve_mdns_candidates is None,
            config.stun_servers is None,
    {
        WebRtcConfig {
            accept_connections: None,
            max_connections: None,
            ice_gather_timeout_ms: None,
            resolve_mdns_candidates: None,
            stun_servers: None,
        }
    }

    /// How many peer connections the transport may hold.
    pub fn max_connections(&self) -> (n: usize)
        ensures
            n == (match self.max_connections {
                Some(m) => m,
                None => 64,
            }),
    {
        match self.max_connections {
            Some(n) => n,
            None => 64,
        }
    }

    /// How long ICE gathering may take.
    pub fn ice_gather_timeout_ms(&self) -> (ms: u64)
        ensures
            ms == (match self.ice_gather_timeout_ms {
                Some(m) => m,
                None => 2_000,
            }),
    {
        match self.ice_gather_timeout_ms {
            Some(ms) => ms,
            None => 2_000,
        }
    }

    /// Whether peers may begin sessions; they may unless set otherwise.
    pub fn accept_connections(&self) -> (yes: bool)
        ensures
            yes == (self.accept_connections != Some(false)),
    {
        match self.accept_connections {
            Some(set) => set,
            None => true,
        }
    }

    /// Whether the names in descriptions are resolved; they are unless set
    /// otherwise.
    pub fn resolve_mdns_candidates(&self) -> (yes: bool)
        ensures
            yes == (self.resolve_mdns_candidates != Some(false)),
    {
        match self.resolve_mdns_candidates {
            Some(set) => set,
            None => true,
        }
    }

    /// The STUN servers to use: those of the settings, where they are set, even
    /// if to none at all, and else the given ones.
    pub fn stun_servers(&self, fallback: &Vec<String>) -> (servers: Vec<String>)
        ensures
            texts(servers@) == texts(self.chosen_servers(fallback@)),
    {
        match &self.stun_servers {
            Some(servers) => copy_strings(servers),
            None => copy_strings(fallback),
        }
    }

    pub open spec fn chosen_servers(self, fallback: Seq<String>) -> Seq<String> {
        match self.stun_servers {
            Some(servers) => servers@,
            None => fallback,
        }
    }
}

impl Default for WebRtcConfig {
    fn default() -> (config: WebRtcConfig)
        ensures
            config.accept_connections is None,
            config.max_connections is None,
            config.ice_gather_timeout_ms is None,
            config.resolve_mdns_candidates is None,
            config.stun_servers is None,
    {
        WebRtcConfig::unset()
    }
}

/// Copies a vector of strings.
fn copy_strings(strings: &Vec<String>) -> (copy: Vec<String>)
    ensures
        texts(copy@) == texts(strings@),
{
    let mut copy: Vec<String> = Vec::new();
    let mut i: usize = 0;
    while i < strings.len()
        invariant
            i <= strings@.len(),
            copy@.len() == i,
            forall|k: int| 0 <= k < i ==> (#[trigger] copy@[k])@ == strings@[k]@,
        decreases strings@.len() - i,
    {
        copy.push(strings[i].clone());
        i = i + 1;
    }
    assert(texts(copy@) =~= texts(strings@));
    copy
}

/// A local description has room for every route that gathering can produce:
/// one for each host socket and each socket towards a STUN server.
pub proof fn local_routes_cover_the_sockets()
    ensures
        MAX_WEBRTC_LOCAL_CANDIDATE_ROUTES == MAX_WEBRTC_HOST_CANDIDATE_SOCKETS
            + MAX_WEBRTC_STUN_SERVERS * MAX_WEBRTC_SOCKETS_PER_STUN_SERVER,
{
}

/// The limits: a remote description may hold twice what a local one may, every
/// description twice as many lines as routes, and a signal lasts a minute.
pub proof fn limits_fit_together()
    ensures
        MAX_WEBRTC_HOST_CANDIDATE_SOCKETS == 8,
        MAX_WEBRTC_STUN_SERVERS == 4,
        MAX_WEBRTC_SOCKETS_PER_STUN_SERVER == 2,
        MAX_WEBRTC_LOCAL_CANDIDATE_ROUTES == 16,
        MAX_WEBRTC_LOCAL_CANDIDATE_LINES == 2 * MAX_WEBRTC_LOCAL_CANDIDATE_ROUTES,
        MAX_WEBRTC_REMOTE_CANDIDATE_ROUTES == 2 * MAX_WEBRTC_LOCAL_CANDIDATE_ROUTES,
        MAX_WEBRTC_REMOTE_CANDIDATE_LINES == 2 * MAX_WEBRTC_REMOTE_CANDIDATE_ROUTES,
        MAX_WEBRTC_CONFIG_CANDIDATE_SOCKETS == 64 * MAX_WEBRTC_LOCAL_CANDIDATE_ROUTES,
        MAX_WEBRTC_CANDIDATE_LENGTH == 2 * 1024,
        MAX_WEBRTC_SDP_LENGTH == 48 * 1024,
        SIGNAL_TTL_MS == 60 * 1000,
        MAX_WEBRTC_SIGNAL_TASKS == 32,
{
}

/// Servers that are set are used, even if there are none of them; others are used
/// only where none are set.
pub proof fn set_servers_are_used(config: WebRtcConfig, fallback: Seq<String>)
    ensures
        config.stun_servers matches Some(servers) ==> config.chosen_servers(fallback) == servers@,
        config.stun_servers is None ==> config.chosen_servers(fallback) == fallback,
{
}

} // verus!
