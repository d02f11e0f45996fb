//! The resolver that all peer connections of a transport share for the
//! multicast DNS names in session descriptions.

use vstd::prelude::*;
use crate::addr::IpAddr;
use crate::error::{Failure, TransportError, joined};
use crate::rtc::mdns::{
    MAX_MDNS_WAITERS, ascending, hostnames, max_mdns_waiters, mdns_candidate_hostnames, most_preferred,
    preferred_address, strip_mdns_candidates, stripped_from, texts,
};

verus! {

/// How long one name may take to resolve, in milliseconds.
pub const MDNS_RESOLVE_TIMEOUT_MS: u64 = 1_750;

/// How long all names of a description may take to resolve, in milliseconds.
pub const MDNS_BATCH_TIMEOUT_MS: u64 = 1_900;

/// Counters of a resolver.
#[derive(Clone, Copy, Debug, PartialEq, Eq, Structural)]
pub struct MdnsResolverSnapshot {
    /// Resolver daemons that run: none or one.
    pub owner_count: usize,
    pub max_waiters: usize,
    pub active_waiters: usize,
    pub peak_waiters: usize,
}

/// What has to be done to resolve the names of a description.
#[derive(Debug)]
pub enum ResolvePlan {
    /// The description holds no name and stays as it is.
    Unchanged,
    /// Names are not resolved: this is the description without them.
    Stripped(String),
    /// These names are to be looked up.
    Lookup(Vec<String>),
}

/// What a name lookup reports.
#[derive(Debug)]
pub enum HostnameEvent {
    Found(Vec<IpAddr>),
    TimedOut,
    Stopped,
    Other,
}

/// How the resolver daemon answered the request to stop.
#[derive(Debug)]
pub enum DaemonStop {
    /// The request could not be made.
    Refused(String),
    /// The daemon ran down.
    Shutdown,
    /// The daemon reported another status.
    Status(String),
    /// The daemon went away without a status.
    Gone(String),
    /// The daemon did not answer in time.
    TimedOut,
}

/// A resolver. One that is switched off strips names instead.
pub struct SharedMdnsResolver {
    pub enabled: bool,
    pub accepting: bool,
    pub has_daemon: bool,
    pub max_waiters: usize,
    pub active_waiters: usize,
    pub peak_waiters: usize,
}

/// What resolving a description comes to without a lookup, where it can.
pub open spec fn settled_description(
    sdp: Seq<char>,
    enabled: bool,
    accepting: bool,
) -> Option<Result<Seq<char>, Failure>> {
    match hostnames(sdp) {
        Err(failure) => Some(Err(failure)),
        Ok(names) => if names == Set::<Seq<char>>::empty() {
            Some(Ok(sdp))
        } else if !enabled {
            Some(stripped_from(sdp, 0))
        } else if !accepting {
            Some(Err(Failure::NotStarted))
        } else {
            None
        },
    }
}

impl SharedMdnsResolver {
    pub open spec fn inv(self) -> bool {
        &&& self.active_waiters <= self.peak_waiters <= self.max_waiters
        &&& !self.enabled ==> self.max_waiters == 0 && !self.has_daemon
    }

    pub fn new(enabled: bool, max_connections: usize) -> (resolver: SharedMdnsResolver)
        ensures
            resolver.inv(),
            resolver.enabled == enabled,
            resolver.accepting,
            !resolver.has_daemon,
            resolver.max_waiters == if !enabled {
                0
            } else if max_connections < 1 {
                1
            } else if max_connections > MAX_MDNS_WAITERS {
                MAX_MDNS_WAITERS
            } else {
                max_connections
            },
            resolver.active_waiters == 0,
            resolver.peak_waiters == 0,
    {
        let max_waiters: usize = if enabled {
            max_mdns_waiters(max_connections)
        } else {
            0
        };
        SharedMdnsResolver {
            enabled,
            accepting: true,
            has_daemon: false,
            max_waiters,
            active_waiters: 0,
            peak_waiters: 0,
        }
    }

    pub fn start_accepting(&mut self)
        ensures
            *final(self) == (SharedMdnsResolver { accepting: true, ..*old(self) }),
    {
        self.accepting = true;
    }

    /// Decides what has to be done to resolve the names of a description.
    pub fn plan(&self, sdp: &str) -> (result: Result<ResolvePlan, TransportError>)
        ensures
            ({
                let settled = settled_description(sdp@, self.enabled, self.accepting);
                match result {
                    Ok(ResolvePlan::Unchanged) => {
                        &&& settled == Some(Ok::<Seq<char>, Failure>(sdp@))
                        &&& hostnames(sdp@) == Ok::<Set<Seq<char>>, Failure>(Set::empty())
                    },
                    Ok(ResolvePlan::Stripped(text)) => settled == Some(
                        Ok::<Seq<char>, Failure>(text@),
                    ),
                    Ok(ResolvePlan::Lookup(names)) => {
                        &&& settled is None
                        &&& ascending(texts(names@))
                        &&& hostnames(sdp@) == Ok::<Set<Seq<char>>, Failure>(
                            texts(names@).to_set(),
                        )
                    },
                    Err(error) => settled == Some(Err::<Seq<char>, Failure>(error@)),
                }
            }),
    {
        let names = match mdns_candidate_hostnames(sdp) {
            Ok(names) => names,
            Err(error) => {
                return Err(error);
            },
        };
        if names.len() == 0 {
            assert(texts(names@).to_set() =~= Set::<Seq<char>>::empty());
            return Ok(ResolvePlan::Unchanged);
        }
        assert(texts(names@).to_set().contains(texts(names@)[0]));
        if !self.enabled {
            return match strip_mdns_candidates(sdp) {
                Ok(text) => Ok(ResolvePlan::Stripped(text)),
                Err(error) => Err(error),
            };
        }
        if !self.accepting {
            return Err(TransportError::NotStarted);
        }
        Ok(ResolvePlan::Lookup(names))
    }

    /// Whether the daemon has to be started before a lookup. A resolver that
    /// has stopped starts none.
    pub fn claim_daemon(&self) -> (result: Result<bool, TransportError>)
        ensures
            match result {
                Ok(start) => self.accepting && start == !self.has_daemon,
                Err(error) => !self.accepting && error@ == Failure::NotStarted,
            },
    {
        if !self.accepting {
            return Err(TransportError::NotStarted);
        }
        Ok(!self.has_daemon)
    }

    /// The daemon was started, or could not be.
    pub fn daemon_started(&mut self, error: Option<&str>) -> (result: Result<(), TransportError>)
        requires
            old(self).inv(),
            old(self).enabled,
        ensures
            final(self).inv(),
            match result {
                Ok(_) => error is None && *final(self) == (SharedMdnsResolver {
                    has_daemon: true,
                    ..*old(self)
                }),
                Err(e) => error matches Some(text) && e@ == Failure::StartFailed(
                    "failed to start shared WebRTC mDNS resolver: "@ + text@,
                ) && *final(self) == *old(self),
            },
    {
        match error {
            None => {
                self.has_daemon = true;
                Ok(())
            },
            Some(text) => Err(
                TransportError::StartFailed(
                    joined("failed to start shared WebRTC mDNS resolver: ", text),
                ),
            ),
        }
    }

    /// Whether another name may be looked up at the same time.
    pub fn has_room(&self) -> (yes: bool)
        ensures
            yes == (self.active_waiters < self.max_waiters),
    {
        self.active_waiters < self.max_waiters
    }

    /// A name lookup begins.
    pub fn begin_lookup(&mut self)
        requires
            old(self).inv(),
            old(self).active_waiters < old(self).max_waiters,
        ensures
            final(self).inv(),
            *final(self) == (SharedMdnsResolver {
                active_waiters: (old(self).active_waiters + 1) as usize,
                peak_waiters: (if old(self).active_waiters + 1 > old(self).peak_waiters {
                    (old(self).active_waiters + 1) as usize
                } else {
                    old(self).peak_waiters
                }),
                ..*old(self)
            }),
    {
        self.active_waiters = self.active_waiters + 1;
        if self.active_waiters > self.peak_waiters {
            self.peak_waiters = self.active_waiters;
        }
    }

    /// A name lookup ended, however it ended.
    pub fn end_lookup(&mut self)
        requires
            old(self).inv(),
            old(self).active_waiters > 0,
        ensures
            final(self).inv(),
            *final(self) == (SharedMdnsResolver {
                active_waiters: (old(self).active_waiters - 1) as usize,
                ..*old(self)
            }),
    {
        self.active_waiters = self.active_waiters - 1;
    }

    /// Begins to stop the resolver. Says whether a daemon is to be stopped.
    pub fn begin_stop(&mut self) -> (daemon: bool)
        requires
            old(self).inv(),
        ensures
            final(self).inv(),
            daemon == (old(self).enabled && old(self).has_daemon),
            *final(self) == if old(self).enabled {
                (SharedMdnsResolver { accepting: false, has_daemon: false, ..*old(self) })
            } else {
                *old(self)
            },
    {
        if !self.enabled {
            return false;
        }
        self.accepting = false;
        let daemon = self.has_daemon;
        self.has_daemon = false;
        daemon
    }

    pub fn snapshot(&self) -> (snapshot: MdnsResolverSnapshot)
        ensures
            snapshot.owner_count == if self.has_daemon {
                1usize
            } else {
                0
            },
            snapshot.max_waiters == self.max_waiters,
            snapshot.active_waiters == self.active_waiters,
            snapshot.peak_waiters == self.peak_waiters,
    {
        MdnsResolverSnapshot {
            owner_count: if self.has_daemon {
                1
            } else {
                0
            },
            max_waiters: self.max_waiters,
            active_waiters: self.active_waiters,
            peak_waiters: self.peak_waiters,
        }
    }
}

/// The failure that a daemon's answer to the request to stop amounts to.
pub open spec fn stop_failure(stop: DaemonStop) -> Option<Seq<char>> {
    match stop {
        DaemonStop::Refused(error) => Some(
            "failed to stop shared WebRTC mDNS resolver: "@ + error@,
        ),
        DaemonStop::Shutdown => None,
        DaemonStop::Status(status) => Some(
            "shared WebRTC mDNS resolver stopped with "@ + status@,
        ),
        DaemonStop::Gone(error) => Some(
            "shared WebRTC mDNS resolver status channel closed: "@ + error@,
        ),
        DaemonStop::TimedOut => Some(
            "shared WebRTC mDNS resolver did not stop before timeout"@,
        ),
    }
}

/// What stopping the daemon comes to.
pub fn stop_outcome(stop: DaemonStop) -> (result: Result<(), TransportError>)
    ensures
        match result {
            Ok(_) => stop_failure(stop) is None,
            Err(error) => stop_failure(stop) matches Some(text) && error@
                == Failure::ShutdownFailed(text),
        },
{
    match stop {
        DaemonStop::Refused(error) => Err(
            TransportError::ShutdownFailed(
                joined("failed to stop shared WebRTC mDNS resolver: ", error.as_str()),
            ),
        ),
        DaemonStop::Shutdown => Ok(()),
        DaemonStop::Status(status) => Err(
            TransportError::ShutdownFailed(
                joined("shared WebRTC mDNS resolver stopped with ", status.as_str()),
            ),
        ),
        DaemonStop::Gone(error) => Err(
            TransportError::ShutdownFailed(
                joined("shared WebRTC mDNS resolver status channel closed: ", error.as_str()),
            ),
        ),
        DaemonStop::TimedOut => Err(
            TransportError::ShutdownFailed(
                "shared WebRTC mDNS resolver did not stop before timeout".to_owned(),
            ),
        ),
    }
}

/// Handles a report of a name lookup: the lookup ends with an address or an
/// error, or goes on.
pub fn hostname_event(event: &HostnameEvent, hostname: &str) -> (end: Option<
    Result<IpAddr, TransportError>,
>)
    ensures
        match event {
            HostnameEvent::Found(addresses) => if addresses@.len() == 0 {
                end is None
            } else {
                end matches Some(Ok(ip)) && exists|i: int| #[trigger]
                    most_preferred(addresses@, i) && addresses@[i] == ip
            },
            HostnameEvent::TimedOut => end matches Some(Err(e)) && e@ == Failure::Timeout,
            HostnameEvent::Stopped => end matches Some(Err(e)) && e@ == Failure::StartFailed(
                "WebRTC mDNS resolution stopped for "@ + hostname@,
            ),
            HostnameEvent::Other => end is None,
        },
{
    match event {
        HostnameEvent::Found(addresses) => match preferred_address(addresses) {
            Some(ip) => Some(Ok(ip)),
            None => None,
        },
        HostnameEvent::TimedOut => Some(Err(TransportError::Timeout)),
        HostnameEvent::Stopped => Some(
            Err(
                TransportError::StartFailed(
                    joined("WebRTC mDNS resolution stopped for ", hostname),
                ),
            ),
        ),
        HostnameEvent::Other => None,
    }
}

// ---------------------------------------------------------------------------
// Laws
// ---------------------------------------------------------------------------

/// A description without names needs no resolver, whatever its state.
pub proof fn plain_descriptions_need_no_resolver(sdp: Seq<char>, enabled: bool, accepting: bool)
    requires
        hostnames(sdp) == Ok::<Set<Seq<char>>, Failure>(Set::empty()),
    ensures
        settled_description(sdp, enabled, accepting) == Some(Ok::<Seq<char>, Failure>(sdp)),
{
}

/// A resolver that is switched off never looks a name up.
pub proof fn disabled_resolver_looks_nothing_up(sdp: Seq<char>, accepting: bool)
    ensures
        settled_description(sdp, false, accepting) is Some,
{
}

/// A description is settled without a lookup exactly where its names could not be
/// taken, where it has none, where names are not resolved, or where the resolver
/// has stopped. It then fails as its names did, stays, is stripped, or fails for
/// the stop; otherwise its names are looked up.
pub proof fn descriptions_are_settled(
    sdp: Seq<char>,
    names: Set<Seq<char>>,
    name: Seq<char>,
    failure: Failure,
    enabled: bool,
    accepting: bool,
)
    ensures
        hostnames(sdp) == Err::<Set<Seq<char>>, Failure>(failure) ==> settled_description(
            sdp,
            enabled,
            accepting,
        ) == Some(Err::<Seq<char>, Failure>(failure)),
        hostnames(sdp) == Ok::<Set<Seq<char>>, Failure>(names) && names.contains(name) ==> {
            &&& settled_description(sdp, enabled, accepting) is None <==> enabled && accepting
            &&& settled_description(sdp, false, accepting) == Some(stripped_from(sdp, 0))
            &&& settled_description(sdp, true, false) == Some(
                Err::<Seq<char>, Failure>(Failure::NotStarted),
            )
        },
{
}

/// A daemon has stopped only where it reports that it shut down; everything else is
/// a failure that says what came instead.
pub proof fn only_a_shutdown_is_a_stop(stop: DaemonStop)
    ensures
        stop_failure(stop) is None <==> stop is Shutdown,
        stop matches DaemonStop::Refused(error) ==> stop_failure(stop) == Some(
            "failed to stop shared WebRTC mDNS resolver: "@ + error@,
        ),
        stop matches DaemonStop::Status(status) ==> stop_failure(stop) == Some(
            "shared WebRTC mDNS resolver stopped with "@ + status@,
        ),
        stop matches DaemonStop::Gone(error) ==> stop_failure(stop) == Some(
            "shared WebRTC mDNS resolver status channel closed: "@ + error@,
        ),
        stop is TimedOut ==> stop_failure(stop) == Some(
            "shared WebRTC mDNS resolver did not stop before timeout"@,
        ),
{
}

/// A resolver that keeps its invariant looks up no more than eight names at a time
/// where it was made for that many, and none where it is switched off.
pub proof fn lookups_are_bounded(resolver: SharedMdnsResolver)
    requires
        resolver.inv(),
    ensures
        resolver.active_waiters <= resolver.max_waiters,
        resolver.active_waiters <= resolver.peak_waiters,
        resolver.peak_waiters <= resolver.max_waiters,
        !resolver.enabled ==> resolver.active_waiters == 0 && !resolver.has_daemon,
        MAX_MDNS_WAITERS == 8,
        MDNS_RESOLVE_TIMEOUT_MS == 1_750,
        MDNS_BATCH_TIMEOUT_MS == MDNS_RESOLVE_TIMEOUT_MS + 150,
{
}

} // verus!
