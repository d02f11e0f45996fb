//! Negotiation signals: their form, their validity and their deadlines.

use vstd::prelude::*;
use vstd::utf8::encode_utf8;
use crate::error::{Failure, TransportError};
use crate::text::{chars_of, has, occurs_in, parts_are_found, same_text};
use crate::rtc::candidates::{
    EmbeddedCandidateCount, EmbeddedCandidateScope, Scan, scanned, validate_embedded_ice_candidates,
};
use crate::rtc::config::{
    MAX_WEBRTC_CANDIDATE_LENGTH, MAX_WEBRTC_REMOTE_CANDIDATE_ROUTES, MAX_WEBRTC_SDP_LENGTH,
    SIGNAL_TTL_MS,
};

verus! {

/// The version of the negotiation messages.
pub const LINK_NEGOTIATION_VERSION: u32 = 1;

/// Nanoseconds in a millisecond.
pub const NANOS_PER_MS: u64 = 1_000_000;

/// What a signal is for.
#[derive(Clone, Copy, Debug, PartialEq, Eq, Structural)]
pub enum LinkNegotiationKind {
    Offer,
    Answer,
    Reject,
    Candidate,
}

/// A candidate that is sent apart from a description.
#[derive(Debug)]
pub struct IceCandidateJson {
    pub candidate: String,
    pub sdp_mid: Option<String>,
    pub sdp_m_line_index: Option<u16>,
}

/// What a signal carries.
#[derive(Debug)]
pub struct WebRtcSignalPayload {
    pub sdp: Option<String>,
    pub candidates: Option<Vec<IceCandidateJson>>,
}

/// A negotiation signal.
#[derive(Debug)]
pub struct WebRtcSignal {
    pub version: u32,
    pub negotiation_id: String,
    pub link_type: String,
    pub kind: LinkNegotiationKind,
    pub created_at_ms: u64,
    pub expires_at_ms: u64,
    pub payload: WebRtcSignalPayload,
}

/// The failure of a description without candidates.
pub open spec fn no_candidates() -> Failure {
    Failure::StartFailed("WebRTC non-trickle SDP contains no ICE candidates"@)
}

/// Why a description cannot be used without candidates to follow, if it cannot.
pub open spec fn description_refusal(sdp: Seq<char>, scope: EmbeddedCandidateScope) -> Option<
    Failure,
> {
    match scanned(sdp, scope) {
        Err(failure) => Some(failure),
        Ok(scan) => if scan.keys.len() == 0 {
            Some(no_candidates())
        } else {
            None
        },
    }
}

/// Counts the candidates of a description, of which there must be one at least.
pub fn require_embedded_candidates(sdp: &str, scope: EmbeddedCandidateScope) -> (result: Result<
    EmbeddedCandidateCount,
    TransportError,
>)
    ensures
        match result {
            Ok(count) => {
                &&& description_refusal(sdp@, scope) is None
                &&& scanned(sdp@, scope) matches Ok(scan) && count.raw_lines == scan.lines
                    && count.unique_routes == scan.keys.len()
            },
            Err(error) => description_refusal(sdp@, scope) == Some(error@),
        },
{
    match validate_embedded_ice_candidates(sdp, scope) {
        Err(error) => Err(error),
        Ok(count) => check_candidate_count(count),
    }
}

/// Refuses a count of no route at all.
pub fn check_candidate_count(count: EmbeddedCandidateCount) -> (result: Result<
    EmbeddedCandidateCount,
    TransportError,
>)
    ensures
        match result {
            Ok(c) => c == count && count.unique_routes > 0,
            Err(error) => count.unique_routes == 0 && error@ == no_candidates(),
        },
{
    if count.unique_routes == 0 {
        return Err(
            TransportError::StartFailed(
                "WebRTC non-trickle SDP contains no ICE candidates".to_owned(),
            ),
        );
    }
    Ok(count)
}

/// The number of different routes in a peer's description, of which there must
/// be one at least.
pub fn require_non_trickle_ice_candidates(sdp: &str) -> (result: Result<usize, TransportError>)
    ensures
        match result {
            Ok(routes) => {
                &&& description_refusal(sdp@, EmbeddedCandidateScope::Remote) is None
                &&& scanned(sdp@, EmbeddedCandidateScope::Remote) matches Ok(scan) && routes
                    == scan.keys.len()
            },
            Err(error) => description_refusal(sdp@, EmbeddedCandidateScope::Remote) == Some(error@),
        },
{
    match require_embedded_candidates(sdp, EmbeddedCandidateScope::Remote) {
        Ok(count) => Ok(count.unique_routes),
        Err(error) => Err(error),
    }
}

/// The failure of an offer or answer without a usable description.
pub open spec fn unbounded_description() -> Failure {
    Failure::InvalidAddress("WebRTC offer/answer requires bounded SDP"@)
}

/// Whether a signal's lifetime is in order at the time `now`: it does not end
/// before it begins, it has not passed, it does not begin too far ahead, and it
/// is not too long.
pub open spec fn lifetime_ok(created_at_ms: u64, expires_at_ms: u64, now: u64) -> bool {
    &&& created_at_ms <= expires_at_ms
    &&& now <= expires_at_ms
    &&& created_at_ms <= now + SIGNAL_TTL_MS
    &&& expires_at_ms - created_at_ms <= SIGNAL_TTL_MS
}

/// Whether a payload's separate candidates are within the limits.
pub open spec fn candidates_ok(candidates: Option<Vec<IceCandidateJson>>) -> bool {
    match candidates {
        None => true,
        Some(list) => {
            &&& list@.len() <= MAX_WEBRTC_REMOTE_CANDIDATE_ROUTES
            &&& forall|i: int|
                0 <= i < list@.len() ==> encode_utf8((#[trigger] list@[i]).candidate@).len()
                    <= MAX_WEBRTC_CANDIDATE_LENGTH
        },
    }
}

/// Whether a description is there and within its length limit.
pub open spec fn description_bounded(sdp: Option<String>) -> bool {
    match sdp {
        None => false,
        Some(text) => text@.len() > 0 && encode_utf8(text@).len() <= MAX_WEBRTC_SDP_LENGTH,
    }
}

/// Why a signal is refused at the time `now`, if it is. The checks come in this
/// order, and the first that fails decides.
pub open spec fn signal_refusal(signal: WebRtcSignal, now: u64) -> Option<Failure> {
    if signal.version != LINK_NEGOTIATION_VERSION {
        Some(Failure::InvalidAddress("bad WebRTC version"@))
    } else if signal.link_type@ != "webrtc"@ {
        Some(Failure::InvalidAddress("bad WebRTC link-negotiation type"@))
    } else if !lifetime_ok(signal.created_at_ms, signal.expires_at_ms, now) {
        Some(Failure::Timeout)
    } else {
        let described = signal.kind is Offer || signal.kind is Answer;
        if described && !description_bounded(signal.payload.sdp) {
            Some(unbounded_description())
        } else if described && description_refusal(
            signal.payload.sdp->0@,
            EmbeddedCandidateScope::Remote,
        ) is Some {
            description_refusal(signal.payload.sdp->0@, EmbeddedCandidateScope::Remote)
        } else if !candidates_ok(signal.payload.candidates) {
            Some(Failure::InvalidAddress("WebRTC candidate payload exceeds limits"@))
        } else {
            None
        }
    }
}

fn candidates_within_limits(candidates: &Vec<IceCandidateJson>) -> (yes: bool)
    ensures
        yes == (candidates@.len() <= MAX_WEBRTC_REMOTE_CANDIDATE_ROUTES && forall|i: int|
            0 <= i < candidates@.len() ==> encode_utf8((#[trigger] candidates@[i]).candidate@).len()
                <= MAX_WEBRTC_CANDIDATE_LENGTH),
{
    if candidates.len() > MAX_WEBRTC_REMOTE_CANDIDATE_ROUTES {
        return false;
    }
    let mut i: usize = 0;
    while i < candidates.len()
        invariant
            i <= candidates@.len(),
            forall|k: int|
                0 <= k < i ==> encode_utf8((#[trigger] candidates@[k]).candidate@).len()
                    <= MAX_WEBRTC_CANDIDATE_LENGTH,
        decreases candidates@.len() - i,
    {
        let text = candidates[i].candidate.as_str();
        if text.as_bytes().len() > MAX_WEBRTC_CANDIDATE_LENGTH {
            assert(encode_utf8(candidates@[i as int].candidate@).len()
                > MAX_WEBRTC_CANDIDATE_LENGTH);
            return false;
        }
        i = i + 1;
    }
    true
}

/// Checks a signal at the time `now`.
pub fn validate_signal(signal: &WebRtcSignal, now: u64) -> (result: Result<(), TransportError>)
    ensures
        match result {
            Ok(_) => signal_refusal(*signal, now) is None,
            Err(error) => signal_refusal(*signal, now) == Some(error@),
        },
{
    if signal.version != LINK_NEGOTIATION_VERSION {
        return Err(TransportError::InvalidAddress("bad WebRTC version".to_owned()));
    }
    if !same_text(signal.link_type.as_str(), "webrtc") {
        return Err(
            TransportError::InvalidAddress("bad WebRTC link-negotiation type".to_owned()),
        );
    }
    if signal.expires_at_ms < signal.created_at_ms {
        return Err(TransportError::Timeout);
    }
    let latest_start: u64 = now.saturating_add(SIGNAL_TTL_MS);
    if signal.expires_at_ms < now || signal.created_at_ms > latest_start || signal.expires_at_ms
        - signal.created_at_ms > SIGNAL_TTL_MS {
        return Err(TransportError::Timeout);
    }
    match signal.kind {
        LinkNegotiationKind::Offer | LinkNegotiationKind::Answer => {
            match &signal.payload.sdp {
                None => {
                    return Err(
                        TransportError::InvalidAddress(
                            "WebRTC offer/answer requires bounded SDP".to_owned(),
                        ),
                    );
                },
                Some(sdp) => {
                    let text = sdp.as_str();
                    if text.is_empty() || text.as_bytes().len() > MAX_WEBRTC_SDP_LENGTH {
                        return Err(
                            TransportError::InvalidAddress(
                                "WebRTC offer/answer requires bounded SDP".to_owned(),
                            ),
                        );
                    }
                    match require_embedded_candidates(text, EmbeddedCandidateScope::Remote) {
                        Err(error) => {
                            return Err(error);
                        },
                        Ok(_) => {},
                    }
                },
            }
        },
        LinkNegotiationKind::Reject | LinkNegotiationKind::Candidate => {},
    }
    match &signal.payload.candidates {
        Some(candidates) => {
            if !candidates_within_limits(candidates) {
                return Err(
                    TransportError::InvalidAddress(
                        "WebRTC candidate payload exceeds limits".to_owned(),
                    ),
                );
            }
        },
        None => {},
    }
    Ok(())
}

/// A rejection of a session, valid from `now` on.
pub fn reject_signal(session_id: String, now: u64) -> (signal: WebRtcSignal)
    ensures
        signal.version == LINK_NEGOTIATION_VERSION,
        signal.negotiation_id == session_id,
        signal.link_type@ == "webrtc"@,
        signal.kind == LinkNegotiationKind::Reject,
        signal.created_at_ms == now,
        signal.expires_at_ms == if now + SIGNAL_TTL_MS <= u64::MAX {
            now + SIGNAL_TTL_MS
        } else {
            u64::MAX as int
        },
        signal.payload.sdp is None,
        signal.payload.candidates is None,
        signal_refusal(signal, now) is None,
{
    WebRtcSignal {
        version: LINK_NEGOTIATION_VERSION,
        negotiation_id: session_id,
        link_type: "webrtc".to_owned(),
        kind: LinkNegotiationKind::Reject,
        created_at_ms: now,
        expires_at_ms: now.saturating_add(SIGNAL_TTL_MS),
        payload: WebRtcSignalPayload { sdp: None, candidates: None },
    }
}

/// An offer or answer with a complete description, valid from `now` until
/// `expires_at_ms`.
pub fn description_signal(
    kind: LinkNegotiationKind,
    session_id: String,
    sdp: String,
    now: u64,
    expires_at_ms: u64,
) -> (signal: WebRtcSignal)
    ensures
        signal.version == LINK_NEGOTIATION_VERSION,
        signal.negotiation_id == session_id,
        signal.link_type@ == "webrtc"@,
        signal.kind == kind,
        signal.created_at_ms == now,
        signal.expires_at_ms == expires_at_ms,
        signal.payload.sdp == Some(sdp),
        signal.payload.candidates is None,
{
    WebRtcSignal {
        version: LINK_NEGOTIATION_VERSION,
        negotiation_id: session_id,
        link_type: "webrtc".to_owned(),
        kind,
        created_at_ms: now,
        expires_at_ms,
        payload: WebRtcSignalPayload { sdp: Some(sdp), candidates: None },
    }
}

// ---------------------------------------------------------------------------
// Deadlines
// ---------------------------------------------------------------------------

/// What is left of a deadline, in whole milliseconds, and at most a signal's
/// lifetime. Both arguments are readings of the monotonic clock in nanoseconds.
pub open spec fn remaining_ms(deadline: u64, monotonic_now: u64) -> int {
    let left = if deadline > monotonic_now {
        (deadline - monotonic_now) / NANOS_PER_MS as int
    } else {
        0
    };
    if left < SIGNAL_TTL_MS {
        left
    } else {
        SIGNAL_TTL_MS as int
    }
}

/// When a signal that serves a deadline expires on the wall clock.
pub fn signal_expiry_for_deadline(deadline: u64, monotonic_now: u64, wall_now_ms: u64) -> (ms: u64)
    ensures
        ms == if wall_now_ms + remaining_ms(deadline, monotonic_now) <= u64::MAX {
            wall_now_ms + remaining_ms(deadline, monotonic_now)
        } else {
            u64::MAX as int
        },
{
    let left: u64 = deadline.saturating_sub(monotonic_now) / NANOS_PER_MS;
    let bounded: u64 = if left < SIGNAL_TTL_MS {
        left
    } else {
        SIGNAL_TTL_MS
    };
    wall_now_ms.saturating_add(bounded)
}

/// How many nanoseconds a signal leaves for its handling: until it expires, at
/// most a signal's lifetime, and at most the local timeout.
pub open spec fn signal_budget(expires_at_ms: u64, local_timeout: u64, wall_now_ms: u64) -> int {
    let left = if expires_at_ms > wall_now_ms {
        expires_at_ms - wall_now_ms
    } else {
        0
    };
    let bounded = if left < SIGNAL_TTL_MS {
        left
    } else {
        SIGNAL_TTL_MS as int
    };
    if bounded * NANOS_PER_MS < local_timeout {
        bounded * NANOS_PER_MS
    } else {
        local_timeout as int
    }
}

/// The monotonic deadline for handling a signal: the initiator's remaining time,
/// which the local timeout may only shorten.
pub fn deadline_from_signal(
    expires_at_ms: u64,
    local_timeout: u64,
    monotonic_now: u64,
    wall_now_ms: u64,
) -> (deadline: u64)
    requires
        monotonic_now + signal_budget(expires_at_ms, local_timeout, wall_now_ms) <= u64::MAX,
    ensures
        deadline == monotonic_now + signal_budget(expires_at_ms, local_timeout, wall_now_ms),
        deadline <= monotonic_now + local_timeout,
{
    let left: u64 = expires_at_ms.saturating_sub(wall_now_ms);
    let bounded: u64 = if left < SIGNAL_TTL_MS {
        left
    } else {
        SIGNAL_TTL_MS
    };
    let nanos: u64 = bounded * NANOS_PER_MS;
    let budget: u64 = if nanos < local_timeout {
        nanos
    } else {
        local_timeout
    };
    monotonic_now + budget
}

/// Whether a failure is a negotiation that ran out of time.
pub open spec fn timed_out(failure: Failure) -> bool {
    match failure {
        Failure::Timeout => true,
        Failure::StartFailed(reason) => occurs_in(reason, "timed out"@) || occurs_in(
            reason,
            "deadline exceeded"@,
        ),
        _ => false,
    }
}

pub fn is_negotiation_timeout(error: &TransportError) -> (yes: bool)
    ensures
        yes == timed_out(error@),
{
    match error {
        TransportError::Timeout => true,
        TransportError::StartFailed(reason) => {
            let text = chars_of(reason.as_str());
            let first = chars_of("timed out");
            let second = chars_of("deadline exceeded");
            has(&text, &first) || has(&text, &second)
        },
        _ => false,
    }
}

/// The outcome of waiting for ICE gathering.
pub fn ice_gathering_outcome(completed: bool) -> (result: Result<(), TransportError>)
    ensures
        match result {
            Ok(_) => completed,
            Err(error) => !completed && error@ == Failure::StartFailed(
                "WebRTC ICE gathering timed out"@,
            ),
        },
{
    if completed {
        Ok(())
    } else {
        Err(TransportError::StartFailed("WebRTC ICE gathering timed out".to_owned()))
    }
}

// ---------------------------------------------------------------------------
// Laws
// ---------------------------------------------------------------------------

/// A signal that serves a deadline leaves its receiver no more time than the
/// deadline has left, whatever the receiver's own timeout is, provided that it
/// is read no earlier than it was written.
pub proof fn receiver_never_outlives_the_deadline(
    deadline: u64,
    monotonic_now: u64,
    wall_now_ms: u64,
    read_at_ms: u64,
    local_timeout: u64,
)
    requires
        wall_now_ms <= read_at_ms,
        wall_now_ms + SIGNAL_TTL_MS <= u64::MAX,
        deadline >= monotonic_now,
    ensures
        signal_budget(
            (wall_now_ms + remaining_ms(deadline, monotonic_now)) as u64,
            local_timeout,
            read_at_ms,
        ) <= deadline - monotonic_now,
{
    let left = remaining_ms(deadline, monotonic_now);
    assert(left * NANOS_PER_MS <= deadline - monotonic_now) by (nonlinear_arith)
        requires
            left <= (deadline - monotonic_now) / 1_000_000,
            deadline >= monotonic_now,
    ;
}

/// A signal that was valid once stays valid until it expires: nothing but the
/// passing of its lifetime refuses it later.
pub proof fn only_expiry_ends_validity(created_at_ms: u64, expires_at_ms: u64, now: u64, later: u64)
    requires
        lifetime_ok(created_at_ms, expires_at_ms, now),
        now <= later,
    ensures
        lifetime_ok(created_at_ms, expires_at_ms, later) == (later <= expires_at_ms),
{
}

/// A description passes exactly where every line of it could be counted and at
/// least one route was; where a line could not, it fails as the line did.
pub proof fn descriptions_need_a_route(sdp: Seq<char>, scope: EmbeddedCandidateScope, failure: Failure)
    ensures
        description_refusal(sdp, scope) is None <==> (scanned(sdp, scope) matches Ok(scan)
            && scan.keys.len() > 0),
        scanned(sdp, scope) == Err::<Scan, Failure>(failure) ==> description_refusal(sdp, scope)
            == Some(failure),
        scanned(sdp, scope) matches Ok(scan) ==> (scan.keys.len() == 0 ==> description_refusal(
            sdp,
            scope,
        ) == Some(Failure::StartFailed("WebRTC non-trickle SDP contains no ICE candidates"@))),
{
}

/// A signal's time: it ends no earlier than it begins, lasts at most a minute,
/// has not ended, and begins at most a minute from now.
pub proof fn signals_last_a_minute(created_at_ms: u64, expires_at_ms: u64, now: u64)
    ensures
        lifetime_ok(created_at_ms, expires_at_ms, now) <==> created_at_ms <= expires_at_ms
            && expires_at_ms <= created_at_ms + 60_000 && now <= expires_at_ms && created_at_ms
            <= now + 60_000,
        created_at_ms + 60_000 <= u64::MAX ==> lifetime_ok(
            created_at_ms,
            (created_at_ms + 60_000) as u64,
            created_at_ms,
        ),
{
}

/// Candidates apart from a description are within limits where there are at most
/// 32 and each is at most 2048 bytes long; so is a signal without any.
pub proof fn separate_candidates_are_limited(candidates: Vec<IceCandidateJson>, i: int)
    ensures
        candidates_ok(None),
        candidates_ok(Some(candidates)) ==> candidates@.len() <= 32,
        candidates_ok(Some(candidates)) && 0 <= i < candidates@.len() ==> encode_utf8(
            candidates@[i].candidate@,
        ).len() <= 2048,
        candidates@.len() > 32 ==> !candidates_ok(Some(candidates)),
        0 <= i < candidates@.len() && encode_utf8(candidates@[i].candidate@).len() > 2048
            ==> !candidates_ok(Some(candidates)),
        candidates@.len() <= 32 && (forall|k: int|
            0 <= k < candidates@.len() ==> encode_utf8((#[trigger] candidates@[k]).candidate@).len()
                <= 2048) ==> candidates_ok(Some(candidates)),
{
}

/// A description is bounded where there is one, it is not empty, and it has at
/// most 49152 bytes.
pub proof fn descriptions_are_limited(sdp: String)
    ensures
        !description_bounded(None),
        description_bounded(Some(sdp)) <==> sdp@.len() > 0 && encode_utf8(sdp@).len() <= 49_152,
{
}

/// A signal passes exactly where it is of this version and kind of link, in its
/// time, described within limits by at least one route where it is an offer or an
/// answer, and with separate candidates within limits. A signal that is only late
/// times out; the first condition that does not hold gives the failure.
pub proof fn signals_are_checked(signal: WebRtcSignal, now: u64)
    ensures
        ({
            let refusal = signal_refusal(signal, now);
            let ours = signal.version == 1 && signal.link_type@ == "webrtc"@;
            let in_time = lifetime_ok(signal.created_at_ms, signal.expires_at_ms, now);
            let plain = signal.kind is Reject || signal.kind is Candidate;
            let bounded = plain || description_bounded(signal.payload.sdp);
            let described = plain || (signal.payload.sdp matches Some(sdp) && description_refusal(
                sdp@,
                EmbeddedCandidateScope::Remote,
            ) is None);
            let candidates = candidates_ok(signal.payload.candidates);
            &&& refusal is None <==> ours && in_time && bounded && described && candidates
            &&& signal.version != 1 ==> refusal == Some(
                Failure::InvalidAddress("bad WebRTC version"@),
            )
            &&& signal.version == 1 && !ours ==> refusal == Some(
                Failure::InvalidAddress("bad WebRTC link-negotiation type"@),
            )
            &&& ours && !in_time ==> refusal == Some(Failure::Timeout)
            &&& ours && in_time && !bounded ==> refusal == Some(
                Failure::InvalidAddress("WebRTC offer/answer requires bounded SDP"@),
            )
            &&& ours && in_time && bounded && !described ==> (signal.payload.sdp matches Some(sdp)
                ==> refusal == description_refusal(sdp@, EmbeddedCandidateScope::Remote))
            &&& ours && in_time && bounded && described && !candidates ==> refusal == Some(
                Failure::InvalidAddress("WebRTC candidate payload exceeds limits"@),
            )
        }),
{
}

/// What is left of a deadline is counted in whole milliseconds, is nothing once the
/// deadline has passed, and is at most a minute.
pub proof fn deadlines_are_counted_down(deadline: u64, monotonic_now: u64)
    ensures
        ({
            let left = remaining_ms(deadline, monotonic_now);
            &&& 0 <= left <= 60_000
            &&& deadline <= monotonic_now ==> left == 0
            &&& deadline >= monotonic_now ==> left * 1_000_000 <= deadline - monotonic_now
            &&& left < 60_000 ==> deadline - monotonic_now < (left + 1) * 1_000_000
        }),
{
}

/// The time that a signal leaves its receiver is the least of what is left until
/// the signal expires, of a minute, and of the receiver's own timeout.
pub proof fn budgets_are_the_least(expires_at_ms: u64, local_timeout: u64, wall_now_ms: u64)
    ensures
        ({
            let budget = signal_budget(expires_at_ms, local_timeout, wall_now_ms);
            let left = if expires_at_ms > wall_now_ms {
                (expires_at_ms - wall_now_ms) * 1_000_000
            } else {
                0
            };
            &&& budget <= local_timeout
            &&& budget <= left
            &&& budget <= 60_000_000_000
            &&& budget == local_timeout || budget == left || budget == 60_000_000_000
        }),
{
}

/// A failure is one of time where it is a timeout, or a failed start whose words
/// say so anywhere; no other failure is.
pub proof fn failures_of_time_say_so(before: Seq<char>, after: Seq<char>, reason: Seq<char>)
    ensures
        timed_out(Failure::Timeout),
        timed_out(Failure::StartFailed(before + "timed out"@ + after)),
        timed_out(Failure::StartFailed(before + "deadline exceeded"@ + after)),
        timed_out(Failure::StartFailed(reason)) <==> occurs_in(reason, "timed out"@) || occurs_in(
            reason,
            "deadline exceeded"@,
        ),
        !timed_out(Failure::ConnectionRefused),
        !timed_out(Failure::InvalidAddress(reason)),
        !timed_out(Failure::SendFailed(reason)),
        !timed_out(Failure::NotStarted),
{
    parts_are_found(before, "timed out"@, after);
    parts_are_found(before, "deadline exceeded"@, after);
}

} // verus!
