//! The steps from a reserved slot to a queued offer or answer.
//!
//! An offerer creates a peer connection and a data channel, admits the session
//! and sends an offer. An answerer creates a peer connection, admits the
//! session, applies the offer and sends an answer. Each step is carried out by
//! the caller, who reports whether it succeeded.

use vstd::prelude::*;
use crate::addr::TransportAddr;
use crate::error::{Connection, Failure, TransportError, joined};
use crate::rtc::candidates::EmbeddedCandidateScope;
use crate::rtc::lifecycle::PhysicalResources;
use crate::rtc::sessions::{
    Dial, PendingDial, PendingDialOrigin, SessionTables, Sessions, WebRtcSessionOwner,
};
use crate::rtc::signal::{
    LINK_NEGOTIATION_VERSION, LinkNegotiationKind, WebRtcSignal, description_refusal, description_signal,
    require_embedded_candidates,
};

verus! {

/// Which description a side sends.
#[derive(Clone, Copy, Debug, PartialEq, Eq, Structural)]
pub enum NegotiationRole {
    Offerer,
    Answerer,
}

impl NegotiationRole {
    /// The side that began the session, as the tables record it.
    pub open spec fn spec_origin(self) -> PendingDialOrigin {
        match self {
            NegotiationRole::Offerer => PendingDialOrigin::Local,
            NegotiationRole::Answerer => PendingDialOrigin::Remote,
        }
    }

    pub fn origin(self) -> (origin: PendingDialOrigin)
        ensures
            origin == self.spec_origin(),
    {
        match self {
            NegotiationRole::Offerer => PendingDialOrigin::Local,
            NegotiationRole::Answerer => PendingDialOrigin::Remote,
        }
    }

    /// The kind of the signal that carries the description.
    pub open spec fn spec_signal_kind(self) -> LinkNegotiationKind {
        match self {
            NegotiationRole::Offerer => LinkNegotiationKind::Offer,
            NegotiationRole::Answerer => LinkNegotiationKind::Answer,
        }
    }

    pub fn signal_kind(self) -> (kind: LinkNegotiationKind)
        ensures
            kind == self.spec_signal_kind(),
    {
        match self {
            NegotiationRole::Offerer => LinkNegotiationKind::Offer,
            NegotiationRole::Answerer => LinkNegotiationKind::Answer,
        }
    }

    /// What the recorded reason of a failed session begins with.
    pub open spec fn failure_prefix(self) -> Seq<char> {
        match self {
            NegotiationRole::Offerer => "WebRTC outbound connection failed: "@,
            NegotiationRole::Answerer => "WebRTC inbound connection failed: "@,
        }
    }

    /// The recorded reason of a session that failed for the given reason.
    pub fn failure_reason(self, detail: &str) -> (reason: String)
        ensures
            reason@ == self.failure_prefix() + detail@,
    {
        match self {
            NegotiationRole::Offerer => joined("WebRTC outbound connection failed: ", detail),
            NegotiationRole::Answerer => joined("WebRTC inbound connection failed: ", detail),
        }
    }

    /// The failure of a peer connection that has no local description.
    pub open spec fn missing_description(self) -> Failure {
        match self {
            NegotiationRole::Offerer => Failure::StartFailed("missing local WebRTC offer"@),
            NegotiationRole::Answerer => Failure::StartFailed("missing local WebRTC answer"@),
        }
    }
}

/// The step that a negotiation is at.
#[derive(Clone, Copy, Debug, PartialEq, Eq, Structural)]
pub enum NegotiationStep {
    /// The peer connection is created in the reserved slot.
    CreatePeer,
    /// The offerer's data channel is created.
    CreateDataChannel,
    /// The session is admitted as pending.
    Admit,
    /// The answerer applies the offer.
    ApplyOffer,
    /// The local description is created.
    CreateDescription,
    /// The local description is set, which starts ICE gathering.
    SetLocalDescription,
    /// ICE gathering completes.
    Gather,
    /// The complete description is read.
    ReadDescription,
    /// The signal with the description is queued.
    QueueSignal,
}

impl NegotiationStep {
    /// How far a step is from the end.
    pub open spec fn distance(self) -> int {
        match self {
            NegotiationStep::CreatePeer => 9,
            NegotiationStep::CreateDataChannel => 8,
            NegotiationStep::Admit => 7,
            NegotiationStep::ApplyOffer => 6,
            NegotiationStep::CreateDescription => 5,
            NegotiationStep::SetLocalDescription => 4,
            NegotiationStep::Gather => 3,
            NegotiationStep::ReadDescription => 2,
            NegotiationStep::QueueSignal => 1,
        }
    }

    /// Whether the session is pending when the step is taken.
    pub open spec fn is_admitted(self) -> bool {
        self.distance() < NegotiationStep::Admit.distance()
    }

    /// The step after this one succeeded; none after the last.
    pub open spec fn following(self, role: NegotiationRole) -> Option<NegotiationStep> {
        match self {
            NegotiationStep::CreatePeer => Some(
                match role {
                    NegotiationRole::Offerer => NegotiationStep::CreateDataChannel,
                    NegotiationRole::Answerer => NegotiationStep::Admit,
                },
            ),
            NegotiationStep::CreateDataChannel => Some(NegotiationStep::Admit),
            NegotiationStep::Admit => Some(
                match role {
                    NegotiationRole::Offerer => NegotiationStep::CreateDescription,
                    NegotiationRole::Answerer => NegotiationStep::ApplyOffer,
                },
            ),
            NegotiationStep::ApplyOffer => Some(NegotiationStep::CreateDescription),
            NegotiationStep::CreateDescription => Some(NegotiationStep::SetLocalDescription),
            NegotiationStep::SetLocalDescription => Some(NegotiationStep::Gather),
            NegotiationStep::Gather => Some(NegotiationStep::ReadDescription),
            NegotiationStep::ReadDescription => Some(NegotiationStep::QueueSignal),
            NegotiationStep::QueueSignal => None,
        }
    }

    /// Finds the step after this one succeeded.
    pub fn next(self, role: NegotiationRole) -> (step: Option<NegotiationStep>)
        ensures
            step == self.following(role),
            step matches Some(next) ==> next.distance() < self.distance(),
    {
        match self {
            NegotiationStep::CreatePeer => match role {
                NegotiationRole::Offerer => Some(NegotiationStep::CreateDataChannel),
                NegotiationRole::Answerer => Some(NegotiationStep::Admit),
            },
            NegotiationStep::CreateDataChannel => Some(NegotiationStep::Admit),
            NegotiationStep::Admit => match role {
                NegotiationRole::Offerer => Some(NegotiationStep::CreateDescription),
                NegotiationRole::Answerer => Some(NegotiationStep::ApplyOffer),
            },
            NegotiationStep::ApplyOffer => Some(NegotiationStep::CreateDescription),
            NegotiationStep::CreateDescription => Some(NegotiationStep::SetLocalDescription),
            NegotiationStep::SetLocalDescription => Some(NegotiationStep::Gather),
            NegotiationStep::Gather => Some(NegotiationStep::ReadDescription),
            NegotiationStep::ReadDescription => Some(NegotiationStep::QueueSignal),
            NegotiationStep::QueueSignal => None,
        }
    }
}

/// What is undone when a step fails.
#[derive(Clone, Copy, Debug, PartialEq, Eq, Structural)]
pub enum NegotiationUndo {
    /// The reservation is given back.
    CancelReservation,
    /// The peer connection is closed.
    ClosePeer,
    /// The data channel and the peer connection are closed.
    CloseChannelAndPeer,
    /// The peer connection is closed and the offer is rejected.
    ClosePeerAndReject,
    /// The pending session fails, and its peer connection is closed.
    FailPending,
}

/// What is undone when a step of a role fails.
pub open spec fn undone(role: NegotiationRole, step: NegotiationStep) -> NegotiationUndo {
    match step {
        NegotiationStep::CreatePeer => NegotiationUndo::CancelReservation,
        NegotiationStep::CreateDataChannel => NegotiationUndo::ClosePeer,
        NegotiationStep::Admit => match role {
            NegotiationRole::Offerer => NegotiationUndo::CloseChannelAndPeer,
            NegotiationRole::Answerer => NegotiationUndo::ClosePeerAndReject,
        },
        _ => NegotiationUndo::FailPending,
    }
}

/// What a negotiation comes to when a step fails: an offerer that is not
/// admitted has lost to another session of the peer, which is no failure.
pub open spec fn ending(
    role: NegotiationRole,
    step: NegotiationStep,
    failure: Failure,
) -> Result<(), Failure> {
    match step {
        NegotiationStep::Admit => match role {
            NegotiationRole::Offerer => Ok(()),
            NegotiationRole::Answerer => Err(Failure::ConnectionRefused),
        },
        _ => Err(failure),
    }
}

/// Ends a negotiation whose step failed.
pub fn end_negotiation(role: NegotiationRole, step: NegotiationStep, error: TransportError) -> (
    outcome: (NegotiationUndo, Result<(), TransportError>))
    ensures
        outcome.0 == undone(role, step),
        match outcome.1 {
            Ok(_) => ending(role, step, error@) == Ok::<(), Failure>(()),
            Err(e) => ending(role, step, error@) == Err::<(), Failure>(e@),
        },
{
    match step {
        NegotiationStep::CreatePeer => (NegotiationUndo::CancelReservation, Err(error)),
        NegotiationStep::CreateDataChannel => (NegotiationUndo::ClosePeer, Err(error)),
        NegotiationStep::Admit => match role {
            NegotiationRole::Offerer => (NegotiationUndo::CloseChannelAndPeer, Ok(())),
            NegotiationRole::Answerer => (
                NegotiationUndo::ClosePeerAndReject,
                Err(TransportError::ConnectionRefused),
            ),
        },
        _ => (NegotiationUndo::FailPending, Err(error)),
    }
}

/// Admits the session of a negotiation as pending.
pub fn admit_negotiation(
    tables: &mut SessionTables,
    physical: &PhysicalResources,
    role: NegotiationRole,
    addr: &TransportAddr,
    session_id: String,
    phase_owner_id: String,
    peer: u64,
    generation: u64,
    created_at_ms: u64,
    deadline: u64,
) -> (admitted: bool)
    requires
        old(tables).inv(),
        physical.inv(),
    ensures
        final(tables).inv(),
        admitted == old(tables)@.admits(addr@, physical@),
        final(tables)@ == if admitted {
            (Sessions {
                pending: old(tables)@.pending.insert(
                    addr@,
                    Dial {
                        id: session_id@,
                        phase_owner: phase_owner_id@,
                        peer,
                        generation,
                        created_at_ms,
                        origin: role.spec_origin(),
                        deadline,
                    },
                ),
                failed: old(tables)@.failed.remove(addr@),
                ..old(tables)@
            })
        } else {
            old(tables)@
        },
{
    let origin = role.origin();
    tables.try_reserve_pending(
        addr,
        PendingDial {
            session_id,
            phase_owner_id,
            peer,
            generation,
            created_at_ms,
            origin,
            deadline,
        },
        physical,
    )
}

/// Fails the pending session of a negotiation. Nothing changes if the session
/// is no longer pending under the same peer connection.
pub fn fail_negotiation(
    tables: &mut SessionTables,
    physical: &PhysicalResources,
    role: NegotiationRole,
    addr: &TransportAddr,
    session_id: &str,
    peer: u64,
    detail: &str,
) -> (failed: Option<PendingDial>)
    requires
        old(tables).inv(),
        physical.inv(),
    ensures
        final(tables).inv(),
        ({
            let pending = old(tables)@.pending.dom().contains(addr@) && old(
                tables,
            )@.pending[addr@].id == session_id@ && old(tables)@.pending[addr@].peer == peer;
            match failed {
                Some(dial) => {
                    &&& pending
                    &&& dial@ == old(tables)@.pending[addr@]
                    &&& final(tables)@ == old(tables)@.pending_failed(
                        addr@,
                        role.failure_prefix() + detail@,
                    )
                },
                None => {
                    &&& !pending
                    &&& final(tables)@ == old(tables)@
                },
            }
        }),
{
    let owner = WebRtcSessionOwner::new(session_id, peer);
    let reason = role.failure_reason(detail);
    tables.mark_session_failed(addr, &owner, reason, physical)
}

/// The peer rejected a session: it fails if it is pending.
pub fn session_rejected(
    tables: &mut SessionTables,
    physical: &PhysicalResources,
    addr: &TransportAddr,
    session_id: String,
) -> (failed: Option<PendingDial>)
    requires
        old(tables).inv(),
        physical.inv(),
    ensures
        final(tables).inv(),
        ({
            let pending = old(tables)@.pending.dom().contains(addr@) && old(
                tables,
            )@.pending[addr@].id == session_id@;
            match failed {
                Some(dial) => {
                    &&& pending
                    &&& dial@ == old(tables)@.pending[addr@]
                    &&& final(tables)@ == old(tables)@.pending_failed(
                        addr@,
                        "peer rejected WebRTC session"@,
                    )
                },
                None => {
                    &&& !pending
                    &&& final(tables)@ == old(tables)@
                },
            }
        }),
{
    let owner = WebRtcSessionOwner { session_id: Some(session_id), peer: None, generation: None };
    tables.mark_session_failed(addr, &owner, "peer rejected WebRTC session".to_owned(), physical)
}

/// An answer could not be applied: its session fails if it is still pending
/// under the same peer connection.
pub fn answer_failed(
    tables: &mut SessionTables,
    physical: &PhysicalResources,
    addr: &TransportAddr,
    session_id: &str,
    peer: u64,
    detail: &str,
) -> (failed: Option<PendingDial>)
    requires
        old(tables).inv(),
        physical.inv(),
    ensures
        final(tables).inv(),
        ({
            let pending = old(tables)@.pending.dom().contains(addr@) && old(
                tables,
            )@.pending[addr@].id == session_id@ && old(tables)@.pending[addr@].peer == peer;
            match failed {
                Some(dial) => {
                    &&& pending
                    &&& dial@ == old(tables)@.pending[addr@]
                    &&& final(tables)@ == old(tables)@.pending_failed(
                        addr@,
                        "WebRTC answer failed: "@ + detail@,
                    )
                },
                None => {
                    &&& !pending
                    &&& final(tables)@ == old(tables)@
                },
            }
        }),
{
    let owner = WebRtcSessionOwner::new(session_id, peer);
    let reason = joined("WebRTC answer failed: ", detail);
    tables.mark_session_failed(addr, &owner, reason, physical)
}

/// Why the description that a peer connection gave cannot be sent, if it
/// cannot: it is missing, or it holds no candidate or too many.
pub open spec fn local_description_refusal(
    role: NegotiationRole,
    sdp: Option<Seq<char>>,
) -> Option<Failure> {
    match sdp {
        None => Some(role.missing_description()),
        Some(text) => description_refusal(text, EmbeddedCandidateScope::Local),
    }
}

/// The signal that carries a complete local description.
pub fn local_description_signal(
    role: NegotiationRole,
    sdp: Option<String>,
    session_id: String,
    now_ms: u64,
    expires_at_ms: u64,
) -> (result: Result<WebRtcSignal, TransportError>)
    ensures
        ({
            let text = match sdp {
                Some(s) => Some(s@),
                None => None,
            };
            match result {
                Ok(signal) => {
                    &&& local_description_refusal(role, text) is None
                    &&& signal.version == LINK_NEGOTIATION_VERSION
                    &&& signal.negotiation_id == session_id
                    &&& signal.link_type@ == "webrtc"@
                    &&& signal.kind == role.spec_signal_kind()
                    &&& signal.created_at_ms == now_ms
                    &&& signal.expires_at_ms == expires_at_ms
                    &&& signal.payload.sdp == sdp
                    &&& signal.payload.candidates is None
                },
                Err(error) => local_description_refusal(role, text) == Some(error@),
            }
        }),
{
    let text = match sdp {
        Some(text) => text,
        None => {
            return match role {
                NegotiationRole::Offerer => Err(
                    TransportError::StartFailed("missing local WebRTC offer".to_owned()),
                ),
                NegotiationRole::Answerer => Err(
                    TransportError::StartFailed("missing local WebRTC answer".to_owned()),
                ),
            };
        },
    };
    match require_embedded_candidates(text.as_str(), EmbeddedCandidateScope::Local) {
        Err(error) => Err(error),
        Ok(_) => Ok(
            description_signal(role.signal_kind(), session_id, text, now_ms, expires_at_ms),
        ),
    }
}

// ---------------------------------------------------------------------------
// Laws
// ---------------------------------------------------------------------------

/// A session is failed exactly when a step fails that is taken while it is
/// pending, and only the reservation is given back before there is a peer
/// connection.
pub proof fn undoing_fits_the_step(role: NegotiationRole, step: NegotiationStep)
    ensures
        (undone(role, step) == NegotiationUndo::FailPending) == step.is_admitted(),
        (undone(role, step) == NegotiationUndo::CancelReservation) == (step
            == NegotiationStep::CreatePeer),
{
}

/// Both roles admit the session before they send anything of it.
pub proof fn nothing_is_sent_before_admission(role: NegotiationRole, step: NegotiationStep)
    requires
        step.following(role) == Some(NegotiationStep::QueueSignal),
    ensures
        step.is_admitted(),
{
}

/// A failed negotiation leaves its address failed with the recorded reason,
/// unless another session of the peer is pooled.
pub proof fn failed_negotiation_shows(
    sessions: Sessions,
    role: NegotiationRole,
    addr: Seq<u8>,
    detail: Seq<char>,
)
    requires
        sessions.pending.dom().contains(addr),
        !sessions.pool.dom().contains(addr),
    ensures
        sessions.pending_failed(addr, role.failure_prefix() + detail).state_of(addr)
            == Connection::Failed(role.failure_prefix() + detail),
{
}

/// The steps of a role from the first to the last.
pub open spec fn steps_of(role: NegotiationRole) -> Seq<NegotiationStep> {
    match role {
        NegotiationRole::Offerer => seq![
            NegotiationStep::CreatePeer,
            NegotiationStep::CreateDataChannel,
            NegotiationStep::Admit,
            NegotiationStep::CreateDescription,
            NegotiationStep::SetLocalDescription,
            NegotiationStep::Gather,
            NegotiationStep::ReadDescription,
            NegotiationStep::QueueSignal,
        ],
        NegotiationRole::Answerer => seq![
            NegotiationStep::CreatePeer,
            NegotiationStep::Admit,
            NegotiationStep::ApplyOffer,
            NegotiationStep::CreateDescription,
            NegotiationStep::SetLocalDescription,
            NegotiationStep::Gather,
            NegotiationStep::ReadDescription,
            NegotiationStep::QueueSignal,
        ],
    }
}

/// Each role goes through its steps in their order, the offerer with a data
/// channel of its own and the answerer with the offer applied. The session is
/// pending in the steps behind its admission, and in no other.
pub proof fn roles_go_through_their_steps(role: NegotiationRole, i: int, k: int)
    requires
        0 <= i < steps_of(role).len(),
        0 <= k < steps_of(role).len(),
    ensures
        i + 1 < steps_of(role).len() ==> steps_of(role)[i].following(role) == Some(
            steps_of(role)[i + 1],
        ),
        i + 1 == steps_of(role).len() ==> steps_of(role)[i].following(role) is None,
        steps_of(role)[k] == NegotiationStep::Admit ==> (steps_of(role)[i].is_admitted() <==> i
            > k),
        steps_of(role)[i].distance() > 0,
        i < k ==> steps_of(role)[i].distance() > steps_of(role)[k].distance(),
{
}

/// What a failed step undoes is what the steps before it did: without a peer
/// connection only the reservation is given back; with one it is closed, and
/// the offerer's channel with it; a peer that is refused is told; and once the
/// session is pending, it fails.
pub proof fn failures_undo_what_was_done(role: NegotiationRole, i: int)
    requires
        0 <= i < steps_of(role).len(),
    ensures
        ({
            let step = steps_of(role)[i];
            let undo = undone(role, step);
            &&& undo == NegotiationUndo::CancelReservation <==> i == 0
            &&& undo == NegotiationUndo::FailPending <==> steps_of(role).take(i).contains(
                NegotiationStep::Admit,
            )
            &&& undo == NegotiationUndo::ClosePeer <==> step == NegotiationStep::CreateDataChannel
            &&& undo == NegotiationUndo::CloseChannelAndPeer <==> step == NegotiationStep::Admit
                && role == NegotiationRole::Offerer
            &&& undo == NegotiationUndo::ClosePeerAndReject <==> step == NegotiationStep::Admit
                && role == NegotiationRole::Answerer
        }),
{
    let steps = steps_of(role);
    let done = steps.take(i);
    let at = if role == NegotiationRole::Offerer {
        2int
    } else {
        1int
    };
    assert(steps[at] == NegotiationStep::Admit);
    if i > at {
        assert(done[at] == NegotiationStep::Admit);
    } else {
        assert forall|j: int| 0 <= j < done.len() implies done[j] != NegotiationStep::Admit by {
            assert(done[j] == steps[j]);
        }
    }
}

/// A negotiation fails as its step failed, except at the admission: there an
/// offerer has lost to another session, which is no failure, and an answerer
/// refuses the connection.
pub proof fn negotiations_end_as_their_step(
    role: NegotiationRole,
    step: NegotiationStep,
    failure: Failure,
)
    ensures
        step != NegotiationStep::Admit ==> ending(role, step, failure) == Err::<(), Failure>(
            failure,
        ),
        step == NegotiationStep::Admit ==> (ending(role, step, failure) is Ok <==> role
            == NegotiationRole::Offerer),
        step == NegotiationStep::Admit && role == NegotiationRole::Answerer ==> ending(
            role,
            step,
            failure,
        ) == Err::<(), Failure>(Failure::ConnectionRefused),
{
}

/// The offerer's session is begun here and its signal is an offer; the
/// answerer's was begun by the peer and its signal is an answer. Each words its
/// failures by its direction.
pub proof fn roles_are_told_apart(role: NegotiationRole)
    ensures
        role.spec_origin() == PendingDialOrigin::Local <==> role == NegotiationRole::Offerer,
        role.spec_origin() == PendingDialOrigin::Remote <==> role == NegotiationRole::Answerer,
        role.spec_signal_kind() is Offer <==> role == NegotiationRole::Offerer,
        role.spec_signal_kind() is Answer <==> role == NegotiationRole::Answerer,
        role.failure_prefix() == "WebRTC outbound connection failed: "@ <==> role
            == NegotiationRole::Offerer,
        role.failure_prefix() == "WebRTC inbound connection failed: "@ <==> role
            == NegotiationRole::Answerer,
        role.missing_description() == Failure::StartFailed("missing local WebRTC offer"@) <==> role
            == NegotiationRole::Offerer,
        role.missing_description() == Failure::StartFailed("missing local WebRTC answer"@) <==> role
            == NegotiationRole::Answerer,
{
    reveal_strlit("WebRTC outbound connection failed: ");
    reveal_strlit("WebRTC inbound connection failed: ");
    reveal_strlit("missing local WebRTC offer");
    reveal_strlit("missing local WebRTC answer");
    assert("WebRTC outbound connection failed: "@[7] == 'o');
    assert("WebRTC inbound connection failed: "@[7] == 'i');
    assert("missing local WebRTC offer"@[21] == 'o');
    assert("missing local WebRTC answer"@[21] == 'a');
}

/// A local description can be sent where there is one and it passes as a local
/// one; a missing one fails by the role.
pub proof fn local_descriptions_are_checked(role: NegotiationRole, text: Seq<char>)
    ensures
        local_description_refusal(role, None) == Some(role.missing_description()),
        local_description_refusal(role, Some(text)) == description_refusal(
            text,
            EmbeddedCandidateScope::Local,
        ),
{
}

} // verus!
