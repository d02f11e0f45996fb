//! Session descriptions that peers send.

use vstd::prelude::*;
use webrtc::peer_connection::sdp::session_description::RTCSessionDescription;
use crate::error::{Failure, TransportError};

verus! {

/// A session description of the `webrtc` crate.
#[verifier::external_type_specification]
#[verifier::external_body]
pub struct ExSessionDescription(RTCSessionDescription);

/// What `RTCSessionDescription::offer` of the `webrtc` crate makes of a text: a
/// description, or the text of the error.
pub uninterp spec fn offer_in(sdp: Seq<char>) -> Result<RTCSessionDescription, Seq<char>>;

/// What `RTCSessionDescription::answer` of the `webrtc` crate makes of a text: a
/// description, or the text of the error.
pub uninterp spec fn answer_in(sdp: Seq<char>) -> Result<RTCSessionDescription, Seq<char>>;

/// `RTCSessionDescription::offer`, with an error turned into its text. The result
/// is a function of the text alone; which texts are descriptions is not stated
/// here.
#[verifier::external_body]
fn parse_offer(sdp: String) -> (parsed: Result<RTCSessionDescription, String>)
    ensures
        match parsed {
            Ok(offer) => offer_in(sdp@) == Ok::<RTCSessionDescription, Seq<char>>(offer),
            Err(text) => offer_in(sdp@) == Err::<RTCSessionDescription, Seq<char>>(text@),
        },
{
    match RTCSessionDescription::offer(sdp) {
        Ok(offer) => Ok(offer),
        Err(error) => Err(error.to_string()),
    }
}

/// `RTCSessionDescription::answer`, with an error turned into its text. The
/// result is a function of the text alone; which texts are descriptions is not
/// stated here.
#[verifier::external_body]
fn parse_answer(sdp: String) -> (parsed: Result<RTCSessionDescription, String>)
    ensures
        match parsed {
            Ok(answer) => answer_in(sdp@) == Ok::<RTCSessionDescription, Seq<char>>(answer),
            Err(text) => answer_in(sdp@) == Err::<RTCSessionDescription, Seq<char>>(text@),
        },
{
    match RTCSessionDescription::answer(sdp) {
        Ok(answer) => Ok(answer),
        Err(error) => Err(error.to_string()),
    }
}

/// What becomes of a peer's description, given what was made of its text: it is
/// used, or the negotiation fails with the reason why it cannot be.
pub open spec fn description_taken(
    parsed: Result<RTCSessionDescription, Seq<char>>,
) -> Result<RTCSessionDescription, Failure> {
    match parsed {
        Ok(description) => Ok(description),
        Err(reason) => Err(Failure::StartFailed(reason)),
    }
}

/// Takes a peer's description, given what was made of its text.
pub fn description_read(parsed: Result<RTCSessionDescription, String>) -> (result: Result<
    RTCSessionDescription,
    TransportError,
>)
    ensures
        match parsed {
            Ok(description) => result == Ok::<RTCSessionDescription, TransportError>(description),
            Err(reason) => result matches Err(error) && error@ == Failure::StartFailed(reason@),
        },
{
    match parsed {
        Ok(description) => Ok(description),
        Err(reason) => Err(TransportError::StartFailed(reason)),
    }
}

/// Reads the description of a peer's offer.
pub fn remote_offer(sdp: String) -> (result: Result<RTCSessionDescription, TransportError>)
    ensures
        match result {
            Ok(offer) => description_taken(offer_in(sdp@)) == Ok::<RTCSessionDescription, Failure>(
                offer,
            ),
            Err(error) => description_taken(offer_in(sdp@)) == Err::<
                RTCSessionDescription,
                Failure,
            >(error@),
        },
{
    description_read(parse_offer(sdp))
}

/// Reads the description of a peer's answer.
pub fn remote_answer(sdp: String) -> (result: Result<RTCSessionDescription, TransportError>)
    ensures
        match result {
            Ok(answer) => description_taken(answer_in(sdp@)) == Ok::<
                RTCSessionDescription,
                Failure,
            >(answer),
            Err(error) => description_taken(answer_in(sdp@)) == Err::<
                RTCSessionDescription,
                Failure,
            >(error@),
        },
{
    description_read(parse_answer(sdp))
}

/// A description is taken as it was read; one that could not be read fails the
/// start with the reason.
pub proof fn descriptions_are_taken_as_read(description: RTCSessionDescription, reason: Seq<char>)
    ensures
        description_taken(Ok(description)) == Ok::<RTCSessionDescription, Failure>(description),
        description_taken(Err(reason)) == Err::<RTCSessionDescription, Failure>(
            Failure::StartFailed(reason),
        ),
{
}

} // verus!
