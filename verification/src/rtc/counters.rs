//! Negotiation counters.

use vstd::prelude::*;
use crate::rtc::keys::now_ms;

verus! {

/// What happened in a transport's negotiations, and when it last did.
#[derive(Clone, Copy, Debug, PartialEq, Eq, Structural)]
pub struct WebRtcNegotiationSnapshot {
    pub offers_queued: u64,
    pub answers_queued: u64,
    pub answers_applied: u64,
    pub answers_without_session: u64,
    pub late_answers_rejected: u64,
    pub timeouts_fired: u64,
    pub last_offer_queued_ms: u64,
    pub last_answer_queued_ms: u64,
    pub last_answer_applied_ms: u64,
    pub last_timeout_ms: u64,
}

/// One more, starting again at zero after the maximum.
pub open spec fn one_more(n: u64) -> u64 {
    if n == u64::MAX {
        0
    } else {
        (n + 1) as u64
    }
}

/// The counters of a transport's negotiations.
pub struct WebRtcNegotiationCounters {
    counts: WebRtcNegotiationSnapshot,
}

impl View for WebRtcNegotiationCounters {
    type V = WebRtcNegotiationSnapshot;

    closed spec fn view(&self) -> WebRtcNegotiationSnapshot {
        self.counts
    }
}

impl WebRtcNegotiationSnapshot {
    /// Nothing was counted yet.
    pub open spec fn zero() -> WebRtcNegotiationSnapshot {
        WebRtcNegotiationSnapshot {
            offers_queued: 0,
            answers_queued: 0,
            answers_applied: 0,
            answers_without_session: 0,
            late_answers_rejected: 0,
            timeouts_fired: 0,
            last_offer_queued_ms: 0,
            last_answer_queued_ms: 0,
            last_answer_applied_ms: 0,
            last_timeout_ms: 0,
        }
    }
}

impl WebRtcNegotiationCounters {
    pub fn new() -> (counters: WebRtcNegotiationCounters)
        ensures
            counters@ == WebRtcNegotiationSnapshot::zero(),
    {
        WebRtcNegotiationCounters {
            counts: WebRtcNegotiationSnapshot {
                offers_queued: 0,
                answers_queued: 0,
                answers_applied: 0,
                answers_without_session: 0,
                late_answers_rejected: 0,
                timeouts_fired: 0,
                last_offer_queued_ms: 0,
                last_answer_queued_ms: 0,
                last_answer_applied_ms: 0,
                last_timeout_ms: 0,
            },
        }
    }

    pub fn snapshot(&self) -> (snapshot: WebRtcNegotiationSnapshot)
        ensures
            snapshot == self@,
    {
        self.counts
    }

    /// Counts an offer that was queued at a time.
    pub fn record_offer_queued_at(&mut self, ms: u64)
        ensures
            final(self)@ == (WebRtcNegotiationSnapshot {
                offers_queued: one_more(old(self)@.offers_queued),
                last_offer_queued_ms: ms,
                ..old(self)@
            }),
    {
        self.counts.offers_queued = self.counts.offers_queued.wrapping_add(1);
        self.counts.last_offer_queued_ms = ms;
    }

    /// Counts an answer that was queued at a time.
    pub fn record_answer_queued_at(&mut self, ms: u64)
        ensures
            final(self)@ == (WebRtcNegotiationSnapshot {
                answers_queued: one_more(old(self)@.answers_queued),
                last_answer_queued_ms: ms,
                ..old(self)@
            }),
    {
        self.counts.answers_queued = self.counts.answers_queued.wrapping_add(1);
        self.counts.last_answer_queued_ms = ms;
    }

    /// Counts an answer that was applied at a time.
    pub fn record_answer_applied_at(&mut self, ms: u64)
        ensures
            final(self)@ == (WebRtcNegotiationSnapshot {
                answers_applied: one_more(old(self)@.answers_applied),
                last_answer_applied_ms: ms,
                ..old(self)@
            }),
    {
        self.counts.answers_applied = self.counts.answers_applied.wrapping_add(1);
        self.counts.last_answer_applied_ms = ms;
    }

    /// Counts a negotiation that ran out of time at a time.
    pub fn record_timeout_at(&mut self, ms: u64)
        ensures
            final(self)@ == (WebRtcNegotiationSnapshot {
                timeouts_fired: one_more(old(self)@.timeouts_fired),
                last_timeout_ms: ms,
                ..old(self)@
            }),
    {
        self.counts.timeouts_fired = self.counts.timeouts_fired.wrapping_add(1);
        self.counts.last_timeout_ms = ms;
    }

    /// Counts an offer that is queued now.
    pub fn record_offer_queued(&mut self)
        ensures
            final(self)@ == (WebRtcNegotiationSnapshot {
                offers_queued: one_more(old(self)@.offers_queued),
                last_offer_queued_ms: final(self)@.last_offer_queued_ms,
                ..old(self)@
            }),
    {
        let ms: u64 = now_ms();
        self.record_offer_queued_at(ms);
    }

    /// Counts an answer that is queued now.
    pub fn record_answer_queued(&mut self)
        ensures
            final(self)@ == (WebRtcNegotiationSnapshot {
                answers_queued: one_more(old(self)@.answers_queued),
                last_answer_queued_ms: final(self)@.last_answer_queued_ms,
                ..old(self)@
            }),
    {
        let ms: u64 = now_ms();
        self.record_answer_queued_at(ms);
    }

    /// Counts an answer that is applied now.
    pub fn record_answer_applied(&mut self)
        ensures
            final(self)@ == (WebRtcNegotiationSnapshot {
                answers_applied: one_more(old(self)@.answers_applied),
                last_answer_applied_ms: final(self)@.last_answer_applied_ms,
                ..old(self)@
            }),
    {
        let ms: u64 = now_ms();
        self.record_answer_applied_at(ms);
    }

    /// Counts an answer that belongs to no session.
    pub fn record_answer_without_session(&mut self)
        ensures
            final(self)@ == (WebRtcNegotiationSnapshot {
                answers_without_session: one_more(old(self)@.answers_without_session),
                ..old(self)@
            }),
    {
        self.counts.answers_without_session = self.counts.answers_without_session.wrapping_add(1);
    }

    /// Counts an answer that came after its deadline.
    pub fn record_late_answer_rejected(&mut self)
        ensures
            final(self)@ == (WebRtcNegotiationSnapshot {
                late_answers_rejected: one_more(old(self)@.late_answers_rejected),
                ..old(self)@
            }),
    {
        self.counts.late_answers_rejected = self.counts.late_answers_rejected.wrapping_add(1);
    }

    /// Counts a negotiation that runs out of time now.
    pub fn record_timeout(&mut self)
        ensures
            final(self)@ == (WebRtcNegotiationSnapshot {
                timeouts_fired: one_more(old(self)@.timeouts_fired),
                last_timeout_ms: final(self)@.last_timeout_ms,
                ..old(self)@
            }),
    {
        let ms: u64 = now_ms();
        self.record_timeout_at(ms);
    }
}

/// A counter goes up by one and begins anew behind its largest value.
pub proof fn counters_go_up_by_one(n: u64)
    ensures
        n < 0xffff_ffff_ffff_ffff ==> one_more(n) == n + 1,
        one_more(0xffff_ffff_ffff_ffff) == 0,
{
}

/// Nothing is counted at first, and no time is known.
pub proof fn counters_begin_at_nought()
    ensures
        ({
            let zero = WebRtcNegotiationSnapshot::zero();
            &&& zero.offers_queued == 0 && zero.answers_queued == 0 && zero.answers_applied == 0
            &&& zero.answers_without_session == 0 && zero.late_answers_rejected == 0
            &&& zero.timeouts_fired == 0
            &&& zero.last_offer_queued_ms == 0 && zero.last_answer_queued_ms == 0
            &&& zero.last_answer_applied_ms == 0 && zero.last_timeout_ms == 0
        }),
{
}

} // verus!
