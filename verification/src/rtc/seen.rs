//! Offers that were already accepted.

use vstd::prelude::*;
use crate::addr::TransportAddr;
use crate::text::same_text;

verus! {

/// How many accepted offers are remembered.
pub const MAX_WEBRTC_SEEN_SESSIONS: usize = 1024;

/// An accepted offer: who sent it, its session, and when it expires.
#[derive(Debug)]
pub struct SeenSession {
    pub addr: TransportAddr,
    pub session_id: String,
    pub expires_at_ms: u64,
}

impl SeenSession {
    pub open spec fn key(self) -> (Seq<u8>, Seq<char>) {
        (self.addr@, self.session_id@)
    }
}

/// Accepted offers and when they expire, as a mathematical value.
pub type Seen = Map<(Seq<u8>, Seq<char>), u64>;

/// The offers that have not expired.
pub open spec fn live(seen: Seen, now_ms: u64) -> Seen {
    Map::new(
        |key: (Seq<u8>, Seq<char>)| seen.dom().contains(key) && seen[key] > now_ms,
        |key: (Seq<u8>, Seq<char>)| seen[key],
    )
}

/// Whether no remembered offer expires before this one.
pub open spec fn expires_first(seen: Seen, key: (Seq<u8>, Seq<char>)) -> bool {
    &&& seen.dom().contains(key)
    &&& forall|other: (Seq<u8>, Seq<char>)| #[trigger]
        seen.dom().contains(other) ==> seen[key] <= seen[other]
}

/// What may be remembered after an offer was seen for the first time: expired
/// offers are forgotten, and where there is no room, one that expires first.
pub open spec fn remembers(
    before: Seen,
    after: Seen,
    key: (Seq<u8>, Seq<char>),
    expires_at_ms: u64,
    now_ms: u64,
) -> bool {
    let kept = live(before, now_ms);
    if kept.dom().len() < MAX_WEBRTC_SEEN_SESSIONS {
        after == kept.insert(key, expires_at_ms)
    } else {
        exists|oldest: (Seq<u8>, Seq<char>)| #[trigger]
            expires_first(kept, oldest) && after == kept.remove(oldest).insert(key, expires_at_ms)
    }
}

/// The accepted offers of a transport.
pub struct SeenSessions {
    entries: Vec<SeenSession>,
}

impl View for SeenSessions {
    type V = Seen;

    closed spec fn view(&self) -> Seen {
        Map::new(
            |key: (Seq<u8>, Seq<char>)| exists|i: int| holds(self.entries@, key, i),
            |key: (Seq<u8>, Seq<char>)|
                self.entries@[choose|i: int| holds(self.entries@, key, i)].expires_at_ms,
        )
    }
}

spec fn holds(entries: Seq<SeenSession>, key: (Seq<u8>, Seq<char>), i: int) -> bool {
    0 <= i < entries.len() && entries[i].key() == key
}

spec fn distinct(entries: Seq<SeenSession>) -> bool {
    forall|i: int, j: int|
        0 <= i < j < entries.len() ==> (#[trigger] entries[i]).key() != (#[trigger] entries[j]).key()
}

spec fn keys(entries: Seq<SeenSession>) -> Seq<(Seq<u8>, Seq<char>)> {
    Seq::new(entries.len(), |i: int| entries[i].key())
}

impl SeenSessions {
    /// No offer is remembered twice, and no more than the limit.
    pub closed spec fn inv(self) -> bool {
        distinct(self.entries@) && self.entries@.len() <= MAX_WEBRTC_SEEN_SESSIONS
    }

    proof fn lemma_at(self, i: int)
        requires
            distinct(self.entries@),
            0 <= i < self.entries@.len(),
        ensures
            self@.dom().contains(self.entries@[i].key()),
            self@[self.entries@[i].key()] == self.entries@[i].expires_at_ms,
    {
        assert(holds(self.entries@, self.entries@[i].key(), i));
    }

    proof fn lemma_len(self)
        requires
            distinct(self.entries@),
        ensures
            self@.dom().finite(),
            self@.dom().len() == self.entries@.len(),
    {
        let ks = keys(self.entries@);
        assert(ks.no_duplicates());
        ks.unique_seq_to_set();
        assert forall|k: (Seq<u8>, Seq<char>)| ks.to_set().contains(k) <==> self@.dom().contains(
            k,
        ) by {
            if ks.contains(k) {
                let i = choose|i: int| 0 <= i < ks.len() && ks[i] == k;
                assert(holds(self.entries@, k, i));
            }
            if self@.dom().contains(k) {
                let i = choose|i: int| holds(self.entries@, k, i);
                assert(ks[i] == k);
            }
        }
        assert(ks.to_set() =~= self@.dom());
    }

    /// Never more than the limit is remembered.
    pub proof fn bounded(self)
        requires
            self.inv(),
        ensures
            self@.dom().finite(),
            self@.dom().len() <= MAX_WEBRTC_SEEN_SESSIONS,
    {
        self.lemma_len();
    }

    pub fn new() -> (seen: SeenSessions)
        ensures
            seen.inv(),
            seen@ == Map::<(Seq<u8>, Seq<char>), u64>::empty(),
    {
        let seen = SeenSessions { entries: Vec::new() };
        assert(seen@ =~= Map::<(Seq<u8>, Seq<char>), u64>::empty());
        seen
    }

    pub fn len(&self) -> (n: usize)
        requires
            self.inv(),
        ensures
            n == self@.dom().len(),
    {
        proof {
            self.lemma_len();
        }
        self.entries.len()
    }

    pub fn clear(&mut self)
        ensures
            final(self).inv(),
            final(self)@ == Map::<(Seq<u8>, Seq<char>), u64>::empty(),
    {
        self.entries.clear();
        assert(self@ =~= Map::<(Seq<u8>, Seq<char>), u64>::empty());
    }

    fn remove_at(&mut self, i: usize)
        requires
            distinct(old(self).entries@),
            i < old(self).entries@.len(),
        ensures
            distinct(final(self).entries@),
            final(self).entries@ == old(self).entries@.remove(i as int),
            final(self)@ == old(self)@.remove(old(self).entries@[i as int].key()),
    {
        let ghost before = *self;
        let ghost gone = self.entries@[i as int].key();
        self.entries.remove(i);
        proof {
            let after = *self;
            assert forall|a: int, b: int| 0 <= a < b < after.entries@.len() implies (
            #[trigger] after.entries@[a]).key() != (#[trigger] after.entries@[b]).key() by {
                let x = if a < i { a } else { a + 1 };
                let y = if b < i { b } else { b + 1 };
                assert(before.entries@[x].key() != before.entries@[y].key());
            }
            assert forall|k: (Seq<u8>, Seq<char>)| after@.dom().contains(k) <==> before@.remove(
                gone,
            ).dom().contains(k) by {
                if after@.dom().contains(k) {
                    let a = choose|a: int| holds(after.entries@, k, a);
                    let x = if a < i { a } else { a + 1 };
                    assert(holds(before.entries@, k, x));
                    assert(before.entries@[x].key() != before.entries@[i as int].key());
                }
                if before@.remove(gone).dom().contains(k) {
                    let x = choose|x: int| holds(before.entries@, k, x);
                    let a = if x < i { x } else { x - 1 };
                    assert(holds(after.entries@, k, a));
                }
            }
            assert forall|k: (Seq<u8>, Seq<char>)| after@.dom().contains(k) implies after@[k]
                == before@.remove(gone)[k] by {
                let a = choose|a: int| holds(after.entries@, k, a);
                after.lemma_at(a);
                let x = if a < i { a } else { a + 1 };
                before.lemma_at(x);
                assert(before.entries@[x].key() != before.entries@[i as int].key());
            }
            assert(after@ =~= before@.remove(gone));
        }
    }

    fn retain_live(&mut self, now_ms: u64)
        requires
            old(self).inv(),
        ensures
            final(self).inv(),
            final(self)@ == live(old(self)@, now_ms),
    {
        let mut i: usize = 0;
        proof {
            assert(self@ =~= old(self)@);
        }
        while i < self.entries.len()
            invariant
                distinct(self.entries@),
                self.entries@.len() <= MAX_WEBRTC_SEEN_SESSIONS,
                i <= self.entries@.len(),
                forall|k: int| 0 <= k < i ==> (#[trigger] self.entries@[k]).expires_at_ms > now_ms,
                live(self@, now_ms) == live(old(self)@, now_ms),
            decreases self.entries@.len() - i,
        {
            if self.entries[i].expires_at_ms > now_ms {
                i = i + 1;
            } else {
                let ghost before = self@;
                proof {
                    self.lemma_at(i as int);
                }
                self.remove_at(i);
                assert(live(self@, now_ms) =~= live(before, now_ms));
            }
        }
        proof {
            assert forall|k: (Seq<u8>, Seq<char>)| self@.dom().contains(k) implies self@[k]
                > now_ms by {
                let a = choose|a: int| holds(self.entries@, k, a);
                self.lemma_at(a);
            }
            assert(live(self@, now_ms) =~= self@);
        }
    }

    fn position(&self, addr: &TransportAddr, session_id: &str) -> (at: Option<usize>)
        requires
            distinct(self.entries@),
        ensures
            match at {
                Some(i) => i < self.entries@.len() && self.entries@[i as int].key() == (
                    addr@,
                    session_id@,
                ) && self@.dom().contains((addr@, session_id@)),
                None => !self@.dom().contains((addr@, session_id@)),
            },
    {
        let mut i: usize = 0;
        while i < self.entries.len()
            invariant
                i <= self.entries@.len(),
                distinct(self.entries@),
                forall|k: int| 0 <= k < i ==> !holds(self.entries@, (addr@, session_id@), k),
            decreases self.entries@.len() - i,
        {
            if self.entries[i].addr.same(addr) && same_text(
                self.entries[i].session_id.as_str(),
                session_id,
            ) {
                proof {
                    self.lemma_at(i as int);
                }
                return Some(i);
            }
            i = i + 1;
        }
        None
    }

    /// Whether an offer was accepted and has not expired.
    pub fn knows(&self, remote_addr: &TransportAddr, session_id: &str, now_ms: u64) -> (yes: bool)
        requires
            self.inv(),
        ensures
            yes == live(self@, now_ms).dom().contains((remote_addr@, session_id@)),
    {
        match self.position(remote_addr, session_id) {
            None => false,
            Some(i) => {
                proof {
                    self.lemma_at(i as int);
                }
                self.entries[i].expires_at_ms > now_ms
            },
        }
    }

    /// Forgets an offer that expires first.
    fn forget_oldest(&mut self)
        requires
            old(self).inv(),
            old(self).entries@.len() > 0,
        ensures
            distinct(final(self).entries@),
            final(self).entries@.len() == old(self).entries@.len() - 1,
            exists|oldest: (Seq<u8>, Seq<char>)| #[trigger]
                expires_first(old(self)@, oldest) && final(self)@ == old(self)@.remove(oldest),
    {
        let mut best: usize = 0;
        let mut i: usize = 1;
        while i < self.entries.len()
            invariant
                best < i <= self.entries@.len(),
                forall|k: int|
                    0 <= k < i ==> self.entries@[best as int].expires_at_ms <= (
                    #[trigger] self.entries@[k]).expires_at_ms,
            decreases self.entries@.len() - i,
        {
            if self.entries[i].expires_at_ms < self.entries[best].expires_at_ms {
                best = i;
            }
            i = i + 1;
        }
        proof {
            self.lemma_at(best as int);
            let oldest = self.entries@[best as int].key();
            assert forall|other: (Seq<u8>, Seq<char>)| #[trigger]
                self@.dom().contains(other) implies self@[oldest] <= self@[other] by {
                let a = choose|a: int| holds(self.entries@, other, a);
                self.lemma_at(a);
            }
            assert(expires_first(self@, oldest));
        }
        self.remove_at(best);
    }

    fn push_new(&mut self, addr: &TransportAddr, session_id: &str, expires_at_ms: u64)
        requires
            distinct(old(self).entries@),
            !old(self)@.dom().contains((addr@, session_id@)),
        ensures
            distinct(final(self).entries@),
            final(self).entries@.len() == old(self).entries@.len() + 1,
            final(self)@ == old(self)@.insert((addr@, session_id@), expires_at_ms),
    {
        let ghost before = *self;
        let ghost key = (addr@, session_id@);
        self.entries.push(
            SeenSession { addr: addr.clone(), session_id: session_id.to_owned(), expires_at_ms },
        );
        proof {
            let after = *self;
            let n = before.entries@.len();
            assert(after.entries@[n as int].key() == key);
            assert forall|a: int, b: int| 0 <= a < b < after.entries@.len() implies (
            #[trigger] after.entries@[a]).key() != (#[trigger] after.entries@[b]).key() by {
                assert(after.entries@[a] == before.entries@[a]);
                if b == n {
                    before.lemma_at(a);
                } else {
                    assert(before.entries@[a].key() != before.entries@[b].key());
                }
            }
            assert forall|k: (Seq<u8>, Seq<char>)| after@.dom().contains(k) <==> before@.insert(
                key,
                expires_at_ms,
            ).dom().contains(k) by {
                if after@.dom().contains(k) {
                    let a = choose|a: int| holds(after.entries@, k, a);
                    if a < n {
                        before.lemma_at(a);
                    }
                }
                if k == key {
                    assert(holds(after.entries@, key, n as int));
                } else if before@.dom().contains(k) {
                    let x = choose|x: int| holds(before.entries@, k, x);
                    assert(holds(after.entries@, k, x));
                }
            }
            assert forall|k: (Seq<u8>, Seq<char>)| after@.dom().contains(k) implies after@[k]
                == before@.insert(key, expires_at_ms)[k] by {
                let a = choose|a: int| holds(after.entries@, k, a);
                after.lemma_at(a);
                if a < n {
                    before.lemma_at(a);
                }
            }
            assert(after@ =~= before@.insert(key, expires_at_ms));
        }
    }

    /// Accepts an offer that was not seen before, and remembers it until it
    /// expires.
    pub fn accept_webrtc_offer_once(
        &mut self,
        remote_addr: &TransportAddr,
        session_id: &str,
        expires_at_ms: u64,
        now_ms: u64,
    ) -> (accepted: bool)
        requires
            old(self).inv(),
        ensures
            final(self).inv(),
            accepted == !live(old(self)@, now_ms).dom().contains((remote_addr@, session_id@)),
            !accepted ==> final(self)@ == live(old(self)@, now_ms),
            accepted ==> remembers(
                old(self)@,
                final(self)@,
                (remote_addr@, session_id@),
                expires_at_ms,
                now_ms,
            ),
    {
        self.retain_live(now_ms);
        if self.position(remote_addr, session_id).is_some() {
            return false;
        }
        proof {
            self.lemma_len();
        }
        if self.entries.len() >= MAX_WEBRTC_SEEN_SESSIONS {
            self.forget_oldest();
        }
        self.push_new(remote_addr, session_id, expires_at_ms);
        true
    }
}

// ---------------------------------------------------------------------------
// Laws
// ---------------------------------------------------------------------------

/// An accepted offer is refused when it comes again before it expires.
pub proof fn accepted_offer_is_not_replayed(
    before: Seen,
    after: Seen,
    key: (Seq<u8>, Seq<char>),
    expires_at_ms: u64,
    now_ms: u64,
    later_ms: u64,
)
    requires
        remembers(before, after, key, expires_at_ms, now_ms),
        later_ms < expires_at_ms,
    ensures
        live(after, later_ms).dom().contains(key),
{
}

/// Once it has expired, an offer no longer blocks a later one.
pub proof fn expired_offer_is_forgotten(
    seen: Seen,
    key: (Seq<u8>, Seq<char>),
    now_ms: u64,
)
    requires
        seen.dom().contains(key) ==> seen[key] <= now_ms,
    ensures
        !live(seen, now_ms).dom().contains(key),
{
}

/// An offer counts as seen until it expires, and not from then on.
pub proof fn offers_count_until_they_expire(
    seen: Seen,
    key: (Seq<u8>, Seq<char>),
    now_ms: u64,
)
    ensures
        live(seen, now_ms).dom().contains(key) <==> seen.dom().contains(key) && now_ms < seen[key],
        live(seen, now_ms).dom().contains(key) ==> live(seen, now_ms)[key] == seen[key],
{
}

/// An accepted offer is remembered with its own expiry. Beside it stand only
/// offers that were remembered before and have not expired. At most one of
/// those is missing, and only where there were as many as are remembered; it is
/// one of those that expire first.
pub proof fn accepted_offers_are_remembered(
    before: Seen,
    after: Seen,
    key: (Seq<u8>, Seq<char>),
    expires_at_ms: u64,
    now_ms: u64,
    other: (Seq<u8>, Seq<char>),
    third: (Seq<u8>, Seq<char>),
)
    requires
        remembers(before, after, key, expires_at_ms, now_ms),
    ensures
        after.dom().contains(key) && after[key] == expires_at_ms,
        after.dom().contains(other) && other != key ==> before.dom().contains(other)
            && before[other] > now_ms && after[other] == before[other],
        live(before, now_ms).dom().len() < 1024 && before.dom().contains(other) && before[other]
            > now_ms ==> after.dom().contains(other),
        before.dom().contains(other) && before[other] > now_ms && !after.dom().contains(other)
            && before.dom().contains(third) && before[third] > now_ms ==> before[other]
            <= before[third] && (third != other ==> after.dom().contains(third)),
        live(before, now_ms).dom().len() >= 1024 && !before.dom().contains(key) ==> exists|
            gone: (Seq<u8>, Seq<char>),
        | #[trigger]
            live(before, now_ms).dom().contains(gone) && !after.dom().contains(gone),
{
    let kept = live(before, now_ms);
    assert(kept.dom().contains(other) <==> before.dom().contains(other) && before[other] > now_ms);
    assert(kept.dom().contains(third) <==> before.dom().contains(third) && before[third] > now_ms);
    if kept.dom().len() >= MAX_WEBRTC_SEEN_SESSIONS {
        let oldest = choose|oldest: (Seq<u8>, Seq<char>)| #[trigger]
            expires_first(kept, oldest) && after == kept.remove(oldest).insert(key, expires_at_ms);
        assert(kept.dom().contains(oldest));
        if !before.dom().contains(key) {
            assert(oldest != key);
            assert(!after.dom().contains(oldest));
        }
    }
}

/// The offer that expires first is one of the remembered ones, and none of them
/// expires before it.
pub proof fn first_expiry_comes_first(
    seen: Seen,
    key: (Seq<u8>, Seq<char>),
    other: (Seq<u8>, Seq<char>),
)
    requires
        expires_first(seen, key),
    ensures
        seen.dom().contains(key),
        seen.dom().contains(other) ==> !(seen[other] < seen[key]),
{
}

/// An offer is told from others by its address and its session.
pub proof fn offers_are_known_by_address_and_session(a: SeenSession, b: SeenSession)
    ensures
        a.key() == b.key() <==> a.addr@ == b.addr@ && a.session_id@ == b.session_id@,
{
}

} // verus!
