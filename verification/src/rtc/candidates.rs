//! ICE candidates inside session descriptions.

use vstd::prelude::*;
use vstd::utf8::encode_utf8;
use webrtc::ice::candidate::Candidate;
use webrtc::ice::candidate::candidate_base::unmarshal_candidate;
use crate::decimal::{decimal_text, numbers_are_written_in_one_way, push_decimal};
use crate::error::{Failure, TransportError, joined};
use crate::fields::{
    all_spaces, find_line_end, line_at, lines_do_not_depend_on_what_is_before,
    lines_do_not_depend_on_what_is_behind, lines_end_at_line_feeds, segment_end, segment_end_bounds,
    skip_spaces,
};
use crate::text::{Spaces, chars_of, has_at, lower, lower_of, same_text, stands_at, string_of};
use crate::rtc::config::{
    MAX_WEBRTC_CANDIDATE_LENGTH, MAX_WEBRTC_LOCAL_CANDIDATE_LINES,
    MAX_WEBRTC_LOCAL_CANDIDATE_ROUTES, MAX_WEBRTC_REMOTE_CANDIDATE_LINES,
    MAX_WEBRTC_REMOTE_CANDIDATE_ROUTES,
};

verus! {

/// What an ICE candidate says about its route.
#[derive(Debug)]
pub struct IceCandidate {
    pub network_type: String,
    pub candidate_type: String,
    pub address: String,
    pub port: u16,
    pub tcp_type: String,
    pub related: Option<(String, u16)>,
}

/// An ICE candidate's route as a mathematical value.
pub struct IceRoute {
    pub network_type: Seq<char>,
    pub candidate_type: Seq<char>,
    pub address: Seq<char>,
    pub port: u16,
    pub tcp_type: Seq<char>,
    pub related: Option<(Seq<char>, u16)>,
}

impl View for IceCandidate {
    type V = IceRoute;

    open spec fn view(&self) -> IceRoute {
        IceRoute {
            network_type: self.network_type@,
            candidate_type: self.candidate_type@,
            address: self.address@,
            port: self.port,
            tcp_type: self.tcp_type@,
            related: (match self.related {
                Some(r) => Some((r.0@, r.1)),
                None => None,
            }),
        }
    }
}

impl IceRoute {
    /// The related address, or nothing.
    pub open spec fn related_text(self) -> Seq<char> {
        match self.related {
            Some(r) => lower(r.0) + ":"@ + decimal_text(r.1 as nat),
            None => Seq::empty(),
        }
    }

    /// A text that is the same for two candidates exactly where they are
    /// counted as one route.
    pub open spec fn key(self) -> Seq<char> {
        self.network_type + "|"@ + self.candidate_type + "|"@ + lower(self.address) + "|"@
            + decimal_text(self.port as nat) + "|"@ + self.tcp_type + "|"@ + self.related_text()
    }
}

/// What `unmarshal_candidate` of the `webrtc` crate's ICE module reads from a
/// candidate: its route, or the text of the error.
pub uninterp spec fn ice_candidate(raw: Seq<char>) -> Result<IceRoute, Seq<char>>;

/// `webrtc::ice::candidate::candidate_base::unmarshal_candidate`, with the
/// candidate's network type, type, address, port, TCP type and related address
/// taken out of the result, and an error turned into its text. The result is a
/// function of the text alone; which texts are candidates is not stated here.
#[verifier::external_body]
fn parse_ice_candidate(raw: &str) -> (parsed: Result<IceCandidate, String>)
    ensures
        match parsed {
            Ok(candidate) => ice_candidate(raw@) == Ok::<IceRoute, Seq<char>>(candidate@),
            Err(text) => ice_candidate(raw@) == Err::<IceRoute, Seq<char>>(text@),
        },
{
    match unmarshal_candidate(raw) {
        Ok(c) => Ok(
            IceCandidate {
                network_type: c.network_type().to_string(),
                candidate_type: c.candidate_type().to_string(),
                address: c.address(),
                port: c.port(),
                tcp_type: c.tcp_type().to_string(),
                related: c.related_address().map(|r| (r.address, r.port)),
            },
        ),
        Err(error) => Err(error.to_string()),
    }
}

/// Appends the ASCII lower-case form of a text.
fn push_lower(s: &mut String, text: &str)
    ensures
        final(s)@ == old(s)@ + lower(text@),
{
    let chars = chars_of(text);
    let small = lower_of(&chars, 0, chars.len());
    assert(chars@.subrange(0, chars@.len() as int) =~= chars@);
    let piece = string_of(&small, 0, small.len());
    assert(small@.subrange(0, small@.len() as int) =~= small@);
    s.append(piece.as_str());
}

impl IceCandidate {
    /// The text that is the same for two candidates exactly where they are
    /// counted as one route.
    pub fn route_key(&self) -> (key: String)
        ensures
            key@ == self@.key(),
    {
        let mut key = self.network_type.clone();
        key.append("|");
        key.append(self.candidate_type.as_str());
        key.append("|");
        push_lower(&mut key, self.address.as_str());
        key.append("|");
        push_decimal(&mut key, self.port as u64);
        key.append("|");
        key.append(self.tcp_type.as_str());
        key.append("|");
        let ghost head = key@;
        match &self.related {
            Some(r) => {
                push_lower(&mut key, r.0.as_str());
                key.append(":");
                push_decimal(&mut key, r.1 as u64);
                assert(key@ =~= head + self@.related_text());
            },
            None => {
                assert(key@ =~= head + self@.related_text());
            },
        }
        key
    }
}

/// Whose description it is: this side's own, or the peer's.
#[derive(Clone, Copy, Debug, PartialEq, Eq, Structural)]
pub enum EmbeddedCandidateScope {
    Local,
    Remote,
}

impl EmbeddedCandidateScope {
    pub open spec fn max_routes(self) -> nat {
        match self {
            EmbeddedCandidateScope::Local => MAX_WEBRTC_LOCAL_CANDIDATE_ROUTES as nat,
            EmbeddedCandidateScope::Remote => MAX_WEBRTC_REMOTE_CANDIDATE_ROUTES as nat,
        }
    }

    pub open spec fn max_lines(self) -> nat {
        match self {
            EmbeddedCandidateScope::Local => MAX_WEBRTC_LOCAL_CANDIDATE_LINES as nat,
            EmbeddedCandidateScope::Remote => MAX_WEBRTC_REMOTE_CANDIDATE_LINES as nat,
        }
    }

    /// How many routes and how many candidate lines a description may hold.
    pub fn limits(self) -> (limits: (usize, usize))
        ensures
            limits.0 == self.max_routes(),
            limits.1 == self.max_lines(),
    {
        match self {
            EmbeddedCandidateScope::Local => (
                MAX_WEBRTC_LOCAL_CANDIDATE_ROUTES,
                MAX_WEBRTC_LOCAL_CANDIDATE_LINES,
            ),
            EmbeddedCandidateScope::Remote => (
                MAX_WEBRTC_REMOTE_CANDIDATE_ROUTES,
                MAX_WEBRTC_REMOTE_CANDIDATE_LINES,
            ),
        }
    }
}

/// How many candidate lines and how many different routes a description holds.
#[derive(Clone, Copy, Debug, PartialEq, Eq, Structural)]
pub struct EmbeddedCandidateCount {
    pub raw_lines: usize,
    pub unique_routes: usize,
}

/// The candidate that a line of a description holds: what follows
/// `a=candidate:`, after any whitespace.
pub open spec fn embedded_candidate(line: Seq<char>) -> Option<Seq<char>> {
    let start = skip_spaces(line, 0, Spaces::Unicode);
    if stands_at(line, "a=candidate:"@, start) {
        Some(line.skip(start + "a=candidate:"@.len()))
    } else {
        None
    }
}

/// The failure of a description with too many or too long candidate lines.
pub open spec fn lines_exceed_limits() -> Failure {
    Failure::InvalidAddress("WebRTC embedded candidate lines exceed limits"@)
}

/// The failure of a description with too many routes.
pub open spec fn routes_exceed(max_routes: nat) -> Failure {
    Failure::InvalidAddress(
        "WebRTC embedded SDP exceeds "@ + decimal_text(max_routes) + " unique ICE routes"@,
    )
}

/// The failure of a description with a candidate that cannot be read.
pub open spec fn invalid_candidate(text: Seq<char>) -> Failure {
    Failure::InvalidAddress("invalid WebRTC ICE candidate: "@ + text)
}

/// The candidate lines counted so far and the routes that they named.
#[verifier::ext_equal]
pub struct Scan {
    pub lines: nat,
    pub keys: Set<Seq<char>>,
}

impl Scan {
    /// The count after one more candidate line, if the limits allow it.
    pub open spec fn line(self, raw: Seq<char>, scope: EmbeddedCandidateScope) -> Result<
        Scan,
        Failure,
    > {
        if self.lines + 1 > scope.max_lines() || encode_utf8(raw).len()
            > MAX_WEBRTC_CANDIDATE_LENGTH {
            Err(lines_exceed_limits())
        } else {
            Ok(Scan { lines: self.lines + 1, ..self })
        }
    }

    /// The count after one more candidate was read, if the limits allow it.
    pub open spec fn route(
        self,
        parsed: Result<IceRoute, Seq<char>>,
        scope: EmbeddedCandidateScope,
    ) -> Result<Scan, Failure> {
        match parsed {
            Err(text) => Err(invalid_candidate(text)),
            Ok(route) => {
                let keys = self.keys.insert(route.key());
                if keys.len() > scope.max_routes() {
                    Err(routes_exceed(scope.max_routes()))
                } else {
                    Ok(Scan { keys, ..self })
                }
            },
        }
    }

    /// The count after the lines of `s` from position `i` on.
    pub open spec fn rest(self, s: Seq<char>, i: int, scope: EmbeddedCandidateScope) -> Result<
        Scan,
        Failure,
    >
        decreases s.len() - i,
    {
        if !(0 <= i < s.len()) {
            Ok(self)
        } else {
            proof {
                segment_end_bounds(s, i);
            }
            match embedded_candidate(line_at(s, i)) {
                None => self.rest(s, segment_end(s, i), scope),
                Some(raw) => match self.line(raw, scope) {
                    Err(failure) => Err(failure),
                    Ok(counted) => match counted.route(ice_candidate(raw), scope) {
                        Err(failure) => Err(failure),
                        Ok(next) => next.rest(s, segment_end(s, i), scope),
                    },
                },
            }
        }
    }
}

/// The candidates of a description, read from its first line to its last.
pub open spec fn scanned(sdp: Seq<char>, scope: EmbeddedCandidateScope) -> Result<Scan, Failure> {
    (Scan { lines: 0, keys: Set::empty() }).rest(sdp, 0, scope)
}

/// The candidate lines and routes counted so far.
pub struct EmbeddedRoutes {
    lines: usize,
    keys: Vec<String>,
}

impl View for EmbeddedRoutes {
    type V = Scan;

    closed spec fn view(&self) -> Scan {
        Scan { lines: self.lines as nat, keys: key_texts(self.keys@).to_set() }
    }
}

spec fn key_texts(keys: Seq<String>) -> Seq<Seq<char>> {
    Seq::new(keys.len(), |i: int| keys[i]@)
}

impl EmbeddedRoutes {
    pub closed spec fn inv(self) -> bool {
        key_texts(self.keys@).no_duplicates()
    }

    pub fn new() -> (routes: EmbeddedRoutes)
        ensures
            routes.inv(),
            routes@ == (Scan { lines: 0, keys: Set::empty() }),
    {
        let routes = EmbeddedRoutes { lines: 0, keys: Vec::new() };
        assert(key_texts(routes.keys@).to_set() =~= Set::<Seq<char>>::empty());
        routes
    }

    /// Counts one more candidate line.
    pub fn admit_line(&mut self, raw: &str, scope: EmbeddedCandidateScope) -> (result: Result<
        (),
        TransportError,
    >)
        requires
            old(self).inv(),
        ensures
            final(self).inv(),
            match result {
                Ok(_) => old(self)@.line(raw@, scope) == Ok::<Scan, Failure>(final(self)@),
                Err(error) => old(self)@.line(raw@, scope) == Err::<Scan, Failure>(error@)
                    && final(self)@ == old(self)@,
            },
    {
        let (_, max_lines) = scope.limits();
        if self.lines >= max_lines || raw.as_bytes().len() > MAX_WEBRTC_CANDIDATE_LENGTH {
            return Err(
                TransportError::InvalidAddress(
                    "WebRTC embedded candidate lines exceed limits".to_owned(),
                ),
            );
        }
        self.lines = self.lines + 1;
        Ok(())
    }

    /// Counts the route of one more candidate, as it was read.
    pub fn admit_route(
        &mut self,
        parsed: Result<IceCandidate, String>,
        scope: EmbeddedCandidateScope,
    ) -> (result: Result<(), TransportError>)
        requires
            old(self).inv(),
        ensures
            final(self).inv(),
            match result {
                Ok(_) => old(self)@.route(parsed_view(parsed), scope) == Ok::<Scan, Failure>(
                    final(self)@,
                ),
                Err(error) => old(self)@.route(parsed_view(parsed), scope) == Err::<Scan, Failure>(
                    error@,
                ),
            },
    {
        let candidate = match parsed {
            Ok(candidate) => candidate,
            Err(text) => {
                return Err(
                    TransportError::InvalidAddress(
                        joined("invalid WebRTC ICE candidate: ", text.as_str()),
                    ),
                );
            },
        };
        let key = candidate.route_key();
        let ghost texts = key_texts(self.keys@);
        let ghost fresh = key@;
        let mut i: usize = 0;
        let mut known = false;
        while i < self.keys.len() && !known
            invariant
                i <= self.keys@.len(),
                key@ == fresh,
                texts == key_texts(self.keys@),
                known ==> texts.contains(fresh),
                !known ==> forall|k: int| 0 <= k < i ==> texts[k] != fresh,
            decreases self.keys@.len() - i + (if known { 0int } else { 1 }),
        {
            if same_text(self.keys[i].as_str(), key.as_str()) {
                known = true;
                assert(texts[i as int] == fresh);
            } else {
                i = i + 1;
            }
        }
        proof {
            texts.unique_seq_to_set();
        }
        if !known {
            self.keys.push(key);
            proof {
                let after = key_texts(self.keys@);
                assert(after =~= texts.push(fresh));
                assert(!texts.contains(fresh));
                assert(after.no_duplicates());
                assert(after.to_set() =~= texts.to_set().insert(fresh)) by {
                    assert forall|k: Seq<char>| after.contains(k) <==> texts.contains(k) || k
                        == fresh by {
                        if texts.contains(k) {
                            let j = choose|j: int| 0 <= j < texts.len() && texts[j] == k;
                            assert(after[j] == k);
                        }
                        if k == fresh {
                            assert(after[texts.len() as int] == fresh);
                        }
                    }
                }
                after.unique_seq_to_set();
            }
        } else {
            assert(texts.to_set().insert(fresh) =~= texts.to_set());
        }
        let (max_routes, _) = scope.limits();
        if self.keys.len() > max_routes {
            let mut text = "WebRTC embedded SDP exceeds ".to_owned();
            push_decimal(&mut text, max_routes as u64);
            text.append(" unique ICE routes");
            return Err(TransportError::InvalidAddress(text));
        }
        Ok(())
    }

    /// What was counted.
    pub fn count(&self) -> (count: EmbeddedCandidateCount)
        requires
            self.inv(),
        ensures
            count.raw_lines == self@.lines,
            count.unique_routes == self@.keys.len(),
    {
        proof {
            key_texts(self.keys@).unique_seq_to_set();
        }
        EmbeddedCandidateCount { raw_lines: self.lines, unique_routes: self.keys.len() }
    }
}

/// The outcome of reading a candidate.
pub open spec fn parsed_view(parsed: Result<IceCandidate, String>) -> Result<IceRoute, Seq<char>> {
    match parsed {
        Ok(candidate) => Ok(candidate@),
        Err(text) => Err(text@),
    }
}

/// Finds the candidate in the line that ranges from `from` up to `to`.
fn find_embedded(v: &Vec<char>, from: usize, to: usize, prefix: &Vec<char>) -> (raw: Option<String>)
    requires
        from <= to <= v@.len(),
        prefix@ == "a=candidate:"@,
    ensures
        match raw {
            Some(r) => embedded_candidate(v@.subrange(from as int, to as int)) == Some(r@),
            None => embedded_candidate(v@.subrange(from as int, to as int)) is None,
        },
{
    let ghost line = v@.subrange(from as int, to as int);
    let mut at: usize = from;
    while at < to && Spaces::Unicode.contains(v[at])
        invariant
            from <= at <= to <= v@.len(),
            line == v@.subrange(from as int, to as int),
            skip_spaces(line, 0, Spaces::Unicode) == skip_spaces(line, at - from, Spaces::Unicode),
        decreases to - at,
    {
        at = at + 1;
    }
    let ghost start = at - from;
    assert(skip_spaces(line, 0, Spaces::Unicode) == start);
    if prefix.len() > to - at || !has_at(v, prefix, at) {
        proof {
            if stands_at(line, prefix@, start) {
                assert(v@.subrange(at as int, at + prefix@.len()) =~= line.subrange(
                    start,
                    start + prefix@.len(),
                ));
            }
        }
        return None;
    }
    assert(line.subrange(start, start + prefix@.len()) =~= v@.subrange(
        at as int,
        at + prefix@.len(),
    ));
    let raw = string_of(v, at + prefix.len(), to);
    assert(raw@ =~= line.skip(start + prefix@.len()));
    Some(raw)
}

/// Counts the candidates of a description and checks them against the limits.
pub fn validate_embedded_ice_candidates(sdp: &str, scope: EmbeddedCandidateScope) -> (result: Result<
    EmbeddedCandidateCount,
    TransportError,
>)
    ensures
        match result {
            Ok(count) => scanned(sdp@, scope) matches Ok(scan) && count.raw_lines == scan.lines
                && count.unique_routes == scan.keys.len(),
            Err(error) => scanned(sdp@, scope) == Err::<Scan, Failure>(error@),
        },
{
    let v = chars_of(sdp);
    let prefix = chars_of("a=candidate:");
    let mut routes = EmbeddedRoutes::new();
    let mut i: usize = 0;
    while i < v.len()
        invariant
            v@ == sdp@,
            prefix@ == "a=candidate:"@,
            i <= v@.len(),
            routes.inv(),
            scanned(sdp@, scope) == routes@.rest(v@, i as int, scope),
        decreases v@.len() - i,
    {
        let (line_to, next) = find_line_end(&v, i);
        match find_embedded(&v, i, line_to, &prefix) {
            None => {},
            Some(raw) => {
                match routes.admit_line(raw.as_str(), scope) {
                    Err(error) => {
                        return Err(error);
                    },
                    Ok(_) => {},
                }
                let parsed = parse_ice_candidate(raw.as_str());
                match routes.admit_route(parsed, scope) {
                    Err(error) => {
                        return Err(error);
                    },
                    Ok(_) => {},
                }
            },
        }
        i = next;
    }
    Ok(routes.count())
}


/// A count that stays within the limits.
pub open spec fn within_limits(scan: Scan, scope: EmbeddedCandidateScope) -> bool {
    &&& scan.keys.finite()
    &&& scan.keys.len() <= scan.lines <= scope.max_lines()
    &&& scan.keys.len() <= scope.max_routes()
}

proof fn lemma_rest_within_limits(
    scan: Scan,
    s: Seq<char>,
    i: int,
    scope: EmbeddedCandidateScope,
)
    requires
        within_limits(scan, scope),
        0 <= i <= s.len(),
    ensures
        scan.rest(s, i, scope) matches Ok(last) ==> within_limits(last, scope),
    decreases s.len() - i,
{
    if i < s.len() {
        segment_end_bounds(s, i);
        let next = segment_end(s, i);
        match embedded_candidate(line_at(s, i)) {
            None => {
                lemma_rest_within_limits(scan, s, next, scope);
            },
            Some(raw) => {
                if let Ok(counted) = scan.line(raw, scope) {
                    if let Ok(last) = counted.route(ice_candidate(raw), scope) {
                        lemma_rest_within_limits(last, s, next, scope);
                    }
                }
            },
        }
    }
}

/// An accepted description never holds more candidate lines or routes than its
/// scope allows, and never more routes than lines.
pub proof fn accepted_descriptions_are_bounded(sdp: Seq<char>, scope: EmbeddedCandidateScope)
    ensures
        scanned(sdp, scope) matches Ok(scan) ==> within_limits(scan, scope),
{
    lemma_rest_within_limits(Scan { lines: 0, keys: Set::empty() }, sdp, 0, scope);
}

/// The view of a candidate holds what the candidate says.
pub proof fn candidate_views_hold_their_fields(candidate: IceCandidate)
    ensures
        candidate@.network_type == candidate.network_type@,
        candidate@.candidate_type == candidate.candidate_type@,
        candidate@.address == candidate.address@,
        candidate@.port == candidate.port,
        candidate@.tcp_type == candidate.tcp_type@,
        candidate.related is None == candidate@.related is None,
        candidate.related matches Some(r) ==> candidate@.related == Some((r.0@, r.1)),
{
}

proof fn lemma_parts_count(head: Seq<char>, x: Seq<char>, y: Seq<char>, tail: Seq<char>)
    requires
        head + x + tail == head + y + tail,
    ensures
        x == y,
{
    let (s, t) = (head + x + tail, head + y + tail);
    assert(s.len() == head.len() + x.len() + tail.len());
    assert(t.len() == head.len() + y.len() + tail.len());
    assert forall|i: int| 0 <= i < x.len() implies x[i] == y[i] by {
        assert(s[head.len() + i] == x[i]);
        assert(t[head.len() + i] == y[i]);
    }
    assert(x =~= y);
}

proof fn lemma_network_and_type_count(a: IceRoute, n: IceRoute, c: IceRoute)
    requires
        n == (IceRoute { network_type: n.network_type, ..a }),
        c == (IceRoute { candidate_type: c.candidate_type, ..a }),
    ensures
        n.key() == a.key() ==> n.network_type == a.network_type,
        c.key() == a.key() ==> c.candidate_type == a.candidate_type,
{
    let bar = "|"@;
    let none = Seq::<char>::empty();
    let port = decimal_text(a.port as nat);
    let t1 = bar + lower(a.address) + bar + port + bar + a.tcp_type + bar + a.related_text();
    let t0 = bar + a.candidate_type + t1;
    if n.key() == a.key() {
        assert(a.key() =~= none + a.network_type + t0);
        assert(n.key() =~= none + n.network_type + t0);
        lemma_parts_count(none, a.network_type, n.network_type, t0);
    }
    if c.key() == a.key() {
        let h1 = a.network_type + bar;
        assert(a.key() =~= h1 + a.candidate_type + t1);
        assert(c.key() =~= h1 + c.candidate_type + t1);
        lemma_parts_count(h1, a.candidate_type, c.candidate_type, t1);
    }
}

proof fn lemma_address_and_port_count(a: IceRoute, d: IceRoute, p: IceRoute)
    requires
        d == (IceRoute { address: d.address, ..a }),
        p == (IceRoute { port: p.port, ..a }),
    ensures
        d.key() == a.key() ==> lower(d.address) == lower(a.address),
        p.key() == a.key() ==> p.port == a.port,
{
    let bar = "|"@;
    let h2 = a.network_type + bar + a.candidate_type + bar;
    let t3 = bar + a.tcp_type + bar + a.related_text();
    let port = decimal_text(a.port as nat);
    if d.key() == a.key() {
        let t2 = bar + port + t3;
        assert(a.key() =~= h2 + lower(a.address) + t2);
        assert(d.key() =~= h2 + lower(d.address) + t2);
        lemma_parts_count(h2, lower(a.address), lower(d.address), t2);
    }
    if p.key() == a.key() {
        let h3 = h2 + lower(a.address) + bar;
        assert(a.key() =~= h3 + port + t3);
        assert(p.key() =~= h3 + decimal_text(p.port as nat) + t3);
        lemma_parts_count(h3, port, decimal_text(p.port as nat), t3);
        numbers_are_written_in_one_way(a.port as nat, p.port as nat);
    }
}

proof fn lemma_tcp_type_and_related_count(a: IceRoute, e: IceRoute, f: IceRoute)
    requires
        e == (IceRoute { tcp_type: e.tcp_type, ..a }),
        f == (IceRoute { related: f.related, ..a }),
    ensures
        e.key() == a.key() ==> e.tcp_type == a.tcp_type,
        f.key() == a.key() ==> f.related_text() == a.related_text(),
{
    let bar = "|"@;
    let none = Seq::<char>::empty();
    let h4 = a.network_type + bar + a.candidate_type + bar + lower(a.address) + bar + decimal_text(
        a.port as nat,
    ) + bar;
    if e.key() == a.key() {
        let t4 = bar + a.related_text();
        assert(a.key() =~= h4 + a.tcp_type + t4);
        assert(e.key() =~= h4 + e.tcp_type + t4);
        lemma_parts_count(h4, a.tcp_type, e.tcp_type, t4);
    }
    if f.key() == a.key() {
        let h5 = h4 + a.tcp_type + bar;
        assert(a.key() =~= h5 + a.related_text() + none);
        assert(f.key() =~= h5 + f.related_text() + none);
        lemma_parts_count(h5, a.related_text(), f.related_text(), none);
    }
}

/// Routes are told apart by every part of theirs: two that differ in one part
/// alone are two routes. The case of an address is no part of it.
pub proof fn every_part_of_a_route_counts(a: IceRoute, b: IceRoute)
    ensures
        (IceRoute { network_type: b.network_type, ..a }).key() == a.key() <==> a.network_type
            == b.network_type,
        (IceRoute { candidate_type: b.candidate_type, ..a }).key() == a.key() <==> a.candidate_type
            == b.candidate_type,
        (IceRoute { address: b.address, ..a }).key() == a.key() <==> lower(a.address) == lower(
            b.address,
        ),
        (IceRoute { port: b.port, ..a }).key() == a.key() <==> a.port == b.port,
        (IceRoute { tcp_type: b.tcp_type, ..a }).key() == a.key() <==> a.tcp_type == b.tcp_type,
        (IceRoute { related: b.related, ..a }).key() == a.key() <==> a.related_text()
            == b.related_text(),
{
    lemma_network_and_type_count(
        a,
        IceRoute { network_type: b.network_type, ..a },
        IceRoute { candidate_type: b.candidate_type, ..a },
    );
    lemma_address_and_port_count(
        a,
        IceRoute { address: b.address, ..a },
        IceRoute { port: b.port, ..a },
    );
    lemma_tcp_type_and_related_count(
        a,
        IceRoute { tcp_type: b.tcp_type, ..a },
        IceRoute { related: b.related, ..a },
    );
}

/// A related address is told apart by its address, whatever its case, and by its
/// port, and from none at all.
pub proof fn related_addresses_are_told_apart(
    route: IceRoute,
    address: Seq<char>,
    port: u16,
    other_address: Seq<char>,
    other_port: u16,
)
    ensures
        ({
            let text = (IceRoute { related: Some((address, port)), ..route }).related_text();
            &&& (IceRoute { related: None, ..route }).related_text() != text
            &&& (IceRoute { related: Some((other_address, port)), ..route }).related_text() == text
                <==> lower(address) == lower(other_address)
            &&& (IceRoute { related: Some((address, other_port)), ..route }).related_text() == text
                <==> port == other_port
        }),
{
    reveal_strlit(":");
    let none = Seq::<char>::empty();
    let text = (IceRoute { related: Some((address, port)), ..route }).related_text();
    let digits = decimal_text(port as nat);
    let x = (IceRoute { related: Some((other_address, port)), ..route }).related_text();
    let y = (IceRoute { related: Some((address, other_port)), ..route }).related_text();
    let tail = ":"@ + digits;
    if x == text {
        assert(text =~= none + lower(address) + tail);
        assert(x =~= none + lower(other_address) + tail);
        lemma_parts_count(none, lower(address), lower(other_address), tail);
    }
    if y == text {
        let head = lower(address) + ":"@;
        assert(text =~= head + digits + none);
        assert(y =~= head + decimal_text(other_port as nat) + none);
        lemma_parts_count(head, digits, decimal_text(other_port as nat), none);
        numbers_are_written_in_one_way(port as nat, other_port as nat);
    }
    assert(text.len() > 0);
}

proof fn lemma_spaces_skipped(gap: Seq<char>, rest: Seq<char>, i: int)
    requires
        all_spaces(gap, Spaces::Unicode),
        rest.len() == 0 || !Spaces::Unicode.covers(rest[0]),
        0 <= i <= gap.len(),
    ensures
        skip_spaces(gap + rest, i, Spaces::Unicode) == gap.len(),
    decreases gap.len() - i,
{
    if i < gap.len() {
        assert((gap + rest)[i] == gap[i]);
        lemma_spaces_skipped(gap, rest, i + 1);
    } else if rest.len() > 0 {
        assert((gap + rest)[i] == rest[0]);
    }
}

/// A line holds a candidate exactly where, behind any spaces, it begins with
/// `a=candidate:`; the candidate is all that follows.
pub proof fn candidates_stand_behind_their_mark(
    gap: Seq<char>,
    raw: Seq<char>,
    other: Seq<char>,
    k: int,
)
    requires
        all_spaces(gap, Spaces::Unicode),
        other.len() > 0 ==> !Spaces::Unicode.covers(other[0]),
        0 <= k < 12,
        k >= other.len() || other[k] != "a=candidate:"@[k],
    ensures
        embedded_candidate(gap + "a=candidate:"@ + raw) == Some(raw),
        embedded_candidate(gap + other) is None,
{
    reveal_strlit("a=candidate:");
    let mark = "a=candidate:"@;
    assert(mark[0] == 'a');
    assert(gap + mark + raw =~= gap + (mark + raw));
    assert((mark + raw)[0] == 'a');
    lemma_spaces_skipped(gap, mark + raw, 0);
    let line = gap + mark + raw;
    assert(line.subrange(gap.len() as int, (gap.len() + mark.len()) as int) =~= mark);
    assert(line.skip((gap.len() + mark.len()) as int) =~= raw);
    lemma_spaces_skipped(gap, other, 0);
    if stands_at(gap + other, mark, gap.len() as int) {
        let part = (gap + other).subrange(gap.len() as int, (gap.len() + mark.len()) as int);
        assert(part[k] == other[k]);
    }
}

/// A candidate is counted where it is no longer than 2048 bytes and no more than
/// 32 candidates of a local description, or 64 of a remote one, stand before and
/// with it.
pub proof fn candidate_lines_are_limited(scan: Scan, raw: Seq<char>, scope: EmbeddedCandidateScope)
    ensures
        ({
            let limit = if scope is Local {
                32nat
            } else {
                64nat
            };
            &&& scan.line(raw, scope) is Ok <==> scan.lines < limit && encode_utf8(raw).len()
                <= 2048
            &&& scan.line(raw, scope) matches Ok(next) ==> next.lines == scan.lines + 1 && next.keys
                == scan.keys
            &&& scan.line(raw, scope) matches Err(failure) ==> failure == Failure::InvalidAddress(
                "WebRTC embedded candidate lines exceed limits"@,
            )
        }),
{
}

/// A route is counted once however often it is named. One that is new is counted
/// where there are fewer than 16 in a local description, or 32 in a remote one. A
/// text that is no candidate fails the description with its reason.
pub proof fn routes_are_counted_once(scan: Scan, route: IceRoute, scope: EmbeddedCandidateScope)
    requires
        scan.keys.finite(),
    ensures
        ({
            let limit = if scope is Local {
                16nat
            } else {
                32nat
            };
            let counted = scan.route(Ok(route), scope);
            &&& scan.keys.contains(route.key()) && scan.keys.len() <= limit ==> counted == Ok::<
                Scan,
                Failure,
            >(scan)
            &&& !scan.keys.contains(route.key()) ==> (counted is Ok <==> scan.keys.len() < limit)
            &&& !scan.keys.contains(route.key()) ==> (counted matches Ok(next) ==> next.lines
                == scan.lines && next.keys == scan.keys.insert(route.key()) && next.keys.len()
                == scan.keys.len() + 1)
            &&& counted matches Err(failure) ==> failure == Failure::InvalidAddress(
                "WebRTC embedded SDP exceeds "@ + decimal_text(limit) + " unique ICE routes"@,
            )
        }),
{
    if scan.keys.contains(route.key()) {
        assert(scan.keys.insert(route.key()) =~= scan.keys);
    }
}

/// A text that is no candidate fails the description with its reason.
pub proof fn texts_that_are_no_candidates_fail(
    scan: Scan,
    text: Seq<char>,
    scope: EmbeddedCandidateScope,
)
    ensures
        scan.route(Err(text), scope) == Err::<Scan, Failure>(
            Failure::InvalidAddress("invalid WebRTC ICE candidate: "@ + text),
        ),
{
}

/// A line is counted by the candidate in it, in the same way whether it is ended by
/// a line feed, by a carriage return and a line feed, or by the end of the text. A
/// line without a candidate counts for nothing.
pub proof fn lines_count_by_their_candidate(
    scan: Scan,
    line: Seq<char>,
    scope: EmbeddedCandidateScope,
)
    requires
        line.len() > 0,
        line.last() != '\r',
        forall|k: int| 0 <= k < line.len() ==> line[k] != '\n',
    ensures
        ({
            let counted = match embedded_candidate(line) {
                None => Ok(scan),
                Some(raw) => match scan.line(raw, scope) {
                    Err(failure) => Err(failure),
                    Ok(next) => next.route(ice_candidate(raw), scope),
                },
            };
            &&& scan.rest(line, 0, scope) == counted
            &&& scan.rest(line + seq!['\n'], 0, scope) == counted
            &&& scan.rest(line + seq!['\r', '\n'], 0, scope) == counted
        }),
{
    reveal_with_fuel(Scan::rest, 2);
    let none = Seq::<char>::empty();
    lines_end_at_line_feeds(none, line, none);
    assert(none + line =~= line);
    assert(none + line + seq!['\n'] + none =~= line + seq!['\n']);
    assert(none + line + seq!['\r', '\n'] + none =~= line + seq!['\r', '\n']);
}

proof fn lemma_counted_alike_behind(
    scan: Scan,
    head: Seq<char>,
    tail: Seq<char>,
    i: int,
    scope: EmbeddedCandidateScope,
)
    requires
        0 <= i <= tail.len(),
    ensures
        scan.rest(head + tail, head.len() + i, scope) == scan.rest(tail, i, scope),
    decreases tail.len() - i,
{
    if i < tail.len() {
        lines_do_not_depend_on_what_is_before(head, tail, i);
        segment_end_bounds(tail, i);
        let next = segment_end(tail, i);
        match embedded_candidate(line_at(tail, i)) {
            None => {
                lemma_counted_alike_behind(scan, head, tail, next, scope);
            },
            Some(raw) => {
                if let Ok(counted) = scan.line(raw, scope) {
                    if let Ok(last) = counted.route(ice_candidate(raw), scope) {
                        lemma_counted_alike_behind(last, head, tail, next, scope);
                    }
                }
            },
        }
    }
}

proof fn lemma_counted_in_order(
    scan: Scan,
    before: Seq<char>,
    after: Seq<char>,
    i: int,
    scope: EmbeddedCandidateScope,
)
    requires
        before.len() == 0 || before.last() == '\n',
        0 <= i <= before.len(),
    ensures
        scan.rest(before + after, i, scope) == match scan.rest(before, i, scope) {
            Err(failure) => Err(failure),
            Ok(mid) => mid.rest(after, 0, scope),
        },
    decreases before.len() - i,
{
    if i < before.len() {
        lines_do_not_depend_on_what_is_behind(before, after, i);
        segment_end_bounds(before, i);
        let end = segment_end(before, i);
        match embedded_candidate(line_at(before, i)) {
            None => {
                lemma_counted_in_order(scan, before, after, end, scope);
            },
            Some(raw) => {
                if let Ok(counted) = scan.line(raw, scope) {
                    if let Ok(last) = counted.route(ice_candidate(raw), scope) {
                        lemma_counted_in_order(last, before, after, end, scope);
                    }
                }
            },
        }
    } else {
        lemma_counted_alike_behind(scan, before, after, 0, scope);
    }
}

/// The lines of a description are counted one after the other: those of its first
/// part, and behind them those of the rest, each on what came before. The first
/// failure is the description's.
pub proof fn descriptions_are_counted_in_order(
    scan: Scan,
    before: Seq<char>,
    after: Seq<char>,
    scope: EmbeddedCandidateScope,
)
    requires
        before.len() == 0 || before.last() == '\n',
    ensures
        scan.rest(before + after, 0, scope) == match scan.rest(before, 0, scope) {
            Err(failure) => Err(failure),
            Ok(mid) => mid.rest(after, 0, scope),
        },
        scan.rest(Seq::empty(), 0, scope) == Ok::<Scan, Failure>(scan),
        scanned(before + after, scope) == match scanned(before, scope) {
            Err(failure) => Err(failure),
            Ok(mid) => mid.rest(after, 0, scope),
        },
        scanned(Seq::empty(), scope) == Ok::<Scan, Failure>(
            Scan { lines: 0, keys: Set::empty() },
        ),
{
    lemma_counted_in_order(scan, before, after, 0, scope);
    lemma_counted_in_order(Scan { lines: 0, keys: Set::empty() }, before, after, 0, scope);
}

/// What was read of a candidate is its view, or the words of the error.
pub proof fn parsed_candidates_are_viewed(candidate: IceCandidate, text: String)
    ensures
        parsed_view(Ok(candidate)) == Ok::<IceRoute, Seq<char>>(candidate@),
        parsed_view(Err(text)) == Err::<IceRoute, Seq<char>>(text@),
{
}

} // verus!
