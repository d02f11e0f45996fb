//! Candidates that name their host by multicast DNS.

use vstd::prelude::*;
use crate::addr::{IpAddr, ip_text};
use crate::error::{Failure, TransportError, joined, joined3};
use crate::fields::{
    fields_follow_each_other, find_field, find_line_end, is_word, line_at, line_end,
    lines_do_not_depend_on_what_is_before, lines_do_not_depend_on_what_is_behind,
    lines_end_at_line_feeds, nth_field, nth_field_bounds, segment_at, segment_end,
    segment_end_bounds,
};
use crate::text::{
    Spaces, chars_of, ends_with, has_at, is_ascii_space, lower, lower_casing_changes_capitals_only,
    lower_casing_is_stable, lower_of, same_text, slice_of, starts_with, str_less, string_of,
    text_less, text_less_irreflexive, text_less_total, text_less_transitive,
};

verus! {

/// Lookups that wait at the same time, at most.
pub const MAX_MDNS_WAITERS: usize = 8;

/// Host names that one description may name.
pub const MAX_MDNS_HOSTNAMES: usize = 32;

/// How many lookups may wait at the same time for a transport of a capacity.
pub fn max_mdns_waiters(max_connections: usize) -> (n: usize)
    ensures
        1 <= n <= MAX_MDNS_WAITERS,
        n == if max_connections < 1 {
            1
        } else if max_connections > MAX_MDNS_WAITERS {
            MAX_MDNS_WAITERS
        } else {
            max_connections
        },
{
    if max_connections < 1 {
        1
    } else if max_connections > MAX_MDNS_WAITERS {
        MAX_MDNS_WAITERS
    } else {
        max_connections
    }
}

// ---------------------------------------------------------------------------
// Candidate lines
// ---------------------------------------------------------------------------

/// Where a candidate line holds its address: the fifth field after
/// `a=candidate:`.
pub open spec fn address_range(line: Seq<char>) -> Option<(int, int)> {
    if starts_with(line, "a=candidate:"@) {
        nth_field(line, "a=candidate:"@.len() as int, Spaces::Ascii, 4)
    } else {
        None
    }
}

/// The address of a candidate line.
pub open spec fn candidate_address(line: Seq<char>) -> Option<Seq<char>> {
    match address_range(line) {
        Some(r) => Some(line.subrange(r.0, r.1)),
        None => None,
    }
}

/// The address range of a candidate line lies inside the line.
pub proof fn address_range_bounds(line: Seq<char>)
    ensures
        address_range(line) matches Some(r) ==> 0 <= r.0 < r.1 <= line.len(),
{
    if starts_with(line, "a=candidate:"@) {
        nth_field_bounds(line, "a=candidate:"@.len() as int, Spaces::Ascii, 4);
    }
}

/// Finds the address of a candidate line.
pub fn candidate_address_range(line: &Vec<char>) -> (range: Option<(usize, usize)>)
    ensures
        match range {
            Some(r) => address_range(line@) == Some((r.0 as int, r.1 as int)) && r.0 < r.1
                <= line@.len(),
            None => address_range(line@) is None,
        },
{
    let prefix = chars_of("a=candidate:");
    if !has_at(line, &prefix, 0) {
        return None;
    }
    find_field(line, prefix.len(), Spaces::Ascii, 4)
}

// ---------------------------------------------------------------------------
// Host names
// ---------------------------------------------------------------------------

/// A text without the dots at its end.
pub open spec fn without_end_dots(s: Seq<char>) -> Seq<char>
    decreases s.len(),
{
    if s.len() > 0 && s.last() == '.' {
        without_end_dots(s.drop_last())
    } else {
        s
    }
}

/// Whether an address is a multicast DNS name: it ends with `.local`, in any
/// case, before any dots at its end.
pub open spec fn names_mdns(address: Seq<char>) -> bool {
    ends_with(lower(without_end_dots(address)), ".local"@)
}

/// A character that a label may hold.
pub open spec fn label_char(c: char) -> bool {
    ('0' <= c && c <= '9') || ('a' <= c && c <= 'z') || ('A' <= c && c <= 'Z') || c == '-'
}

/// A label: one to sixty-three letters, digits and hyphens, with no hyphen at
/// either end.
pub open spec fn valid_label(s: Seq<char>) -> bool {
    &&& 1 <= s.len() <= 63
    &&& s[0] != '-'
    &&& s.last() != '-'
    &&& forall|i: int| 0 <= i < s.len() ==> label_char(#[trigger] s[i])
}

/// The first position at or after `i` that holds a dot, or the end.
pub open spec fn label_end(s: Seq<char>, i: int) -> int
    decreases s.len() - i,
{
    if 0 <= i < s.len() && s[i] != '.' {
        label_end(s, i + 1)
    } else {
        i
    }
}

/// Whether the labels from position `i` on are valid and the last one is
/// `local`.
pub open spec fn valid_labels(s: Seq<char>, i: int) -> bool
    decreases s.len() - i,
{
    if !(0 <= i <= s.len()) {
        false
    } else {
        let end = label_end(s, i);
        if end <= i || end > s.len() {
            false
        } else {
            valid_label(s.subrange(i, end)) && if end == s.len() {
                s.subrange(i, end) == "local"@
            } else {
                valid_labels(s, end + 1)
            }
        }
    }
}

proof fn lemma_label_end(s: Seq<char>, i: int)
    requires
        0 <= i <= s.len(),
    ensures
        i <= label_end(s, i) <= s.len(),
        forall|k: int| i <= k < label_end(s, i) ==> s[k] != '.',
        label_end(s, i) < s.len() ==> s[label_end(s, i)] == '.',
    decreases s.len() - i,
{
    if i < s.len() && s[i] != '.' {
        lemma_label_end(s, i + 1);
    }
}

/// A host name in lower case and without dots at its end.
pub open spec fn plain_name(hostname: Seq<char>) -> Seq<char> {
    lower(without_end_dots(hostname))
}

/// Whether a plain name is a valid multicast DNS name: at most 253 characters,
/// two labels or more, all of them valid, the last one `local`.
pub open spec fn valid_mdns_name(name: Seq<char>) -> bool {
    &&& name.len() <= 253
    &&& label_end(name, 0) < name.len()
    &&& valid_labels(name, 0)
}

/// The normal form of a host name: plain, with one dot at its end.
pub open spec fn normalized(hostname: Seq<char>) -> Result<Seq<char>, Failure> {
    if valid_mdns_name(plain_name(hostname)) {
        Ok(plain_name(hostname).push('.'))
    } else {
        Err(invalid_hostname(plain_name(hostname)))
    }
}

/// The failure of an invalid host name.
pub open spec fn invalid_hostname(name: Seq<char>) -> Failure {
    Failure::InvalidAddress("invalid WebRTC mDNS candidate hostname "@ + name)
}

fn plain_name_of(v: &Vec<char>, from: usize, to: usize) -> (name: Vec<char>)
    requires
        from <= to <= v@.len(),
    ensures
        name@ == plain_name(v@.subrange(from as int, to as int)),
{
    let mut end: usize = to;
    while end > from && v[end - 1] == '.'
        invariant
            from <= end <= to <= v@.len(),
            without_end_dots(v@.subrange(from as int, to as int)) == without_end_dots(
                v@.subrange(from as int, end as int),
            ),
        decreases end,
    {
        assert(v@.subrange(from as int, end as int).drop_last() =~= v@.subrange(
            from as int,
            end - 1,
        ));
        end = end - 1;
    }
    lower_of(v, from, end)
}

fn is_mdns_range(v: &Vec<char>, from: usize, to: usize) -> (yes: bool)
    requires
        from <= to <= v@.len(),
    ensures
        yes == names_mdns(v@.subrange(from as int, to as int)),
{
    let name = plain_name_of(v, from, to);
    let suffix = chars_of(".local");
    if name.len() < suffix.len() {
        return false;
    }
    has_at(&name, &suffix, name.len() - suffix.len())
}

/// Whether an address is a multicast DNS name.
pub fn is_mdns_hostname(address: &str) -> (yes: bool)
    ensures
        yes == names_mdns(address@),
{
    let v = chars_of(address);
    assert(v@.subrange(0, v@.len() as int) =~= address@);
    is_mdns_range(&v, 0, v.len())
}

fn is_valid_label(v: &Vec<char>, from: usize, to: usize) -> (yes: bool)
    requires
        from <= to <= v@.len(),
    ensures
        yes == valid_label(v@.subrange(from as int, to as int)),
{
    let ghost label = v@.subrange(from as int, to as int);
    if from == to || to - from > 63 || v[from] == '-' || v[to - 1] == '-' {
        return false;
    }
    let mut i: usize = from;
    while i < to
        invariant
            from <= i <= to <= v@.len(),
            label == v@.subrange(from as int, to as int),
            forall|k: int| 0 <= k < i - from ==> label_char(#[trigger] label[k]),
        decreases to - i,
    {
        let c = v[i];
        if !(('0' <= c && c <= '9') || ('a' <= c && c <= 'z') || ('A' <= c && c <= 'Z') || c
            == '-') {
            assert(!label_char(label[i - from]));
            return false;
        }
        i = i + 1;
    }
    true
}

fn has_valid_labels(v: &Vec<char>) -> (yes: bool)
    ensures
        yes == valid_labels(v@, 0),
{
    let local = chars_of("local");
    let mut at: usize = 0;
    loop
        invariant
            at <= v@.len(),
            local@ == "local"@,
            valid_labels(v@, 0) == valid_labels(v@, at as int),
        decreases v@.len() - at,
    {
        let mut end: usize = at;
        while end < v.len() && v[end] != '.'
            invariant
                at <= end <= v@.len(),
                label_end(v@, at as int) == label_end(v@, end as int),
            decreases v@.len() - end,
        {
            end = end + 1;
        }
        assert(label_end(v@, at as int) == end);
        if end == at || !is_valid_label(v, at, end) {
            return false;
        }
        if end == v.len() {
            let last = string_of(v, at, end);
            return same_text(last.as_str(), "local");
        }
        at = end + 1;
    }
}

fn normalize_range(v: &Vec<char>, from: usize, to: usize) -> (result: Result<
    String,
    TransportError,
>)
    requires
        from <= to <= v@.len(),
    ensures
        match result {
            Ok(name) => normalized(v@.subrange(from as int, to as int)) == Ok::<
                Seq<char>,
                Failure,
            >(name@),
            Err(error) => normalized(v@.subrange(from as int, to as int)) == Err::<
                Seq<char>,
                Failure,
            >(error@),
        },
{
    let name = plain_name_of(v, from, to);
    let mut dot: usize = 0;
    while dot < name.len() && name[dot] != '.'
        invariant
            dot <= name@.len(),
            label_end(name@, 0) == label_end(name@, dot as int),
        decreases name@.len() - dot,
    {
        dot = dot + 1;
    }
    assert(label_end(name@, 0) == dot);
    let mut text = string_of(&name, 0, name.len());
    assert(text@ =~= name@);
    if name.len() > 253 || dot == name.len() || !has_valid_labels(&name) {
        return Err(
            TransportError::InvalidAddress(
                joined("invalid WebRTC mDNS candidate hostname ", text.as_str()),
            ),
        );
    }
    text.push('.');
    Ok(text)
}

/// The normal form of a host name.
pub fn normalize_mdns_hostname(hostname: &str) -> (result: Result<String, TransportError>)
    ensures
        match result {
            Ok(name) => normalized(hostname@) == Ok::<Seq<char>, Failure>(name@),
            Err(error) => normalized(hostname@) == Err::<Seq<char>, Failure>(error@),
        },
{
    let v = chars_of(hostname);
    assert(v@.subrange(0, v@.len() as int) =~= hostname@);
    normalize_range(&v, 0, v.len())
}


// ---------------------------------------------------------------------------
// Descriptions
// ---------------------------------------------------------------------------

/// The multicast DNS name of a candidate line, in normal form; nothing for any
/// other line.
pub open spec fn mdns_host(line: Seq<char>) -> Option<Result<Seq<char>, Failure>> {
    match candidate_address(line) {
        Some(address) => if names_mdns(address) {
            Some(normalized(address))
        } else {
            None
        },
        None => None,
    }
}

/// The failure of a description with too many names.
pub open spec fn too_many_hostnames() -> Failure {
    Failure::InvalidAddress("WebRTC SDP contains more than 32 mDNS candidates"@)
}

/// The names in the lines of `s` from position `i` on, added to those found.
pub open spec fn hostnames_from(s: Seq<char>, i: int, found: Set<Seq<char>>) -> Result<
    Set<Seq<char>>,
    Failure,
>
    decreases s.len() - i,
{
    if !(0 <= i < s.len()) {
        Ok(found)
    } else {
        proof {
            segment_end_bounds(s, i);
        }
        match mdns_host(line_at(s, i)) {
            None => hostnames_from(s, segment_end(s, i), found),
            Some(Err(failure)) => Err(failure),
            Some(Ok(name)) => if found.insert(name).len() > MAX_MDNS_HOSTNAMES {
                Err(too_many_hostnames())
            } else {
                hostnames_from(s, segment_end(s, i), found.insert(name))
            },
        }
    }
}

/// The names of a description.
pub open spec fn hostnames(sdp: Seq<char>) -> Result<Set<Seq<char>>, Failure> {
    hostnames_from(sdp, 0, Set::empty())
}

/// The texts of some strings.
pub open spec fn texts(strings: Seq<String>) -> Seq<Seq<char>> {
    Seq::new(strings.len(), |i: int| strings[i]@)
}

/// Whether texts are in order, without repetition.
pub open spec fn ascending(names: Seq<Seq<char>>) -> bool {
    forall|i: int, j: int|
        0 <= i < j < names.len() ==> text_less(#[trigger] names[i], #[trigger] names[j])
}

proof fn lemma_ascending_distinct(names: Seq<Seq<char>>)
    requires
        ascending(names),
    ensures
        names.no_duplicates(),
        names.to_set().finite(),
        names.to_set().len() == names.len(),
{
    assert forall|i: int, j: int|
        0 <= i < names.len() && 0 <= j < names.len() && i != j implies names[i] != names[j] by {
        if i < j {
            assert(text_less(names[i], names[j]));
            text_less_irreflexive(names[i]);
        } else {
            assert(text_less(names[j], names[i]));
            text_less_irreflexive(names[j]);
        }
    }
    names.unique_seq_to_set();
}

/// Puts a name at its place among names in order, unless it is there already.
fn insert_ascending(names: &mut Vec<String>, name: String)
    requires
        ascending(texts(old(names)@)),
        old(names)@.len() < usize::MAX,
    ensures
        ascending(texts(final(names)@)),
        texts(final(names)@).to_set() == texts(old(names)@).to_set().insert(name@),
        final(names)@.len() <= old(names)@.len() + 1,
{
    let ghost before = texts(names@);
    let ghost text = name@;
    let mut at: usize = 0;
    while at < names.len() && str_less(names[at].as_str(), name.as_str())
        invariant
            at <= names@.len(),
            before == texts(names@),
            name@ == text,
            forall|k: int| 0 <= k < at ==> text_less(#[trigger] before[k], text),
        decreases names@.len() - at,
    {
        assert(before[at as int] == names@[at as int]@);
        at = at + 1;
    }
    if at < names.len() && same_text(names[at].as_str(), name.as_str()) {
        proof {
            assert(before[at as int] == text);
            assert(before.to_set().contains(text));
            assert(before.to_set().insert(text) =~= before.to_set());
        }
        return;
    }
    proof {
        if at < names@.len() {
            assert(before[at as int] == names@[at as int]@);
            text_less_total(before[at as int], text);
        }
    }
    names.insert(at, name);
    proof {
        let after = texts(names@);
        assert(after =~= before.insert(at as int, text));
        assert forall|i: int, j: int| 0 <= i < j < after.len() implies text_less(
            #[trigger] after[i],
            #[trigger] after[j],
        ) by {
            if i < at && j < at {
                assert(text_less(before[i], before[j]));
            } else if i < at && j == at {
                assert(text_less(before[i], text));
            } else if i < at {
                assert(text_less(before[i], before[j - 1]));
            } else if i == at {
                if j - 1 > at {
                    assert(text_less(before[at as int], before[j - 1]));
                    text_less_transitive(text, before[at as int], before[j - 1]);
                }
            } else {
                assert(text_less(before[i - 1], before[j - 1]));
            }
        }
        assert forall|k: Seq<char>| after.contains(k) <==> before.contains(k) || k == text by {
            if after.contains(k) {
                let i = choose|i: int| 0 <= i < after.len() && after[i] == k;
                if i < at {
                    assert(before[i] == k);
                } else if i > at {
                    assert(before[i - 1] == k);
                }
            }
            if before.contains(k) {
                let i = choose|i: int| 0 <= i < before.len() && before[i] == k;
                if i < at {
                    assert(after[i] == k);
                } else {
                    assert(after[i + 1] == k);
                }
            }
            if k == text {
                assert(after[at as int] == k);
            }
        }
        assert(after.to_set() =~= before.to_set().insert(text));
    }
}

/// The multicast DNS names of a description, in order and without repetition.
pub fn mdns_candidate_hostnames(sdp: &str) -> (result: Result<Vec<String>, TransportError>)
    ensures
        match result {
            Ok(names) => {
                &&& ascending(texts(names@))
                &&& hostnames(sdp@) == Ok::<Set<Seq<char>>, Failure>(texts(names@).to_set())
            },
            Err(error) => hostnames(sdp@) == Err::<Set<Seq<char>>, Failure>(error@),
        },
{
    let v = chars_of(sdp);
    let mut names: Vec<String> = Vec::new();
    let mut i: usize = 0;
    assert(texts(names@).to_set() =~= Set::<Seq<char>>::empty());
    while i < v.len()
        invariant
            v@ == sdp@,
            i <= v@.len(),
            ascending(texts(names@)),
            names@.len() <= MAX_MDNS_HOSTNAMES,
            hostnames(sdp@) == hostnames_from(v@, i as int, texts(names@).to_set()),
        decreases v@.len() - i,
    {
        let (line_to, next) = find_line_end(&v, i);
        match mdns_host_of(&v, i, line_to) {
            None => {},
            Some(Err(error)) => {
                return Err(error);
            },
            Some(Ok(name)) => {
                insert_ascending(&mut names, name);
                proof {
                    lemma_ascending_distinct(texts(names@));
                }
                if names.len() > MAX_MDNS_HOSTNAMES {
                    return Err(
                        TransportError::InvalidAddress(
                            "WebRTC SDP contains more than 32 mDNS candidates".to_owned(),
                        ),
                    );
                }
            },
        }
        i = next;
    }
    Ok(names)
}

/// The multicast DNS name in the line from `from` up to `to`.
fn mdns_host_of(v: &Vec<char>, from: usize, to: usize) -> (host: Option<
    Result<String, TransportError>,
>)
    requires
        from <= to <= v@.len(),
    ensures
        match host {
            Some(Ok(name)) => mdns_host(v@.subrange(from as int, to as int)) == Some(
                Ok::<Seq<char>, Failure>(name@),
            ),
            Some(Err(error)) => mdns_host(v@.subrange(from as int, to as int)) == Some(
                Err::<Seq<char>, Failure>(error@),
            ),
            None => mdns_host(v@.subrange(from as int, to as int)) is None,
        },
{
    let line = slice_of(v, from, to);
    match candidate_address_range(&line) {
        None => None,
        Some((start, end)) => {
            if is_mdns_range(&line, start, end) {
                Some(normalize_range(&line, start, end))
            } else {
                None
            }
        },
    }
}

/// A text in front of a successful result.
pub open spec fn in_front(head: Seq<char>, tail: Result<Seq<char>, Failure>) -> Result<
    Seq<char>,
    Failure,
> {
    match tail {
        Ok(text) => Ok(head + text),
        Err(failure) => Err(failure),
    }
}

proof fn lemma_in_front(a: Seq<char>, b: Seq<char>, tail: Result<Seq<char>, Failure>)
    ensures
        in_front(a, in_front(b, tail)) == in_front(a + b, tail),
{
    if let Ok(text) = tail {
        assert(a + (b + text) =~= (a + b) + text);
    }
}

/// The lines of `s` from position `i` on without the candidates that name their
/// host by multicast DNS.
pub open spec fn stripped_from(s: Seq<char>, i: int) -> Result<Seq<char>, Failure>
    decreases s.len() - i,
{
    if !(0 <= i < s.len()) {
        Ok(Seq::empty())
    } else {
        proof {
            segment_end_bounds(s, i);
        }
        match mdns_host(line_at(s, i)) {
            None => in_front(segment_at(s, i), stripped_from(s, segment_end(s, i))),
            Some(Err(failure)) => Err(failure),
            Some(Ok(_)) => stripped_from(s, segment_end(s, i)),
        }
    }
}

/// Takes the candidates that name their host by multicast DNS out of a
/// description.
pub fn strip_mdns_candidates(sdp: &str) -> (result: Result<String, TransportError>)
    ensures
        match result {
            Ok(text) => stripped_from(sdp@, 0) == Ok::<Seq<char>, Failure>(text@),
            Err(error) => stripped_from(sdp@, 0) == Err::<Seq<char>, Failure>(error@),
        },
{
    let v = chars_of(sdp);
    let mut out = String::new();
    let mut i: usize = 0;
    proof {
        if let Ok(text) = stripped_from(sdp@, 0) {
            assert(out@ + text =~= text);
        }
    }
    while i < v.len()
        invariant
            v@ == sdp@,
            i <= v@.len(),
            stripped_from(sdp@, 0) == in_front(out@, stripped_from(v@, i as int)),
        decreases v@.len() - i,
    {
        let (line_to, next) = find_line_end(&v, i);
        match mdns_host_of(&v, i, line_to) {
            Some(Err(error)) => {
                return Err(error);
            },
            Some(Ok(_)) => {},
            None => {
                let segment = string_of(&v, i, next);
                proof {
                    lemma_in_front(out@, segment@, stripped_from(v@, next as int));
                }
                out.append(segment.as_str());
            },
        }
        i = next;
    }
    assert(out@ + Seq::<char>::empty() =~= out@);
    Ok(out)
}

/// The address of a resolved name: that of the first entry with this name.
pub open spec fn resolved_ip(resolved: Seq<(String, IpAddr)>, name: Seq<char>) -> Option<IpAddr>
    decreases resolved.len(),
{
    if resolved.len() == 0 {
        None
    } else if resolved[0].0@ == name {
        Some(resolved[0].1)
    } else {
        resolved_ip(resolved.skip(1), name)
    }
}

fn find_resolved(resolved: &Vec<(String, IpAddr)>, name: &str) -> (ip: Option<IpAddr>)
    ensures
        ip == resolved_ip(resolved@, name@),
{
    let mut i: usize = 0;
    assert(resolved@.skip(0) =~= resolved@);
    while i < resolved.len()
        invariant
            i <= resolved@.len(),
            resolved_ip(resolved@, name@) == resolved_ip(resolved@.skip(i as int), name@),
        decreases resolved@.len() - i,
    {
        assert(resolved@.skip(i as int)[0] == resolved@[i as int]);
        if same_text(resolved[i].0.as_str(), name) {
            return Some(resolved[i].1);
        }
        assert(resolved@.skip(i as int).skip(1) =~= resolved@.skip(i + 1));
        i = i + 1;
    }
    None
}

/// The failure of a description with a name that was not resolved.
pub open spec fn not_resolved(name: Seq<char>) -> Failure {
    Failure::StartFailed("WebRTC mDNS candidate "@ + name + " was not resolved"@)
}

/// The line starting at `i` with its address replaced.
pub open spec fn with_address(s: Seq<char>, i: int, address: Seq<char>) -> Seq<char> {
    let line = line_at(s, i);
    match address_range(line) {
        Some(r) => line.subrange(0, r.0) + address + line.subrange(r.1, line.len() as int)
            + s.subrange(line_end(s, i), segment_end(s, i)),
        None => segment_at(s, i),
    }
}

/// The lines of `s` from position `i` on with every multicast DNS name replaced
/// by the address that it was resolved to.
pub open spec fn rewritten_from(s: Seq<char>, i: int, resolved: Seq<(String, IpAddr)>) -> Result<
    Seq<char>,
    Failure,
>
    decreases s.len() - i,
{
    if !(0 <= i < s.len()) {
        Ok(Seq::empty())
    } else {
        proof {
            segment_end_bounds(s, i);
        }
        let rest = rewritten_from(s, segment_end(s, i), resolved);
        match mdns_host(line_at(s, i)) {
            None => in_front(segment_at(s, i), rest),
            Some(Err(failure)) => Err(failure),
            Some(Ok(name)) => match resolved_ip(resolved, name) {
                Some(ip) => in_front(with_address(s, i, ip_text(ip)), rest),
                None => Err(not_resolved(name)),
            },
        }
    }
}

/// Replaces every multicast DNS name of a description by the address that it
/// was resolved to.
pub fn rewrite_mdns_candidates(sdp: &str, resolved: &Vec<(String, IpAddr)>) -> (result: Result<
    String,
    TransportError,
>)
    ensures
        match result {
            Ok(text) => rewritten_from(sdp@, 0, resolved@) == Ok::<Seq<char>, Failure>(text@),
            Err(error) => rewritten_from(sdp@, 0, resolved@) == Err::<Seq<char>, Failure>(error@),
        },
{
    let v = chars_of(sdp);
    let mut out = String::new();
    let mut i: usize = 0;
    proof {
        if let Ok(text) = rewritten_from(sdp@, 0, resolved@) {
            assert(out@ + text =~= text);
        }
    }
    while i < v.len()
        invariant
            v@ == sdp@,
            i <= v@.len(),
            rewritten_from(sdp@, 0, resolved@) == in_front(
                out@,
                rewritten_from(v@, i as int, resolved@),
            ),
        decreases v@.len() - i,
    {
        let (line_to, next) = find_line_end(&v, i);
        match mdns_host_of(&v, i, line_to) {
            Some(Err(error)) => {
                return Err(error);
            },
            None => {
                let segment = string_of(&v, i, next);
                proof {
                    lemma_in_front(out@, segment@, rewritten_from(v@, next as int, resolved@));
                }
                out.append(segment.as_str());
            },
            Some(Ok(name)) => {
                let ip = match find_resolved(resolved, name.as_str()) {
                    Some(ip) => ip,
                    None => {
                        return Err(
                            TransportError::StartFailed(
                                joined3(
                                    "WebRTC mDNS candidate ",
                                    name.as_str(),
                                    " was not resolved",
                                ),
                            ),
                        );
                    },
                };
                let line = slice_of(&v, i, line_to);
                if let Some((start, end)) = candidate_address_range(&line) {
                    let mut changed = string_of(&line, 0, start);
                    changed.append(ip.text().as_str());
                    changed.append(string_of(&line, end, line.len()).as_str());
                    changed.append(string_of(&v, line_to, next).as_str());
                    assert(changed@ =~= with_address(v@, i as int, ip_text(ip)));
                    proof {
                        lemma_in_front(out@, changed@, rewritten_from(v@, next as int, resolved@));
                    }
                    out.append(changed.as_str());
                }
            },
        }
        i = next;
    }
    assert(out@ + Seq::<char>::empty() =~= out@);
    Ok(out)
}

// ---------------------------------------------------------------------------
// Addresses
// ---------------------------------------------------------------------------

/// The preference among resolved addresses: IPv4 comes first, then the order of
/// the texts.
pub open spec fn preferred_before(a: IpAddr, b: IpAddr) -> bool {
    if a.spec_is_ipv4() != b.spec_is_ipv4() {
        a.spec_is_ipv4()
    } else {
        text_less(ip_text(a), ip_text(b))
    }
}

fn is_preferred_before(a: &IpAddr, b: &IpAddr) -> (yes: bool)
    ensures
        yes == preferred_before(*a, *b),
{
    if a.is_ipv4() != b.is_ipv4() {
        return a.is_ipv4();
    }
    let x = a.text();
    let y = b.text();
    str_less(x.as_str(), y.as_str())
}

/// Whether the address at `i` is the first one that no other is preferred to.
pub open spec fn most_preferred(addresses: Seq<IpAddr>, i: int) -> bool {
    &&& 0 <= i < addresses.len()
    &&& forall|j: int|
        0 <= j < addresses.len() ==> !preferred_before(#[trigger] addresses[j], addresses[i])
    &&& forall|j: int| 0 <= j < i ==> preferred_before(addresses[i], #[trigger] addresses[j])
}

/// Picks one of the resolved addresses.
pub fn preferred_address(addresses: &Vec<IpAddr>) -> (picked: Option<IpAddr>)
    ensures
        match picked {
            Some(ip) => exists|i: int| #[trigger]
                most_preferred(addresses@, i) && addresses@[i] == ip,
            None => addresses@.len() == 0,
        },
{
    if addresses.len() == 0 {
        return None;
    }
    let mut best: usize = 0;
    let mut i: usize = 1;
    proof {
        text_less_irreflexive(ip_text(addresses@[0]));
    }
    while i < addresses.len()
        invariant
            best < i <= addresses@.len(),
            forall|j: int|
                0 <= j < i ==> !preferred_before(#[trigger] addresses@[j], addresses@[best as int]),
            forall|j: int|
                0 <= j < best ==> preferred_before(addresses@[best as int], #[trigger] addresses@[j]),
        decreases addresses@.len() - i,
    {
        if is_preferred_before(&addresses[i], &addresses[best]) {
            proof {
                let fresh = addresses@[i as int];
                let old_best = addresses@[best as int];
                assert forall|j: int| 0 <= j < i implies preferred_before(
                    fresh,
                    #[trigger] addresses@[j],
                ) && !preferred_before(addresses@[j], fresh) by {
                    lemma_preferred_total(old_best, addresses@[j]);
                    lemma_preferred_step(fresh, old_best, addresses@[j]);
                }
                text_less_irreflexive(ip_text(fresh));
            }
            best = i;
        }
        i = i + 1;
    }
    assert(most_preferred(addresses@, best as int));
    Some(addresses[best])
}

/// What is not preferred to an address is either behind it or has its text.
proof fn lemma_preferred_total(a: IpAddr, b: IpAddr)
    requires
        !preferred_before(b, a),
    ensures
        preferred_before(a, b) || (a.spec_is_ipv4() == b.spec_is_ipv4() && ip_text(a) == ip_text(
            b,
        )),
{
    if a.spec_is_ipv4() == b.spec_is_ipv4() && ip_text(a) != ip_text(b) {
        text_less_total(ip_text(a), ip_text(b));
    }
}

/// What is preferred to an address is preferred to everything behind it.
proof fn lemma_preferred_step(a: IpAddr, b: IpAddr, c: IpAddr)
    requires
        preferred_before(a, b),
        preferred_before(b, c) || (b.spec_is_ipv4() == c.spec_is_ipv4() && ip_text(b) == ip_text(
            c,
        )),
    ensures
        preferred_before(a, c),
        !preferred_before(c, a),
{
    let (x, y, z) = (ip_text(a), ip_text(b), ip_text(c));
    if text_less(x, y) && text_less(y, z) {
        text_less_transitive(x, y, z);
    }
    if a.spec_is_ipv4() == c.spec_is_ipv4() {
        if x == z {
            text_less_irreflexive(x);
        } else {
            text_less_total(x, z);
        }
    }
}


// ---------------------------------------------------------------------------
// Laws
// ---------------------------------------------------------------------------

/// Whether no line from position `i` on names its host by multicast DNS.
pub open spec fn no_mdns(s: Seq<char>, i: int) -> bool
    decreases s.len() - i,
{
    if !(0 <= i < s.len()) {
        true
    } else {
        proof {
            segment_end_bounds(s, i);
        }
        mdns_host(line_at(s, i)) is None && no_mdns(s, segment_end(s, i))
    }
}

proof fn lemma_untouched(s: Seq<char>, i: int, resolved: Seq<(String, IpAddr)>)
    requires
        0 <= i <= s.len(),
        no_mdns(s, i),
    ensures
        stripped_from(s, i) == Ok::<Seq<char>, Failure>(s.subrange(i, s.len() as int)),
        rewritten_from(s, i, resolved) == Ok::<Seq<char>, Failure>(
            s.subrange(i, s.len() as int),
        ),
        forall|found: Set<Seq<char>>| #[trigger]
            hostnames_from(s, i, found) == Ok::<Set<Seq<char>>, Failure>(found),
    decreases s.len() - i,
{
    if i < s.len() {
        segment_end_bounds(s, i);
        let next = segment_end(s, i);
        lemma_untouched(s, next, resolved);
        assert(segment_at(s, i) + s.subrange(next, s.len() as int) =~= s.subrange(
            i,
            s.len() as int,
        ));
        assert forall|found: Set<Seq<char>>| #[trigger]
            hostnames_from(s, i, found) == Ok::<Set<Seq<char>>, Failure>(found) by {
            assert(hostnames_from(s, next, found) == Ok::<Set<Seq<char>>, Failure>(found));
        }
    } else {
        assert(s.subrange(i, s.len() as int) =~= Seq::<char>::empty());
    }
}

/// A description without multicast DNS names is left alone: it has no names,
/// and stripping or rewriting it changes nothing.
pub proof fn other_descriptions_are_left_alone(sdp: Seq<char>, resolved: Seq<(String, IpAddr)>)
    requires
        no_mdns(sdp, 0),
    ensures
        hostnames(sdp) == Ok::<Set<Seq<char>>, Failure>(Set::empty()),
        stripped_from(sdp, 0) == Ok::<Seq<char>, Failure>(sdp),
        rewritten_from(sdp, 0, resolved) == Ok::<Seq<char>, Failure>(sdp),
{
    lemma_untouched(sdp, 0, resolved);
    assert(sdp.subrange(0, sdp.len() as int) =~= sdp);
    assert(hostnames_from(sdp, 0, Set::empty()) == Ok::<Set<Seq<char>>, Failure>(Set::empty()));
}

proof fn lemma_found_stays(s: Seq<char>, i: int, found: Set<Seq<char>>)
    requires
        0 <= i <= s.len(),
    ensures
        hostnames_from(s, i, found) matches Ok(names) ==> found.subset_of(names),
    decreases s.len() - i,
{
    if i < s.len() {
        segment_end_bounds(s, i);
        match mdns_host(line_at(s, i)) {
            None => {
                lemma_found_stays(s, segment_end(s, i), found);
            },
            Some(Ok(name)) => {
                lemma_found_stays(s, segment_end(s, i), found.insert(name));
            },
            Some(Err(_)) => {},
        }
    }
}

proof fn lemma_nothing_found(s: Seq<char>, i: int)
    requires
        0 <= i <= s.len(),
        hostnames_from(s, i, Set::empty()) == Ok::<Set<Seq<char>>, Failure>(Set::empty()),
    ensures
        no_mdns(s, i),
    decreases s.len() - i,
{
    if i < s.len() {
        segment_end_bounds(s, i);
        match mdns_host(line_at(s, i)) {
            None => {
                lemma_nothing_found(s, segment_end(s, i));
            },
            Some(Ok(name)) => {
                lemma_found_stays(s, segment_end(s, i), Set::empty().insert(name));
                assert(Set::<Seq<char>>::empty().insert(name).contains(name));
            },
            Some(Err(_)) => {},
        }
    }
}

/// A description in which no name was found has none.
pub proof fn no_names_found_means_none_there(sdp: Seq<char>)
    requires
        hostnames(sdp) == Ok::<Set<Seq<char>>, Failure>(Set::empty()),
    ensures
        no_mdns(sdp, 0),
{
    lemma_nothing_found(sdp, 0);
}

proof fn lemma_rewrites(
    s: Seq<char>,
    i: int,
    found: Set<Seq<char>>,
    names: Set<Seq<char>>,
    resolved: Seq<(String, IpAddr)>,
)
    requires
        0 <= i <= s.len(),
        hostnames_from(s, i, found) == Ok::<Set<Seq<char>>, Failure>(names),
        forall|name: Seq<char>| names.contains(name) ==> #[trigger] resolved_ip(
            resolved,
            name,
        ) is Some,
    ensures
        rewritten_from(s, i, resolved) is Ok,
    decreases s.len() - i,
{
    if i < s.len() {
        segment_end_bounds(s, i);
        let next = segment_end(s, i);
        match mdns_host(line_at(s, i)) {
            None => {
                lemma_rewrites(s, next, found, names, resolved);
            },
            Some(Ok(name)) => {
                lemma_found_stays(s, next, found.insert(name));
                assert(found.insert(name).contains(name));
                lemma_rewrites(s, next, found.insert(name), names, resolved);
                assert(resolved_ip(resolved, name) is Some);
            },
            Some(Err(_)) => {},
        }
    }
}

/// Once every name of a description is resolved, rewriting it succeeds.
pub proof fn resolved_names_can_be_rewritten(
    sdp: Seq<char>,
    names: Set<Seq<char>>,
    resolved: Seq<(String, IpAddr)>,
)
    requires
        hostnames(sdp) == Ok::<Set<Seq<char>>, Failure>(names),
        forall|name: Seq<char>| names.contains(name) ==> #[trigger] resolved_ip(
            resolved,
            name,
        ) is Some,
    ensures
        rewritten_from(sdp, 0, resolved) is Ok,
{
    lemma_rewrites(sdp, 0, Set::empty(), names, resolved);
}

/// Where a line ends, given its characters.
proof fn lemma_segment_end_at(s: Seq<char>, i: int, m: int)
    requires
        0 <= i <= m <= s.len(),
        forall|k: int| i <= k < m ==> s[k] != '\n',
        m < s.len() ==> s[m] == '\n',
    ensures
        segment_end(s, i) == if m < s.len() {
            m + 1
        } else {
            m
        },
    decreases m - i,
{
    if i < m {
        lemma_segment_end_at(s, i + 1, m);
    }
}

/// What a line is made of, given where it ends.
proof fn lemma_segment_chars(s: Seq<char>, i: int)
    requires
        0 <= i < s.len(),
    ensures
        i < segment_end(s, i) <= s.len(),
        forall|k: int| i <= k < segment_end(s, i) - 1 ==> s[k] != '\n',
        segment_end(s, i) < s.len() ==> s[segment_end(s, i) - 1] == '\n',
    decreases s.len() - i,
{
    if s[i] != '\n' {
        if i + 1 < s.len() {
            lemma_segment_chars(s, i + 1);
        } else {
            assert(segment_end(s, i + 1) == i + 1);
        }
    }
}

/// A line keeps its content when it comes first in another text.
proof fn lemma_line_moves(s: Seq<char>, i: int, tail: Seq<char>)
    requires
        0 <= i < s.len(),
        segment_end(s, i) == s.len() ==> s.last() == '\n' || tail.len() == 0,
    ensures
        segment_end(segment_at(s, i) + tail, 0) == segment_at(s, i).len(),
        line_at(segment_at(s, i) + tail, 0) == line_at(s, i),
{
    lemma_segment_chars(s, i);
    let end = segment_end(s, i);
    let segment = segment_at(s, i);
    let whole = segment + tail;
    assert(forall|k: int| 0 <= k < segment.len() ==> whole[k] == s[i + k]);
    if s[end - 1] == '\n' {
        lemma_segment_end_at(whole, 0, segment.len() - 1);
    } else {
        lemma_segment_end_at(whole, 0, segment.len() as int);
    }
    assert(line_at(whole, 0) =~= line_at(s, i));
}

/// A text keeps its lines when another text comes before it.
proof fn lemma_lines_shift(head: Seq<char>, tail: Seq<char>, i: int)
    requires
        0 <= i <= tail.len(),
    ensures
        segment_end(head + tail, head.len() + i) == head.len() + segment_end(tail, i),
    decreases tail.len() - i,
{
    if i < tail.len() {
        assert((head + tail)[head.len() + i] == tail[i]);
        if tail[i] != '\n' {
            lemma_lines_shift(head, tail, i + 1);
        }
    }
}

proof fn lemma_no_mdns_shift(head: Seq<char>, tail: Seq<char>, i: int)
    requires
        0 <= i <= tail.len(),
    ensures
        no_mdns(head + tail, head.len() + i) == no_mdns(tail, i),
    decreases tail.len() - i,
{
    if i < tail.len() {
        lemma_lines_shift(head, tail, i);
        segment_end_bounds(tail, i);
        assert(line_at(head + tail, head.len() + i) =~= line_at(tail, i));
        lemma_no_mdns_shift(head, tail, segment_end(tail, i));
    }
}

proof fn lemma_stripped(s: Seq<char>, i: int)
    requires
        0 <= i <= s.len(),
    ensures
        stripped_from(s, i) matches Ok(text) ==> no_mdns(text, 0),
        i == s.len() ==> stripped_from(s, i) == Ok::<Seq<char>, Failure>(Seq::empty()),
    decreases s.len() - i,
{
    if i < s.len() {
        segment_end_bounds(s, i);
        let next = segment_end(s, i);
        lemma_stripped(s, next);
        if mdns_host(line_at(s, i)) is None {
            if let Ok(tail) = stripped_from(s, next) {
                let segment = segment_at(s, i);
                lemma_line_moves(s, i, tail);
                lemma_no_mdns_shift(segment, tail, 0);
            }
        }
    }
}

/// A stripped description names no host by multicast DNS, so that stripping it
/// again changes nothing.
pub proof fn stripping_leaves_no_names(sdp: Seq<char>, text: Seq<char>)
    requires
        stripped_from(sdp, 0) == Ok::<Seq<char>, Failure>(text),
    ensures
        no_mdns(text, 0),
        stripped_from(text, 0) == Ok::<Seq<char>, Failure>(text),
{
    lemma_stripped(sdp, 0);
    other_descriptions_are_left_alone(text, Seq::empty());
}

/// A name has only an address that it was resolved to: that of an entry with this
/// name, the first one if there are more. It has none exactly where there is no
/// such entry.
pub proof fn names_have_their_own_addresses(resolved: Seq<(String, IpAddr)>, name: Seq<char>)
    ensures
        match resolved_ip(resolved, name) {
            Some(ip) => exists|i: int|
                0 <= i < resolved.len() && (#[trigger] resolved[i]).0@ == name && resolved[i].1 == ip
                    && forall|k: int| 0 <= k < i ==> (#[trigger] resolved[k]).0@ != name,
            None => forall|i: int| 0 <= i < resolved.len() ==> (#[trigger] resolved[i]).0@ != name,
        },
    decreases resolved.len(),
{
    if resolved.len() > 0 && resolved[0].0@ != name {
        let rest = resolved.skip(1);
        names_have_their_own_addresses(rest, name);
        match resolved_ip(rest, name) {
            Some(ip) => {
                let i = choose|i: int|
                    0 <= i < rest.len() && (#[trigger] rest[i]).0@ == name && rest[i].1 == ip
                        && forall|k: int| 0 <= k < i ==> (#[trigger] rest[k]).0@ != name;
                assert(resolved[i + 1] == rest[i]);
                assert forall|k: int| 0 <= k < i + 1 implies (#[trigger] resolved[k]).0@ != name by {
                    if k > 0 {
                        assert(resolved[k] == rest[k - 1]);
                    }
                }
            },
            None => {
                assert forall|i: int| 0 <= i < resolved.len() implies (#[trigger] resolved[i]).0@
                    != name by {
                    if i > 0 {
                        assert(resolved[i] == rest[i - 1]);
                    }
                }
            },
        }
    }
}

/// Where no name is resolved twice, each has the address of its own entry.
pub proof fn distinct_names_keep_their_addresses(
    resolved: Seq<(String, IpAddr)>,
    i: int,
)
    requires
        0 <= i < resolved.len(),
        forall|a: int, b: int|
            0 <= a < b < resolved.len() ==> (#[trigger] resolved[a]).0@ != (#[trigger] resolved[b]).0@,
    ensures
        resolved_ip(resolved, resolved[i].0@) == Some(resolved[i].1),
{
    let name = resolved[i].0@;
    names_have_their_own_addresses(resolved, name);
    assert(resolved[i].0@ == name);
}

proof fn lemma_handled_alike_behind(
    head: Seq<char>,
    tail: Seq<char>,
    i: int,
    resolved: Seq<(String, IpAddr)>,
)
    requires
        0 <= i <= tail.len(),
    ensures
        rewritten_from(head + tail, head.len() + i, resolved) == rewritten_from(tail, i, resolved),
        stripped_from(head + tail, head.len() + i) == stripped_from(tail, i),
    decreases tail.len() - i,
{
    if i < tail.len() {
        lines_do_not_depend_on_what_is_before(head, tail, i);
        segment_end_bounds(tail, i);
        lemma_handled_alike_behind(head, tail, segment_end(tail, i), resolved);
        let whole = head + tail;
        assert(whole.subrange(
            line_end(whole, head.len() + i),
            segment_end(whole, head.len() + i),
        ) =~= tail.subrange(line_end(tail, i), segment_end(tail, i)));
    }
}

proof fn lemma_found_alike_behind(
    head: Seq<char>,
    tail: Seq<char>,
    i: int,
    found: Set<Seq<char>>,
)
    requires
        0 <= i <= tail.len(),
    ensures
        hostnames_from(head + tail, head.len() + i, found) == hostnames_from(tail, i, found),
    decreases tail.len() - i,
{
    if i < tail.len() {
        lines_do_not_depend_on_what_is_before(head, tail, i);
        segment_end_bounds(tail, i);
        let next = segment_end(tail, i);
        lemma_found_alike_behind(head, tail, next, found);
        if let Some(Ok(name)) = mdns_host(line_at(tail, i)) {
            lemma_found_alike_behind(head, tail, next, found.insert(name));
        }
    }
}

/// A line that names no host by multicast DNS stays as it is, whatever becomes of
/// the lines behind it.
pub proof fn other_lines_stay(
    line: Seq<char>,
    rest: Seq<char>,
    resolved: Seq<(String, IpAddr)>,
    found: Set<Seq<char>>,
)
    requires
        forall|k: int| 0 <= k < line.len() ==> line[k] != '\n',
        mdns_host(line) is None,
    ensures
        ({
            let ended = line + seq!['\r', '\n'];
            &&& match rewritten_from(rest, 0, resolved) {
                Ok(text) => rewritten_from(ended + rest, 0, resolved) == Ok::<Seq<char>, Failure>(
                    ended + text,
                ),
                Err(failure) => rewritten_from(ended + rest, 0, resolved) == Err::<
                    Seq<char>,
                    Failure,
                >(failure),
            }
            &&& match stripped_from(rest, 0) {
                Ok(text) => stripped_from(ended + rest, 0) == Ok::<Seq<char>, Failure>(
                    ended + text,
                ),
                Err(failure) => stripped_from(ended + rest, 0) == Err::<Seq<char>, Failure>(
                    failure,
                ),
            }
            &&& hostnames_from(ended + rest, 0, found) == hostnames_from(rest, 0, found)
        }),
{
    let ended = line + seq!['\r', '\n'];
    lemma_first_line(line, rest);
    lemma_handled_alike_behind(ended, rest, 0, resolved);
    lemma_found_alike_behind(ended, rest, 0, found);
}

proof fn lemma_first_line(line: Seq<char>, rest: Seq<char>)
    requires
        forall|k: int| 0 <= k < line.len() ==> line[k] != '\n',
    ensures
        ({
            let ended = line + seq!['\r', '\n'];
            &&& line_at(ended + rest, 0) == line
            &&& line_end(ended + rest, 0) == line.len()
            &&& segment_end(ended + rest, 0) == ended.len()
            &&& segment_at(ended + rest, 0) == ended
            &&& (ended + rest).subrange(line.len() as int, ended.len() as int) == seq![
                '\r',
                '\n',
            ]
        }),
{
    let ended = line + seq!['\r', '\n'];
    lines_end_at_line_feeds(Seq::empty(), line, rest);
    assert(Seq::<char>::empty() + line + seq!['\r', '\n'] + rest =~= ended + rest);
    assert((ended + rest).subrange(line.len() as int, ended.len() as int) =~= seq!['\r', '\n']);
}

/// A candidate that names its host by multicast DNS: its name is found, it is taken
/// out of a stripped description, and a rewritten one has the address of the name
/// in its place and everything around it unchanged. A name without an address, or
/// one that is none, fails the description.
pub proof fn mdns_lines_are_handled(
    before: Seq<char>,
    host: Seq<char>,
    after: Seq<char>,
    name: Seq<char>,
    rest: Seq<char>,
    resolved: Seq<(String, IpAddr)>,
    found: Set<Seq<char>>,
)
    requires
        forall|k: int|
            0 <= k < (before + host + after).len() ==> (before + host + after)[k] != '\n',
        address_range(before + host + after) == Some(
            (before.len() as int, (before.len() + host.len()) as int),
        ),
        names_mdns(host),
        normalized(host) == Ok::<Seq<char>, Failure>(name),
    ensures
        ({
            let ended = before + host + after + seq!['\r', '\n'];
            &&& stripped_from(ended + rest, 0) == stripped_from(rest, 0)
            &&& found.finite() && !found.contains(name) && found.len() < 32 ==> hostnames_from(
                ended + rest,
                0,
                found,
            ) == hostnames_from(rest, 0, found.insert(name))
            &&& found.finite() && found.contains(name) && found.len() <= 32 ==> hostnames_from(
                ended + rest,
                0,
                found,
            ) == hostnames_from(rest, 0, found)
            &&& (forall|i: int| 0 <= i < resolved.len() ==> (#[trigger] resolved[i]).0@ != name)
                ==> rewritten_from(ended + rest, 0, resolved) is Err
            &&& forall|i: int|
                0 <= i < resolved.len() && (#[trigger] resolved[i]).0@ == name && (forall|k: int|
                    0 <= k < i ==> (#[trigger] resolved[k]).0@ != name) ==> match rewritten_from(
                    rest,
                    0,
                    resolved,
                ) {
                    Ok(text) => rewritten_from(ended + rest, 0, resolved) == Ok::<
                        Seq<char>,
                        Failure,
                    >(before + ip_text(resolved[i].1) + after + seq!['\r', '\n'] + text),
                    Err(failure) => rewritten_from(ended + rest, 0, resolved) == Err::<
                        Seq<char>,
                        Failure,
                    >(failure),
                }
        }),
{
    let line = before + host + after;
    let ended = line + seq!['\r', '\n'];
    lemma_first_line(line, rest);
    lemma_handled_alike_behind(ended, rest, 0, resolved);
    assert(line.subrange(before.len() as int, (before.len() + host.len()) as int) =~= host);
    assert(mdns_host(line) == Some(Ok::<Seq<char>, Failure>(name)));
    if found.contains(name) {
        assert(found.insert(name) =~= found);
    }
    lemma_found_alike_behind(ended, rest, 0, found.insert(name));
    names_have_their_own_addresses(resolved, name);
    assert forall|i: int|
        0 <= i < resolved.len() && (#[trigger] resolved[i]).0@ == name && (forall|k: int|
            0 <= k < i ==> (#[trigger] resolved[k]).0@ != name) implies match rewritten_from(
        rest,
        0,
        resolved,
    ) {
        Ok(text) => rewritten_from(ended + rest, 0, resolved) == Ok::<Seq<char>, Failure>(
            before + ip_text(resolved[i].1) + after + seq!['\r', '\n'] + text,
        ),
        Err(failure) => rewritten_from(ended + rest, 0, resolved) == Err::<Seq<char>, Failure>(
            failure,
        ),
    } by {
        let ip = resolved[i].1;
        assert(resolved_ip(resolved, name) == Some(ip));
        assert(line.subrange(0, before.len() as int) =~= before);
        assert(line.subrange((before.len() + host.len()) as int, line.len() as int) =~= after);
        assert(with_address(ended + rest, 0, ip_text(ip)) =~= before + ip_text(ip) + after + seq![
            '\r',
            '\n',
        ]);
    }
}

/// A candidate's address is the fifth field behind `a=candidate:`. Lines that begin
/// otherwise have none.
pub proof fn candidates_hold_their_address_in_the_fifth_field(
    f0: Seq<char>,
    f1: Seq<char>,
    f2: Seq<char>,
    f3: Seq<char>,
    host: Seq<char>,
    after: Seq<char>,
)
    requires
        is_word(f0, Spaces::Ascii),
        is_word(f1, Spaces::Ascii),
        is_word(f2, Spaces::Ascii),
        is_word(f3, Spaces::Ascii),
        is_word(host, Spaces::Ascii),
        after.len() == 0 || is_ascii_space(after[0]),
    ensures
        ({
            let before = "a=candidate:"@ + f0 + seq![' '] + f1 + seq![' '] + f2 + seq![' '] + f3
                + seq![' '];
            address_range(before + host + after) == Some(
                (before.len() as int, (before.len() + host.len()) as int),
            )
        }),
{
    let prefix = "a=candidate:"@;
    let gap = seq![' '];
    let none = Seq::<char>::empty();
    let h0 = prefix;
    let h1 = h0 + f0;
    let h2 = h1 + gap + f1;
    let h3 = h2 + gap + f2;
    let h4 = h3 + gap + f3;
    let line = h4 + gap + host + after;
    let r3 = gap + host + after;
    let r2 = gap + f3 + r3;
    let r1 = gap + f2 + r2;
    let r0 = gap + f1 + r1;
    assert(gap[0] == ' ');
    assert(h0 + none + f0 + r0 =~= line);
    assert(h1 + gap + f1 + r1 =~= line);
    assert(h2 + gap + f2 + r2 =~= line);
    assert(h3 + gap + f3 + r3 =~= line);
    fields_follow_each_other(h0, none, f0, r0, Spaces::Ascii, 3);
    fields_follow_each_other(h1, gap, f1, r1, Spaces::Ascii, 2);
    fields_follow_each_other(h2, gap, f2, r2, Spaces::Ascii, 1);
    fields_follow_each_other(h3, gap, f3, r3, Spaces::Ascii, 0);
    fields_follow_each_other(h4, gap, host, after, Spaces::Ascii, 0);
    assert(line.subrange(0, prefix.len() as int) =~= prefix);
    let before = prefix + f0 + gap + f1 + gap + f2 + gap + f3 + gap;
    assert(before =~= h4 + gap);
}

/// Lines that do not begin with `a=candidate:`, or that have fewer than five fields
/// behind it, hold no address.
pub proof fn other_lines_hold_no_address(line: Seq<char>, k: int)
    requires
        0 <= k < 12,
        k >= line.len() || line[k] != "a=candidate:"@[k],
    ensures
        address_range(line) is None,
        mdns_host(line) is None,
{
    reveal_strlit("a=candidate:");
    let prefix = "a=candidate:"@;
    if starts_with(line, prefix) {
        assert(line.subrange(0, prefix.len() as int)[k] == line[k]);
    }
}

/// Dots at the end of a name do not matter, and neither does case.
pub proof fn case_and_end_dots_do_not_matter(host: Seq<char>)
    ensures
        without_end_dots(host.push('.')) == without_end_dots(host),
        host.len() > 0 && host.last() != '.' ==> without_end_dots(host) == host,
        without_end_dots(Seq::empty()) == Seq::<char>::empty(),
        normalized(host.push('.')) == normalized(host),
        names_mdns(host.push('.')) == names_mdns(host),
        normalized(lower(host)) == normalized(host),
        names_mdns(lower(host)) == names_mdns(host),
    decreases host.len(),
{
    assert(host.push('.').drop_last() =~= host);
    lemma_dots_and_case(host);
    lower_casing_is_stable(without_end_dots(host), Seq::empty());
}

proof fn lemma_dots_and_case(host: Seq<char>)
    ensures
        without_end_dots(lower(host)) == lower(without_end_dots(host)),
    decreases host.len(),
{
    if host.len() > 0 {
        assert(lower(host).last() == '.' <==> host.last() == '.');
        assert(lower(host).drop_last() =~= lower(host.drop_last()));
        if host.last() == '.' {
            lemma_dots_and_case(host.drop_last());
        }
    }
}

/// A name is a multicast DNS name exactly where it ends with `.local`.
pub proof fn mdns_names_end_with_local(host: Seq<char>)
    requires
        host.len() > 0,
        host.last() != '.',
    ensures
        names_mdns(host) <==> host.len() >= 6 && lower(host.skip(host.len() - 6)) == ".local"@,
{
    reveal_strlit(".local");
    case_and_end_dots_do_not_matter(host);
    let l = lower(host);
    if host.len() >= 6 {
        assert(l.subrange(l.len() - 6, l.len() as int) =~= lower(host.skip(host.len() - 6)));
    }
}

/// Whether one of the sixty-four characters from position `k` on is a dot.
pub open spec fn dot_near(s: Seq<char>, k: int) -> bool {
    exists|d: int| k <= d < k + 64 && #[trigger] s[d] == '.'
}

proof fn lemma_labels_end(s: Seq<char>, i: int)
    requires
        0 <= i <= s.len(),
        valid_labels(s, i),
    ensures
        ends_with(s, "local"@),
        s.len() - 5 >= i,
        s.len() - 5 > i ==> s[s.len() - 6] == '.',
        forall|k: int|
            i <= k < s.len() ==> #[trigger] s[k] == '.' || label_char(s[k]),
        forall|k: int| i <= k < s.len() - 1 ==> !(#[trigger] s[k] == '.' && s[k + 1] == '.'),
        s[i] != '.',
        s.last() != '.',
        forall|k: int| i <= k && k + 63 < s.len() ==> #[trigger] dot_near(s, k),
    decreases s.len() - i,
{
    reveal_strlit("local");
    lemma_label_end(s, i);
    let end = label_end(s, i);
    let label = s.subrange(i, end);
    assert forall|k: int| i <= k < end implies label_char(#[trigger] s[k]) by {
        assert(label[k - i] == s[k]);
    }
    if end == s.len() {
        assert(label.len() == 5);
        assert(s.last() == label[4]);
    } else {
        lemma_labels_end(s, end + 1);
        assert forall|k: int| i <= k < s.len() implies #[trigger] s[k] == '.' || label_char(
            s[k],
        ) by {
            if k > end {
                assert(s[k] == '.' || label_char(s[k]));
            }
        }
        assert forall|k: int| i <= k < s.len() - 1 implies !(#[trigger] s[k] == '.' && s[k + 1]
            == '.') by {
            if k > end {
                assert(!(s[k] == '.' && s[k + 1] == '.'));
            }
        }
        assert forall|k: int| i <= k && k + 63 < s.len() implies #[trigger] dot_near(s, k) by {
            if k <= end {
                assert(s[end] == '.');
            } else {
                assert(dot_near(s, k));
            }
        }
    }
}

/// What a valid name looks like in its normal form: letters, digits and hyphens
/// between single dots, in lower case, ending with `.local.`, and not too long,
/// neither as a whole nor between two dots.
pub proof fn normal_names_are_plain(host: Seq<char>, name: Seq<char>)
    requires
        normalized(host) == Ok::<Seq<char>, Failure>(name),
    ensures
        name.len() <= 254,
        ends_with(name, ".local."@),
        name[0] != '.',
        lower(name) == name,
        forall|k: int|
            0 <= k < name.len() ==> #[trigger] name[k] == '.' || name[k] == '-' || ('0' <= name[k]
                && name[k] <= '9') || ('a' <= name[k] && name[k] <= 'z'),
        forall|k: int| 0 <= k < name.len() - 1 ==> !(#[trigger] name[k] == '.' && name[k + 1] == '.'),
        forall|k: int| 0 <= k && k + 63 < name.len() - 1 ==> #[trigger] dot_near(name, k),
{
    reveal_strlit("local");
    reveal_strlit(".local.");
    let plain = plain_name(host);
    assert(name == plain.push('.'));
    lemma_labels_end(plain, 0);
    lemma_label_end(plain, 0);
    lower_casing_is_stable(without_end_dots(host), Seq::empty());
    assert(lower(name) =~= name) by {
        assert(lower(plain) == plain);
        assert forall|k: int| 0 <= k < name.len() implies lower(name)[k] == name[k] by {
            if k < plain.len() {
                assert(lower(plain)[k] == plain[k]);
            }
        }
    }
    assert(plain.len() > 5) by {
        assert(plain[label_end(plain, 0)] == '.');
        let tail = plain.subrange(plain.len() - 5, plain.len() as int);
        assert(tail == "local"@);
        if plain.len() == 5 {
            assert(tail =~= plain);
            assert(tail[label_end(plain, 0)] == '.');
        }
    }
    assert(name.subrange(name.len() - 7, name.len() as int) =~= ".local."@) by {
        let tail = plain.subrange(plain.len() - 5, plain.len() as int);
        assert(tail == "local"@);
        assert forall|k: int| 0 <= k < 7 implies name.subrange(name.len() - 7, name.len() as int)[k]
            == ".local."@[k] by {
            if 1 <= k < 6 {
                assert(plain[plain.len() - 6 + k] == tail[k - 1]);
            }
        }
    }
    assert forall|k: int| 0 <= k < name.len() implies #[trigger] name[k] == '.' || name[k] == '-'
        || ('0' <= name[k] && name[k] <= '9') || ('a' <= name[k] && name[k] <= 'z') by {
        if k < plain.len() {
            assert(plain[k] == '.' || label_char(plain[k]));
            assert(lower(plain)[k] == plain[k]);
            lower_casing_changes_capitals_only(plain, k);
        }
    }
    assert forall|k: int| 0 <= k < name.len() - 1 implies !(#[trigger] name[k] == '.' && name[k + 1]
        == '.') by {
        if k + 1 < plain.len() {
            assert(!(plain[k] == '.' && plain[k + 1] == '.'));
        } else {
            assert(name[k] == plain.last());
        }
    }
    assert forall|k: int| 0 <= k && k + 63 < name.len() - 1 implies #[trigger] dot_near(
        name,
        k,
    ) by {
        assert(dot_near(plain, k));
        let d = choose|d: int| k <= d < k + 64 && #[trigger] plain[d] == '.';
        assert(name[d] == '.');
    }
}

/// Every host with one valid label before `.local` has a name: itself with a dot
/// at its end.
pub proof fn plain_hosts_have_names(label: Seq<char>)
    requires
        1 <= label.len() <= 63,
        label[0] != '-',
        label.last() != '-',
        forall|k: int|
            0 <= k < label.len() ==> #[trigger] label[k] == '-' || ('0' <= label[k] && label[k]
                <= '9') || ('a' <= label[k] && label[k] <= 'z'),
    ensures
        normalized(label + ".local"@) == Ok::<Seq<char>, Failure>(label + ".local."@),
        names_mdns(label + ".local"@),
{
    reveal_strlit("local");
    reveal_strlit(".local");
    reveal_strlit(".local.");
    let host = label + ".local"@;
    assert(host.last() == 'l');
    case_and_end_dots_do_not_matter(host);
    assert forall|k: int| 0 <= k < host.len() implies lower(host)[k] == host[k] by {
        if k < label.len() {
            assert(host[k] == label[k]);
        } else {
            assert(host[k] == ".local"@[k - label.len()]);
        }
        lower_casing_changes_capitals_only(host, k);
    }
    assert(lower(host) =~= host);
    mdns_names_end_with_local(host);
    assert(lower(host.skip(host.len() - 6)) =~= ".local"@) by {
        assert(host.skip(host.len() - 6) =~= ".local"@);
        assert(lower(host).skip(host.len() - 6) =~= lower(host.skip(host.len() - 6)));
    }
    let n = label.len() as int;
    assert forall|k: int| 0 <= k < n implies host[k] != '.' by {
        assert(host[k] == label[k]);
    }
    assert(host[n] == '.');
    lemma_label_stops(host, 0, n);
    assert(host.subrange(0, n) =~= label);
    assert(valid_label(label));
    assert forall|k: int| n + 1 <= k < host.len() implies host[k] != '.' by {
        assert(host[k] == ".local"@[k - n]);
    }
    lemma_label_stops(host, n + 1, host.len() as int);
    assert(host.subrange(n + 1, host.len() as int) =~= "local"@);
    let local = "local"@;
    assert(valid_label(local));
    assert(valid_labels(host, n + 1));
    assert(valid_labels(host, 0));
    assert(host.push('.') =~= label + ".local."@);
}

proof fn lemma_label_stops(s: Seq<char>, i: int, end: int)
    requires
        0 <= i <= end <= s.len(),
        forall|k: int| i <= k < end ==> s[k] != '.',
        end < s.len() ==> s[end] == '.',
    ensures
        label_end(s, i) == end,
    decreases end - i,
{
    if i < end {
        lemma_label_stops(s, i + 1, end);
    }
}

/// The preferred one of several addresses is an IPv4 address wherever there is one,
/// and of the addresses of its family none has a text that comes before its own.
pub proof fn ipv4_is_preferred(addresses: Seq<IpAddr>, i: int, j: int)
    requires
        most_preferred(addresses, i),
        0 <= j < addresses.len(),
    ensures
        addresses[j] is V4 ==> addresses[i] is V4,
        (addresses[i] is V4 <==> addresses[j] is V4) ==> !text_less(
            ip_text(addresses[j]),
            ip_text(addresses[i]),
        ),
{
    assert(!preferred_before(addresses[j], addresses[i]));
}

proof fn lemma_names_bounded(s: Seq<char>, i: int, found: Set<Seq<char>>)
    requires
        0 <= i <= s.len(),
        found.finite(),
        found.len() <= 32,
    ensures
        hostnames_from(s, i, found) matches Ok(names) ==> names.finite() && names.len() <= 32,
    decreases s.len() - i,
{
    if i < s.len() {
        segment_end_bounds(s, i);
        match mdns_host(line_at(s, i)) {
            None => {
                lemma_names_bounded(s, segment_end(s, i), found);
            },
            Some(Ok(name)) => {
                if found.insert(name).len() <= 32 {
                    lemma_names_bounded(s, segment_end(s, i), found.insert(name));
                }
            },
            Some(Err(_)) => {},
        }
    }
}

/// No more than thirty-two names are looked up for one description.
pub proof fn names_are_bounded(sdp: Seq<char>)
    ensures
        hostnames(sdp) matches Ok(names) ==> names.finite() && names.len() <= 32,
{
    lemma_names_bounded(sdp, 0, Set::empty());
}

/// What two parts of a text become together: both, or the first failure.
pub open spec fn one_behind_the_other(
    first: Result<Seq<char>, Failure>,
    second: Result<Seq<char>, Failure>,
) -> Result<Seq<char>, Failure> {
    match (first, second) {
        (Ok(a), Ok(b)) => Ok(a + b),
        (Err(failure), _) => Err(failure),
        (Ok(_), Err(failure)) => Err(failure),
    }
}

proof fn lemma_handled_in_parts(
    before: Seq<char>,
    after: Seq<char>,
    i: int,
    resolved: Seq<(String, IpAddr)>,
)
    requires
        before.len() == 0 || before.last() == '\n',
        0 <= i <= before.len(),
    ensures
        rewritten_from(before + after, i, resolved) == one_behind_the_other(
            rewritten_from(before, i, resolved),
            rewritten_from(after, 0, resolved),
        ),
        stripped_from(before + after, i) == one_behind_the_other(
            stripped_from(before, i),
            stripped_from(after, 0),
        ),
    decreases before.len() - i,
{
    if i < before.len() {
        let whole = before + after;
        lines_do_not_depend_on_what_is_behind(before, after, i);
        segment_end_bounds(before, i);
        let next = segment_end(before, i);
        lemma_handled_in_parts(before, after, next, resolved);
        assert(whole.subrange(line_end(whole, i), segment_end(whole, i)) =~= before.subrange(
            line_end(before, i),
            next,
        ));
        if let Ok(b) = rewritten_from(after, 0, resolved) {
            if let Ok(a) = rewritten_from(before, next, resolved) {
                let segment = segment_at(before, i);
                assert(segment + (a + b) =~= (segment + a) + b);
                if let Some(Ok(name)) = mdns_host(line_at(before, i)) {
                    if let Some(ip) = resolved_ip(resolved, name) {
                        let line = with_address(before, i, ip_text(ip));
                        assert(line + (a + b) =~= (line + a) + b);
                    }
                }
            }
        }
        if let Ok(b) = stripped_from(after, 0) {
            if let Ok(a) = stripped_from(before, next) {
                let segment = segment_at(before, i);
                assert(segment + (a + b) =~= (segment + a) + b);
            }
        }
    } else {
        lemma_handled_alike_behind(before, after, 0, resolved);
        if let Ok(b) = rewritten_from(after, 0, resolved) {
            assert(Seq::<char>::empty() + b =~= b);
        }
        if let Ok(b) = stripped_from(after, 0) {
            assert(Seq::<char>::empty() + b =~= b);
        }
    }
}

proof fn lemma_found_in_parts(before: Seq<char>, after: Seq<char>, i: int, found: Set<Seq<char>>)
    requires
        before.len() == 0 || before.last() == '\n',
        0 <= i <= before.len(),
    ensures
        hostnames_from(before + after, i, found) == match hostnames_from(before, i, found) {
            Ok(names) => hostnames_from(after, 0, names),
            Err(failure) => Err(failure),
        },
    decreases before.len() - i,
{
    if i < before.len() {
        lines_do_not_depend_on_what_is_behind(before, after, i);
        segment_end_bounds(before, i);
        let next = segment_end(before, i);
        lemma_found_in_parts(before, after, next, found);
        if let Some(Ok(name)) = mdns_host(line_at(before, i)) {
            lemma_found_in_parts(before, after, next, found.insert(name));
        }
    } else {
        lemma_found_alike_behind(before, after, 0, found);
    }
}

/// A description is handled line by line: what its parts become stands one behind
/// the other, and the first failure is that of the whole. The names of its parts
/// are found one after the other.
pub proof fn descriptions_are_handled_in_parts(
    before: Seq<char>,
    after: Seq<char>,
    resolved: Seq<(String, IpAddr)>,
    found: Set<Seq<char>>,
)
    requires
        before.len() == 0 || before.last() == '\n',
    ensures
        rewritten_from(before + after, 0, resolved) == one_behind_the_other(
            rewritten_from(before, 0, resolved),
            rewritten_from(after, 0, resolved),
        ),
        stripped_from(before + after, 0) == one_behind_the_other(
            stripped_from(before, 0),
            stripped_from(after, 0),
        ),
        hostnames_from(before + after, 0, found) == match hostnames_from(before, 0, found) {
            Ok(names) => hostnames_from(after, 0, names),
            Err(failure) => Err(failure),
        },
        hostnames(before + after) == match hostnames(before) {
            Ok(names) => hostnames_from(after, 0, names),
            Err(failure) => Err(failure),
        },
        rewritten_from(Seq::empty(), 0, resolved) == Ok::<Seq<char>, Failure>(Seq::empty()),
        stripped_from(Seq::empty(), 0) == Ok::<Seq<char>, Failure>(Seq::empty()),
        hostnames(Seq::empty()) == Ok::<Set<Seq<char>>, Failure>(Set::empty()),
{
    lemma_handled_in_parts(before, after, 0, resolved);
    lemma_found_in_parts(before, after, 0, found);
    lemma_found_in_parts(before, after, 0, Set::empty());
}

proof fn lemma_one_line(
    line: Seq<char>,
    end: Seq<char>,
    resolved: Seq<(String, IpAddr)>,
    found: Set<Seq<char>>,
)
    requires
        line.len() > 0,
        line_at(line + end, 0) == line,
        line_end(line + end, 0) == line.len(),
        segment_end(line + end, 0) == line.len() + end.len(),
        line_at(line, 0) == line,
        line_end(line, 0) == line.len(),
        segment_end(line, 0) == line.len(),
    ensures
        hostnames_from(line + end, 0, found) == match mdns_host(line) {
            None => Ok(found),
            Some(Err(failure)) => Err(failure),
            Some(Ok(name)) => if found.insert(name).len() > MAX_MDNS_HOSTNAMES {
                Err(too_many_hostnames())
            } else {
                Ok(found.insert(name))
            },
        },
        stripped_from(line + end, 0) == match mdns_host(line) {
            None => Ok(line + end),
            Some(Err(failure)) => Err(failure),
            Some(Ok(_)) => Ok(Seq::empty()),
        },
        rewritten_from(line + end, 0, resolved) == match mdns_host(line) {
            None => Ok(line + end),
            Some(Err(failure)) => Err(failure),
            Some(Ok(name)) => match resolved_ip(resolved, name) {
                None => Err(not_resolved(name)),
                Some(ip) => Ok(with_address(line, 0, ip_text(ip)) + end),
            },
        },
{
    let s = line + end;
    let n = s.len() as int;
    let none = Seq::<char>::empty();
    assert(stripped_from(s, n) == Ok::<Seq<char>, Failure>(none));
    assert(rewritten_from(s, n, resolved) == Ok::<Seq<char>, Failure>(none));
    assert(hostnames_from(s, n, found) == Ok::<Set<Seq<char>>, Failure>(found));
    assert(segment_at(s, 0) =~= s);
    assert(s + none =~= s);
    if let Some(Ok(name)) = mdns_host(line) {
        let more = found.insert(name);
        assert(hostnames_from(s, n, more) == Ok::<Set<Seq<char>>, Failure>(more));
        if let Some(ip) = resolved_ip(resolved, name) {
            let text = ip_text(ip);
            assert(s.subrange(line.len() as int, n) =~= end);
            assert(line.subrange(line.len() as int, line.len() as int) =~= none);
            let body = with_address(line, 0, text);
            let r = address_range(line)->0;
            assert(body =~= line.subrange(0, r.0) + text + line.subrange(r.1, line.len() as int));
            assert(with_address(s, 0, text) =~= body + end);
            assert(with_address(s, 0, text) + none =~= body + end);
        }
    }
}

/// A line is handled in the same way whether a line feed, a carriage return with
/// one, or the end of the text ends it. The ending stays with a line that stays and
/// with one that is rewritten, and goes with one that is taken out.
pub proof fn endings_stay_with_their_line(
    line: Seq<char>,
    resolved: Seq<(String, IpAddr)>,
    found: Set<Seq<char>>,
    name: Seq<char>,
)
    requires
        line.len() > 0,
        line.last() != '\r',
        forall|k: int| 0 <= k < line.len() ==> line[k] != '\n',
    ensures
        ({
            let feed = seq!['\n'];
            let both = seq!['\r', '\n'];
            &&& hostnames_from(line, 0, found) == hostnames_from(line + feed, 0, found)
            &&& hostnames_from(line, 0, found) == hostnames_from(line + both, 0, found)
            &&& rewritten_from(line + feed, 0, resolved) == one_behind_the_other(
                rewritten_from(line, 0, resolved),
                Ok(feed),
            )
            &&& rewritten_from(line + both, 0, resolved) == one_behind_the_other(
                rewritten_from(line, 0, resolved),
                Ok(both),
            )
            &&& mdns_host(line) is None ==> rewritten_from(line, 0, resolved) == Ok::<
                Seq<char>,
                Failure,
            >(line) && stripped_from(line, 0) == Ok::<Seq<char>, Failure>(line) && stripped_from(
                line + feed,
                0,
            ) == Ok::<Seq<char>, Failure>(line + feed) && stripped_from(line + both, 0) == Ok::<
                Seq<char>,
                Failure,
            >(line + both)
            &&& mdns_host(line) == Some(Ok::<Seq<char>, Failure>(name)) ==> stripped_from(line, 0)
                == Ok::<Seq<char>, Failure>(Seq::empty()) && stripped_from(line + feed, 0) == Ok::<
                Seq<char>,
                Failure,
            >(Seq::empty()) && stripped_from(line + both, 0) == Ok::<Seq<char>, Failure>(
                Seq::empty(),
            )
        }),
{
    let none = Seq::<char>::empty();
    let feed = seq!['\n'];
    let both = seq!['\r', '\n'];
    lines_end_at_line_feeds(none, line, none);
    assert(none + line =~= line);
    assert(none + line + feed + none =~= line + feed);
    assert(none + line + both + none =~= line + both);
    assert(line + none =~= line);
    lemma_one_line(line, none, resolved, found);
    lemma_one_line(line, feed, resolved, found);
    lemma_one_line(line, both, resolved, found);
    if let Some(Ok(n)) = mdns_host(line) {
        if let Some(ip) = resolved_ip(resolved, n) {
            let body = with_address(line, 0, ip_text(ip));
            assert(body + none =~= body);
        }
    }
}

/// The failures of names: one that is no name, one that was not resolved, and more
/// than 32 of them.
pub proof fn name_failures_are_told_apart(name: Seq<char>)
    ensures
        invalid_hostname(name) == Failure::InvalidAddress(
            "invalid WebRTC mDNS candidate hostname "@ + name,
        ),
        not_resolved(name) == Failure::StartFailed(
            "WebRTC mDNS candidate "@ + name + " was not resolved"@,
        ),
        too_many_hostnames() == Failure::InvalidAddress(
            "WebRTC SDP contains more than 32 mDNS candidates"@,
        ),
{
}

/// Ascending names stand in the order of texts, so that none occurs twice; the
/// texts of a list are those of its strings in their order.
pub proof fn ascending_names_are_in_order(names: Seq<Seq<char>>, strings: Seq<String>, i: int, j: int)
    ensures
        ascending(names) && 0 <= i < j < names.len() ==> text_less(names[i], names[j]) && names[i]
            != names[j],
        texts(strings).len() == strings.len(),
        0 <= i < strings.len() ==> texts(strings)[i] == strings[i]@,
{
    if ascending(names) && 0 <= i < j < names.len() {
        assert(text_less(names[i], names[j]));
        text_less_irreflexive(names[i]);
    }
}

/// No label begins or ends with a hyphen, is empty, is longer than sixty-three
/// characters, or holds anything but letters, digits and hyphens.
pub proof fn labels_are_letters_digits_and_inner_hyphens(s: Seq<char>, k: int)
    ensures
        s.len() == 0 || s.len() > 63 ==> !valid_label(s),
        s.len() > 0 && s[0] == '-' ==> !valid_label(s),
        s.len() > 0 && s[s.len() - 1] == '-' ==> !valid_label(s),
        valid_label(s) && 0 <= k < s.len() ==> s[k] == '-' || ('0' <= s[k] && s[k] <= '9') || ('a'
            <= s[k] && s[k] <= 'z') || ('A' <= s[k] && s[k] <= 'Z'),
{
}

/// The preferred address is one of those given, and the first of its equals: every
/// one before it is of the other family or has a later text.
pub proof fn first_of_equals_is_preferred(addresses: Seq<IpAddr>, i: int, j: int)
    requires
        most_preferred(addresses, i),
    ensures
        0 <= i < addresses.len(),
        0 <= j < i ==> (addresses[i] is V4 && !(addresses[j] is V4)) || text_less(
            ip_text(addresses[i]),
            ip_text(addresses[j]),
        ),
{
    if 0 <= j < i {
        assert(preferred_before(addresses[i], addresses[j]));
    }
}

} // verus!
