//! Receive-buffer errors of a network namespace, as `/proc/net/snmp` shows them.

use vstd::prelude::*;
use crate::decimal::{parsed_unsigned, read_unsigned};
use crate::fields::{
    all_spaces, field_end, fields_follow_each_other, find_line_end, is_word, line_at,
    lines_do_not_depend_on_what_is_before, lines_end_at_line_feeds, next_field, next_field_bounds,
    segment_end, segment_end_bounds, skip_spaces,
};
use crate::text::{Spaces, chars_of, has_at, same_chars, slice_of, starts_with};

verus! {

/// How long a reading is kept, in nanoseconds.
pub const LINUX_UDP_RCVBUF_ERRORS_POLL_INTERVAL: u64 = 10_000_000_000;

/// The field that stands in `values`, from `j` on, where `name` stands among the
/// fields of `header`, from `i` on.
pub open spec fn value_under(
    header: Seq<char>,
    i: int,
    values: Seq<char>,
    j: int,
    name: Seq<char>,
) -> Option<Seq<char>>
    decreases header.len() - i,
{
    let start = skip_spaces(header, i, Spaces::Unicode);
    let end = field_end(header, start, Spaces::Unicode);
    let from = skip_spaces(values, j, Spaces::Unicode);
    let to = field_end(values, from, Spaces::Unicode);
    if i < 0 || i > header.len() || start >= header.len() {
        None
    } else {
        proof {
            next_field_bounds(header, i, Spaces::Unicode);
        }
        if header.subrange(start, end) == name {
            if from < values.len() {
                Some(values.subrange(from, to))
            } else {
                None
            }
        } else {
            value_under(header, end, values, to, name)
        }
    }
}

fn find_value_under(header: &Vec<char>, values: &Vec<char>, name: &Vec<char>) -> (value: Option<
    (usize, usize),
>)
    ensures
        match value {
            Some(r) => {
                &&& r.0 <= r.1 <= values@.len()
                &&& value_under(header@, 0, values@, 0, name@) == Some(
                    values@.subrange(r.0 as int, r.1 as int),
                )
            },
            None => value_under(header@, 0, values@, 0, name@) is None,
        },
{
    let mut i: usize = 0;
    let mut j: usize = 0;
    let total: usize = header.len();
    while i < total
        invariant
            total == header@.len(),
            i <= total,
            j <= values@.len(),
            value_under(header@, 0, values@, 0, name@) == value_under(
                header@,
                i as int,
                values@,
                j as int,
                name@,
            ),
        decreases total - i,
    {
        let (start, end) = next_field(header, i, Spaces::Unicode);
        let (from, to) = next_field(values, j, Spaces::Unicode);
        if start == total {
            return None;
        }
        let field = slice_of(header, start, end);
        if same_chars(&field, name) {
            return if from < values.len() {
                Some((from, to))
            } else {
                None
            };
        }
        i = end;
        j = to;
    }
    proof {
        next_field_bounds(header@, i as int, Spaces::Unicode);
    }
    None
}

/// The receive-buffer errors that a table shows, from the line at `i` on: the
/// first pair of lines that begin with `Udp:` gives the names and the values.
pub open spec fn rcvbuf_errors_from(s: Seq<char>, i: int) -> Option<nat>
    decreases s.len() - i,
{
    if i < 0 || i >= s.len() {
        None
    } else {
        let next = segment_end(s, i);
        let after = segment_end(s, next);
        proof {
            segment_end_bounds(s, i);
            segment_end_bounds(s, next);
        }
        if !starts_with(line_at(s, i), "Udp:"@) {
            rcvbuf_errors_from(s, next)
        } else if next >= s.len() {
            None
        } else if !starts_with(line_at(s, next), "Udp:"@) {
            rcvbuf_errors_from(s, after)
        } else {
            match value_under(line_at(s, i), 0, line_at(s, next), 0, "RcvbufErrors"@) {
                Some(value) => parsed_unsigned(value, u64::MAX as nat),
                None => None,
            }
        }
    }
}

/// The receive-buffer errors that a table in the format of `/proc/net/snmp`
/// shows.
pub fn parse_proc_net_snmp_udp_rcvbuf_errors(contents: &str) -> (errors: Option<u64>)
    ensures
        match errors {
            Some(n) => rcvbuf_errors_from(contents@, 0) == Some(n as nat),
            None => rcvbuf_errors_from(contents@, 0) is None,
        },
{
    let v = chars_of(contents);
    let prefix = chars_of("Udp:");
    let name = chars_of("RcvbufErrors");
    let total: usize = v.len();
    let mut i: usize = 0;
    while i < total
        invariant
            v@ == contents@,
            total == v@.len(),
            prefix@ == "Udp:"@,
            name@ == "RcvbufErrors"@,
            i <= total,
            rcvbuf_errors_from(contents@, 0) == rcvbuf_errors_from(v@, i as int),
        decreases total - i,
    {
        let (header_end, next) = find_line_end(&v, i);
        let header = slice_of(&v, i, header_end);
        if !has_at(&header, &prefix, 0) {
            i = next;
        } else {
            if next == total {
                return None;
            }
            let (values_end, after) = find_line_end(&v, next);
            let values = slice_of(&v, next, values_end);
            if !has_at(&values, &prefix, 0) {
                i = after;
            } else {
                return match find_value_under(&header, &values, &name) {
                    Some((from, to)) => read_unsigned(&values, from, to, u64::MAX),
                    None => None,
                };
            }
        }
    }
    None
}

/// The receive-buffer errors of a namespace since a baseline. A reading is kept
/// for a while: the table is long and changes little. Times are readings of the
/// monotonic clock in nanoseconds.
#[derive(Debug)]
pub struct LinuxUdpRcvbufErrorSnapshot {
    pub baseline: u64,
    pub observed: u64,
    pub checked_at: u64,
}

impl LinuxUdpRcvbufErrorSnapshot {
    pub fn new(initial: u64, checked_at: u64) -> (snapshot: LinuxUdpRcvbufErrorSnapshot)
        ensures
            snapshot == (LinuxUdpRcvbufErrorSnapshot {
                baseline: initial,
                observed: initial,
                checked_at,
            }),
    {
        LinuxUdpRcvbufErrorSnapshot { baseline: initial, observed: initial, checked_at }
    }

    /// Whether the last reading is too old.
    pub open spec fn due(self, now: u64) -> bool {
        now - self.checked_at >= LINUX_UDP_RCVBUF_ERRORS_POLL_INTERVAL
    }

    /// The errors since the baseline.
    pub open spec fn drops(self) -> int {
        if self.observed > self.baseline {
            self.observed - self.baseline
        } else {
            0
        }
    }

    /// The snapshot after a reading; one that failed changes nothing but the time.
    pub open spec fn after_reading(
        self,
        now: u64,
        reading: Option<u64>,
    ) -> LinuxUdpRcvbufErrorSnapshot {
        LinuxUdpRcvbufErrorSnapshot {
            baseline: self.baseline,
            observed: (match reading {
                Some(observed) => observed,
                None => self.observed,
            }),
            checked_at: now,
        }
    }

    /// The errors since the baseline. Reads the table if the last reading is too
    /// old, and only then.
    pub fn namespace_drops<F: FnOnce() -> Option<u64>>(&mut self, now: u64, read: F) -> (drops: u64)
        requires
            read.requires(()),
        ensures
            drops == final(self).drops(),
            if old(self).due(now) {
                exists|reading: Option<u64>| #[trigger]
                    read.ensures((), reading) && *final(self) == old(self).after_reading(
                        now,
                        reading,
                    )
            } else {
                *final(self) == *old(self)
            },
    {
        if now.saturating_sub(self.checked_at) >= LINUX_UDP_RCVBUF_ERRORS_POLL_INTERVAL {
            self.checked_at = now;
            let reading = read();
            if let Some(observed) = reading {
                self.observed = observed;
            }
            assert(read.ensures((), reading));
        }
        self.observed.saturating_sub(self.baseline)
    }
}

// ---------------------------------------------------------------------------
// Laws
// ---------------------------------------------------------------------------

/// Between two readings there is an interval at least, and a failed reading
/// keeps the errors that were last seen.
pub proof fn readings_are_bounded(
    snapshot: LinuxUdpRcvbufErrorSnapshot,
    now: u64,
    reading: Option<u64>,
    later: u64,
)
    ensures
        later - now < LINUX_UDP_RCVBUF_ERRORS_POLL_INTERVAL ==> !snapshot.after_reading(
            now,
            reading,
        ).due(later),
        snapshot.after_reading(now, None).drops() == snapshot.drops(),
{
}

/// Names and values line up: the value under a name is the field of the value line
/// that stands where the name stands among the names.
pub proof fn columns_line_up(
    head: Seq<char>,
    gap: Seq<char>,
    word: Seq<char>,
    rest: Seq<char>,
    value_head: Seq<char>,
    value_gap: Seq<char>,
    value: Seq<char>,
    value_rest: Seq<char>,
    name: Seq<char>,
)
    requires
        all_spaces(gap, Spaces::Unicode),
        is_word(word, Spaces::Unicode),
        rest.len() == 0 || Spaces::Unicode.covers(rest[0]),
        all_spaces(value_gap, Spaces::Unicode),
        is_word(value, Spaces::Unicode),
        value_rest.len() == 0 || Spaces::Unicode.covers(value_rest[0]),
    ensures
        ({
            let names = head + gap + word + rest;
            let values = value_head + value_gap + value + value_rest;
            let (i, j) = (head.len() as int, value_head.len() as int);
            value_under(names, i, values, j, name) == if word == name {
                Some(value)
            } else {
                value_under(
                    names,
                    i + gap.len() + word.len(),
                    values,
                    j + value_gap.len() + value.len(),
                    name,
                )
            }
        }),
{
    fields_follow_each_other(head, gap, word, rest, Spaces::Unicode, 0);
    fields_follow_each_other(value_head, value_gap, value, value_rest, Spaces::Unicode, 0);
}

proof fn lemma_table_behind(head: Seq<char>, tail: Seq<char>, i: int)
    requires
        0 <= i <= tail.len(),
    ensures
        rcvbuf_errors_from(head + tail, head.len() + i) == rcvbuf_errors_from(tail, i),
    decreases tail.len() - i,
{
    if i < tail.len() {
        lines_do_not_depend_on_what_is_before(head, tail, i);
        segment_end_bounds(tail, i);
        let next = segment_end(tail, i);
        lemma_table_behind(head, tail, next);
        if next < tail.len() {
            lines_do_not_depend_on_what_is_before(head, tail, next);
            segment_end_bounds(tail, next);
            lemma_table_behind(head, tail, segment_end(tail, next));
        }
    }
}

proof fn lemma_first_line(line: Seq<char>, rest: Seq<char>)
    requires
        forall|k: int| 0 <= k < line.len() ==> line[k] != '\n',
        line.len() == 0 || line.last() != '\r',
    ensures
        line_at(line + seq!['\n'] + rest, 0) == line,
        segment_end(line + seq!['\n'] + rest, 0) == line.len() + 1,
{
    lines_end_at_line_feeds(Seq::empty(), line, rest);
    assert(Seq::<char>::empty() + line + seq!['\n'] + rest =~= line + seq!['\n'] + rest);
}

/// Lines of other protocols are passed over.
pub proof fn other_protocols_are_passed_over(line: Seq<char>, rest: Seq<char>)
    requires
        forall|k: int| 0 <= k < line.len() ==> line[k] != '\n',
        line.len() == 0 || line.last() != '\r',
        !starts_with(line, "Udp:"@),
    ensures
        rcvbuf_errors_from(line + seq!['\n'] + rest, 0) == rcvbuf_errors_from(rest, 0),
        rcvbuf_errors_from(Seq::empty(), 0) is None,
{
    let ended = line + seq!['\n'];
    lemma_first_line(line, rest);
    lemma_table_behind(ended, rest, 0);
}

/// The errors are the number under `RcvbufErrors` in the first two lines that begin
/// with `Udp:` one after the other: the names, and then the values.
pub proof fn errors_stand_under_their_name(
    names: Seq<char>,
    values: Seq<char>,
    rest: Seq<char>,
)
    requires
        forall|k: int| 0 <= k < names.len() ==> names[k] != '\n',
        forall|k: int| 0 <= k < values.len() ==> values[k] != '\n',
        names.last() != '\r',
        values.last() != '\r',
        starts_with(names, "Udp:"@),
        starts_with(values, "Udp:"@),
    ensures
        rcvbuf_errors_from(names + seq!['\n'] + (values + seq!['\n'] + rest), 0) == (
        match value_under(names, 0, values, 0, "RcvbufErrors"@) {
            Some(value) => parsed_unsigned(value, u64::MAX as nat),
            None => None,
        }),
{
    reveal_strlit("Udp:");
    let ended = names + seq!['\n'];
    let tail = values + seq!['\n'] + rest;
    assert(names.len() >= 4 && values.len() >= 4);
    lemma_first_line(names, tail);
    lemma_first_line(values, rest);
    lines_do_not_depend_on_what_is_before(ended, tail, 0);
    assert(segment_end(ended + tail, 0) == ended.len());
}

/// The errors since the baseline, and how long a reading is kept.
pub proof fn errors_are_counted_from_the_baseline(
    snapshot: LinuxUdpRcvbufErrorSnapshot,
    now: u64,
    errors: u64,
)
    ensures
        snapshot.drops() == if snapshot.observed >= snapshot.baseline {
            snapshot.observed - snapshot.baseline
        } else {
            0
        },
        snapshot.due(now) <==> now >= snapshot.checked_at + 10_000_000_000,
        snapshot.after_reading(now, Some(errors)).observed == errors,
        snapshot.after_reading(now, None).observed == snapshot.observed,
        snapshot.after_reading(now, Some(errors)).baseline == snapshot.baseline,
        snapshot.after_reading(now, None).baseline == snapshot.baseline,
        snapshot.after_reading(now, Some(errors)).checked_at == now,
        snapshot.after_reading(now, None).checked_at == now,
{
}

} // verus!
