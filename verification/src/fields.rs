//! Lines and whitespace-separated fields of a text.

use vstd::prelude::*;
use crate::text::Spaces;

verus! {

/// The first position at or after `i` that is not a separator.
pub open spec fn skip_spaces(s: Seq<char>, i: int, sep: Spaces) -> int
    decreases s.len() - i,
{
    if 0 <= i < s.len() && sep.covers(s[i]) {
        skip_spaces(s, i + 1, sep)
    } else {
        i
    }
}

/// The first position at or after `i` that is a separator, or the end.
pub open spec fn field_end(s: Seq<char>, i: int, sep: Spaces) -> int
    decreases s.len() - i,
{
    if 0 <= i < s.len() && !sep.covers(s[i]) {
        field_end(s, i + 1, sep)
    } else {
        i
    }
}

proof fn lemma_skip_spaces(s: Seq<char>, i: int, sep: Spaces)
    requires
        0 <= i <= s.len(),
    ensures
        i <= skip_spaces(s, i, sep) <= s.len(),
        forall|k: int| i <= k < skip_spaces(s, i, sep) ==> sep.covers(#[trigger] s[k]),
        skip_spaces(s, i, sep) < s.len() ==> !sep.covers(s[skip_spaces(s, i, sep)]),
    decreases s.len() - i,
{
    if i < s.len() && sep.covers(s[i]) {
        lemma_skip_spaces(s, i + 1, sep);
    }
}

proof fn lemma_field_end(s: Seq<char>, i: int, sep: Spaces)
    requires
        0 <= i <= s.len(),
    ensures
        i <= field_end(s, i, sep) <= s.len(),
        i < s.len() && !sep.covers(s[i]) ==> i < field_end(s, i, sep),
        forall|k: int| i <= k < field_end(s, i, sep) ==> !sep.covers(#[trigger] s[k]),
    decreases s.len() - i,
{
    if i < s.len() && !sep.covers(s[i]) {
        lemma_field_end(s, i + 1, sep);
    }
}

/// The position range of field number `n` (from zero) of the part of `s` that
/// starts at `i`: a longest run of characters that are not separators.
pub open spec fn nth_field(s: Seq<char>, i: int, sep: Spaces, n: nat) -> Option<(int, int)>
    decreases n,
{
    let start = skip_spaces(s, i, sep);
    if !(0 <= start < s.len()) {
        None
    } else {
        let end = field_end(s, start, sep);
        if n == 0 {
            Some((start, end))
        } else {
            nth_field(s, end, sep, (n - 1) as nat)
        }
    }
}

/// A field's range lies inside the text and is not empty.
pub proof fn nth_field_bounds(s: Seq<char>, i: int, sep: Spaces, n: nat)
    requires
        0 <= i <= s.len(),
    ensures
        nth_field(s, i, sep, n) matches Some(r) ==> i <= r.0 < r.1 <= s.len(),
    decreases n,
{
    lemma_skip_spaces(s, i, sep);
    let start = skip_spaces(s, i, sep);
    if start < s.len() {
        lemma_field_end(s, start, sep);
        if n > 0 {
            nth_field_bounds(s, field_end(s, start, sep), sep, (n - 1) as nat);
        }
    }
}

/// Finds the next field at or after `from`. It is empty and lies at the end of
/// the text where there is none.
pub fn next_field(v: &Vec<char>, from: usize, sep: Spaces) -> (range: (usize, usize))
    requires
        from <= v@.len(),
    ensures
        range.0 == skip_spaces(v@, from as int, sep),
        range.1 == field_end(v@, range.0 as int, sep),
        from <= range.0 <= range.1 <= v@.len(),
        range.0 < v@.len() ==> range.0 < range.1,
{
    let mut start: usize = from;
    while start < v.len() && sep.contains(v[start])
        invariant
            from <= start <= v@.len(),
            skip_spaces(v@, from as int, sep) == skip_spaces(v@, start as int, sep),
        decreases v@.len() - start,
    {
        start = start + 1;
    }
    let mut end: usize = start;
    while end < v.len() && !sep.contains(v[end])
        invariant
            start <= end <= v@.len(),
            field_end(v@, start as int, sep) == field_end(v@, end as int, sep),
        decreases v@.len() - end,
    {
        end = end + 1;
    }
    proof {
        lemma_skip_spaces(v@, from as int, sep);
        lemma_field_end(v@, start as int, sep);
    }
    (start, end)
}

/// Finds field number `n` of the characters from `from` on.
pub fn find_field(v: &Vec<char>, from: usize, sep: Spaces, n: usize) -> (range: Option<
    (usize, usize),
>)
    requires
        from <= v@.len(),
    ensures
        match range {
            Some(r) => {
                &&& nth_field(v@, from as int, sep, n as nat) == Some((r.0 as int, r.1 as int))
                &&& from <= r.0 < r.1 <= v@.len()
            },
            None => nth_field(v@, from as int, sep, n as nat) is None,
        },
{
    let mut at: usize = from;
    let mut left: usize = n;
    loop
        invariant
            from <= at <= v@.len(),
            left <= n,
            nth_field(v@, from as int, sep, n as nat) == nth_field(
                v@,
                at as int,
                sep,
                left as nat,
            ),
        decreases left,
    {
        let (start, end) = next_field(v, at, sep);
        if start == v.len() {
            return None;
        }
        if left == 0 {
            return Some((start, end));
        }
        left = left - 1;
        at = end;
    }
}

/// Where fields end, for proofs about texts.
pub proof fn next_field_bounds(s: Seq<char>, i: int, sep: Spaces)
    requires
        0 <= i <= s.len(),
    ensures
        i <= skip_spaces(s, i, sep) <= field_end(s, skip_spaces(s, i, sep), sep) <= s.len(),
        skip_spaces(s, i, sep) < s.len() ==> skip_spaces(s, i, sep) < field_end(
            s,
            skip_spaces(s, i, sep),
            sep,
        ),
{
    lemma_skip_spaces(s, i, sep);
    lemma_field_end(s, skip_spaces(s, i, sep), sep);
}

// ---------------------------------------------------------------------------
// Lines
// ---------------------------------------------------------------------------

/// The position after the line feed that ends the line starting at `i`, or the
/// end of the text.
pub open spec fn segment_end(s: Seq<char>, i: int) -> int
    decreases s.len() - i,
{
    if 0 <= i < s.len() {
        if s[i] == '\n' {
            i + 1
        } else {
            segment_end(s, i + 1)
        }
    } else {
        i
    }
}

/// A line that starts before the end is not empty and ends inside the text.
pub proof fn segment_end_bounds(s: Seq<char>, i: int)
    requires
        0 <= i <= s.len(),
    ensures
        i <= segment_end(s, i) <= s.len(),
        i < s.len() ==> i < segment_end(s, i),
    decreases s.len() - i,
{
    if i < s.len() && s[i] != '\n' {
        segment_end_bounds(s, i + 1);
    }
}

/// The end of the line starting at `i` once its line ending is taken off: a
/// line feed, or a carriage return and a line feed.
pub open spec fn line_end(s: Seq<char>, i: int) -> int {
    let end = segment_end(s, i);
    if end > i && s[end - 1] == '\n' {
        if end - 1 > i && s[end - 2] == '\r' {
            end - 2
        } else {
            end - 1
        }
    } else {
        end
    }
}

/// The line starting at `i`, with its line ending.
pub open spec fn segment_at(s: Seq<char>, i: int) -> Seq<char> {
    s.subrange(i, segment_end(s, i))
}

/// The line starting at `i`, without its line ending.
pub open spec fn line_at(s: Seq<char>, i: int) -> Seq<char> {
    s.subrange(i, line_end(s, i))
}

/// Finds where the line starting at `i` ends: without and with its line ending.
pub fn find_line_end(v: &Vec<char>, i: usize) -> (ends: (usize, usize))
    requires
        i < v@.len(),
    ensures
        ends.0 == line_end(v@, i as int),
        ends.1 == segment_end(v@, i as int),
        i <= ends.0 <= ends.1 <= v@.len(),
        i < ends.1,
{
    let mut j: usize = i;
    while j < v.len() && v[j] != '\n'
        invariant
            i <= j <= v@.len(),
            segment_end(v@, i as int) == segment_end(v@, j as int),
            forall|k: int| i <= k < j ==> v@[k] != '\n',
        decreases v@.len() - j,
    {
        j = j + 1;
    }
    if j == v.len() {
        return (j, j);
    }
    if j > i && v[j - 1] == '\r' {
        (j - 1, j + 1)
    } else {
        (j, j + 1)
    }
}

/// The end of a text without the spaces at its end, but not before `from`.
pub open spec fn trimmed_end(s: Seq<char>, from: int, to: int) -> int
    decreases to - from,
{
    if from < to && Spaces::Unicode.covers(s[to - 1]) {
        trimmed_end(s, from, to - 1)
    } else {
        to
    }
}

/// A text without the spaces around it.
pub open spec fn trimmed(s: Seq<char>) -> Seq<char> {
    let start = skip_spaces(s, 0, Spaces::Unicode);
    s.subrange(start, trimmed_end(s, start, s.len() as int))
}

/// Where a text begins and ends without the spaces around it.
pub fn trim(v: &Vec<char>) -> (range: (usize, usize))
    ensures
        range.0 <= range.1 <= v@.len(),
        v@.subrange(range.0 as int, range.1 as int) == trimmed(v@),
{
    let total: usize = v.len();
    let mut start: usize = 0;
    while start < total && Spaces::Unicode.contains(v[start])
        invariant
            total == v@.len(),
            start <= total,
            skip_spaces(v@, 0, Spaces::Unicode) == skip_spaces(v@, start as int, Spaces::Unicode),
        decreases total - start,
    {
        start = start + 1;
    }
    let mut end: usize = total;
    while start < end && Spaces::Unicode.contains(v[end - 1])
        invariant
            total == v@.len(),
            start <= end <= total,
            trimmed_end(v@, start as int, total as int) == trimmed_end(
                v@,
                start as int,
                end as int,
            ),
        decreases end - start,
    {
        end = end - 1;
    }
    (start, end)
}

// ---------------------------------------------------------------------------
// Laws
// ---------------------------------------------------------------------------

/// Whether a text is made of separators only.
pub open spec fn all_spaces(s: Seq<char>, sep: Spaces) -> bool {
    forall|k: int| 0 <= k < s.len() ==> sep.covers(#[trigger] s[k])
}

/// Whether a text is one field: not empty, and without separators.
pub open spec fn is_word(s: Seq<char>, sep: Spaces) -> bool {
    s.len() > 0 && forall|k: int| 0 <= k < s.len() ==> !sep.covers(#[trigger] s[k])
}

proof fn lemma_skip_to(s: Seq<char>, i: int, to: int, sep: Spaces)
    requires
        0 <= i <= to <= s.len(),
        forall|k: int| i <= k < to ==> sep.covers(#[trigger] s[k]),
        to < s.len() ==> !sep.covers(s[to]),
    ensures
        skip_spaces(s, i, sep) == to,
    decreases to - i,
{
    if i < to {
        assert(sep.covers(s[i]));
        lemma_skip_to(s, i + 1, to, sep);
    }
}

proof fn lemma_end_at(s: Seq<char>, i: int, to: int, sep: Spaces)
    requires
        0 <= i <= to <= s.len(),
        forall|k: int| i <= k < to ==> !sep.covers(#[trigger] s[k]),
        to < s.len() ==> sep.covers(s[to]),
    ensures
        field_end(s, i, sep) == to,
    decreases to - i,
{
    if i < to {
        assert(!sep.covers(s[i]));
        lemma_end_at(s, i + 1, to, sep);
    }
}

/// Fields are what stands between separators, counted from the left: behind any
/// separators comes field zero, and the fields behind it follow.
pub proof fn fields_follow_each_other(
    head: Seq<char>,
    gap: Seq<char>,
    word: Seq<char>,
    rest: Seq<char>,
    sep: Spaces,
    n: nat,
)
    requires
        all_spaces(gap, sep),
        is_word(word, sep),
        rest.len() == 0 || sep.covers(rest[0]),
    ensures
        ({
            let s = head + gap + word + rest;
            let start = (head.len() + gap.len()) as int;
            let end = start + word.len();
            &&& skip_spaces(s, head.len() as int, sep) == start
            &&& field_end(s, start, sep) == end
            &&& nth_field(s, head.len() as int, sep, 0) == Some((start, end))
            &&& nth_field(s, head.len() as int, sep, n + 1) == nth_field(s, end, sep, n)
            &&& s.subrange(start, end) == word
        }),
{
    let s = head + gap + word + rest;
    let start = (head.len() + gap.len()) as int;
    let end = start + word.len();
    assert forall|k: int| head.len() <= k < start implies sep.covers(#[trigger] s[k]) by {
        assert(s[k] == gap[k - head.len()]);
    }
    assert(s[start] == word[0]);
    lemma_skip_to(s, head.len() as int, start, sep);
    assert forall|k: int| start <= k < end implies !sep.covers(#[trigger] s[k]) by {
        assert(s[k] == word[k - start]);
    }
    if end < s.len() {
        assert(s[end] == rest[0]);
    }
    lemma_end_at(s, start, end, sep);
    assert(s.subrange(start, end) =~= word);
}

/// Where only separators are left, there is no field.
pub proof fn separators_hold_no_field(head: Seq<char>, gap: Seq<char>, sep: Spaces, n: nat)
    requires
        all_spaces(gap, sep),
    ensures
        nth_field(head + gap, head.len() as int, sep, n) is None,
{
    let s = head + gap;
    assert forall|k: int| head.len() <= k < s.len() implies sep.covers(#[trigger] s[k]) by {
        assert(s[k] == gap[k - head.len()]);
    }
    lemma_skip_to(s, head.len() as int, s.len() as int, sep);
}

proof fn lemma_segment_to(s: Seq<char>, i: int, m: int)
    requires
        0 <= i <= m <= s.len(),
        forall|k: int| i <= k < m ==> s[k] != '\n',
        m < s.len() ==> s[m] == '\n',
    ensures
        segment_end(s, i) == if m < s.len() {
            m + 1
        } else {
            m
        },
    decreases m - i,
{
    if i < m {
        lemma_segment_to(s, i + 1, m);
    }
}

/// A line ends at its line feed. A carriage return before the line feed belongs to
/// the ending and not to the line.
pub proof fn lines_end_at_line_feeds(head: Seq<char>, line: Seq<char>, rest: Seq<char>)
    requires
        forall|k: int| 0 <= k < line.len() ==> line[k] != '\n',
    ensures
        ({
            let s = head + line + seq!['\r', '\n'] + rest;
            let i = head.len() as int;
            &&& line_at(s, i) == line
            &&& line_end(s, i) == i + line.len()
            &&& segment_end(s, i) == i + line.len() + 2
            &&& segment_at(s, i) == line + seq!['\r', '\n']
        }),
        line.len() == 0 || line.last() != '\r' ==> ({
            let s = head + line + seq!['\n'] + rest;
            let i = head.len() as int;
            &&& line_at(s, i) == line
            &&& line_end(s, i) == i + line.len()
            &&& segment_end(s, i) == i + line.len() + 1
            &&& segment_at(s, i) == line + seq!['\n']
        }),
        line.len() > 0 ==> ({
            let s = head + line;
            let i = head.len() as int;
            &&& line_at(s, i) == line
            &&& line_end(s, i) == s.len()
            &&& segment_end(s, i) == s.len()
            &&& segment_at(s, i) == line
        }),
{
    let i = head.len() as int;
    let crlf = seq!['\r', '\n'];
    let s = head + line + crlf + rest;
    assert forall|k: int| i <= k < i + line.len() + 1 implies s[k] != '\n' by {
        if k < i + line.len() {
            assert(s[k] == line[k - i]);
        } else {
            assert(s[k] == crlf[0]);
        }
    }
    assert(s[i + line.len() + 1] == crlf[1]);
    assert(s[i + line.len()] == crlf[0]);
    lemma_segment_to(s, i, i + line.len() + 1);
    assert(line_at(s, i) =~= line);
    assert(segment_at(s, i) =~= line + crlf);
    let t = head + line + seq!['\n'] + rest;
    assert forall|k: int| i <= k < i + line.len() implies t[k] != '\n' by {
        assert(t[k] == line[k - i]);
    }
    assert(t[i + line.len()] == '\n');
    lemma_segment_to(t, i, (i + line.len()) as int);
    if line.len() == 0 || line.last() != '\r' {
        if line.len() > 0 {
            assert(t[i + line.len() - 1] == line.last());
        }
        assert(line_at(t, i) =~= line);
        assert(segment_at(t, i) =~= line + seq!['\n']);
    }
    if line.len() > 0 {
        let u = head + line;
        assert forall|k: int| i <= k < u.len() implies u[k] != '\n' by {
            assert(u[k] == line[k - i]);
        }
        lemma_segment_to(u, i, u.len() as int);
        assert(u[u.len() - 1] == line[line.len() - 1]);
        assert(line_at(u, i) =~= line);
        assert(segment_at(u, i) =~= line);
    }
}

proof fn lemma_trimmed_end(s: Seq<char>, from: int, to: int, end: int)
    requires
        0 <= from <= end <= to <= s.len(),
        forall|k: int| end <= k < to ==> Spaces::Unicode.covers(#[trigger] s[k]),
        from < end ==> !Spaces::Unicode.covers(s[end - 1]),
    ensures
        trimmed_end(s, from, to) == end,
    decreases to - end,
{
    if end < to {
        assert(Spaces::Unicode.covers(s[to - 1]));
        lemma_trimmed_end(s, from, to - 1, end);
    }
}

/// Trimming takes the spaces off both ends of a text, and nothing else.
pub proof fn trimming_takes_the_spaces_off(before: Seq<char>, core: Seq<char>, after: Seq<char>)
    requires
        all_spaces(before, Spaces::Unicode),
        all_spaces(after, Spaces::Unicode),
        core.len() > 0 ==> !Spaces::Unicode.covers(core[0]) && !Spaces::Unicode.covers(
            core.last(),
        ),
    ensures
        trimmed(before + core + after) == core,
{
    let s = before + core + after;
    assert forall|k: int| 0 <= k < before.len() implies Spaces::Unicode.covers(#[trigger] s[k]) by {
        assert(s[k] == before[k]);
    }
    let core_end = (before.len() + core.len()) as int;
    assert forall|k: int| core_end <= k < s.len() implies Spaces::Unicode.covers(
        #[trigger] s[k],
    ) by {
        assert(s[k] == after[k - core_end]);
    }
    if core.len() > 0 {
        let start = before.len() as int;
        assert(s[start] == core[0]);
        lemma_skip_to(s, 0, start, Spaces::Unicode);
        assert(s[core_end - 1] == core.last());
        lemma_trimmed_end(s, start, s.len() as int, core_end);
    } else {
        lemma_skip_to(s, 0, s.len() as int, Spaces::Unicode);
    }
    assert(trimmed(s) =~= core);
}

proof fn lemma_segment_shift(head: Seq<char>, tail: Seq<char>, i: int)
    requires
        0 <= i <= tail.len(),
    ensures
        segment_end(head + tail, head.len() + i) == head.len() + segment_end(tail, i),
    decreases tail.len() - i,
{
    if i < tail.len() {
        assert((head + tail)[head.len() + i] == tail[i]);
        if tail[i] != '\n' {
            lemma_segment_shift(head, tail, i + 1);
        }
    }
}

/// A line is the same wherever its text stands.
pub proof fn lines_do_not_depend_on_what_is_before(head: Seq<char>, tail: Seq<char>, i: int)
    requires
        0 <= i < tail.len(),
    ensures
        segment_end(head + tail, head.len() + i) == head.len() + segment_end(tail, i),
        line_end(head + tail, head.len() + i) == head.len() + line_end(tail, i),
        line_at(head + tail, head.len() + i) == line_at(tail, i),
        segment_at(head + tail, head.len() + i) == segment_at(tail, i),
        i <= line_end(tail, i) <= segment_end(tail, i) <= tail.len(),
{
    lemma_segment_shift(head, tail, i);
    segment_end_bounds(tail, i);
    let end = segment_end(tail, i);
    let whole = head + tail;
    assert(whole[head.len() + end - 1] == tail[end - 1]);
    if end - 1 > i {
        assert(whole[head.len() + end - 2] == tail[end - 2]);
    }
    assert(line_at(whole, head.len() + i) =~= line_at(tail, i));
    assert(segment_at(whole, head.len() + i) =~= segment_at(tail, i));
}

proof fn lemma_segment_within(head: Seq<char>, tail: Seq<char>, i: int)
    requires
        0 <= i < head.len(),
        head.last() == '\n',
    ensures
        segment_end(head + tail, i) == segment_end(head, i),
    decreases head.len() - i,
{
    assert((head + tail)[i] == head[i]);
    if head[i] != '\n' {
        lemma_segment_within(head, tail, i + 1);
    }
}

/// A line is the same whatever follows its line feed.
pub proof fn lines_do_not_depend_on_what_is_behind(head: Seq<char>, tail: Seq<char>, i: int)
    requires
        0 <= i < head.len(),
        head.last() == '\n',
    ensures
        segment_end(head + tail, i) == segment_end(head, i),
        line_end(head + tail, i) == line_end(head, i),
        line_at(head + tail, i) == line_at(head, i),
        segment_at(head + tail, i) == segment_at(head, i),
        i <= line_end(head, i) <= segment_end(head, i) <= head.len(),
{
    lemma_segment_within(head, tail, i);
    segment_end_bounds(head, i);
    let whole = head + tail;
    let end = segment_end(head, i);
    assert(whole[end - 1] == head[end - 1]);
    if end - 1 > i {
        assert(whole[end - 2] == head[end - 2]);
    }
    assert(line_at(whole, i) =~= line_at(head, i));
    assert(segment_at(whole, i) =~= segment_at(head, i));
}

} // verus!
