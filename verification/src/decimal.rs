//! Decimal numbers in text.

use vstd::prelude::*;
use crate::text::{digit_value, is_digit};

verus! {

/// Whether a text is made of decimal digits only.
pub open spec fn all_digits(s: Seq<char>) -> bool {
    forall|i: int| 0 <= i < s.len() ==> is_digit(#[trigger] s[i])
}

/// The number that a text of decimal digits denotes.
pub open spec fn decimal_value(s: Seq<char>) -> nat
    decreases s.len(),
{
    if s.len() == 0 {
        0
    } else {
        decimal_value(s.drop_last()) * 10 + digit_value(s.last())
    }
}

/// A text without one leading plus sign.
pub open spec fn unsigned_digits(s: Seq<char>) -> Seq<char> {
    if s.len() > 0 && s[0] == '+' {
        s.skip(1)
    } else {
        s
    }
}

/// The unsigned number up to `max` that a text denotes: an optional plus sign,
/// then one digit or more, with a value that does not exceed `max`.
pub open spec fn parsed_unsigned(s: Seq<char>, max: nat) -> Option<nat> {
    let digits = unsigned_digits(s);
    if digits.len() > 0 && all_digits(digits) && decimal_value(digits) <= max {
        Some(decimal_value(digits))
    } else {
        None
    }
}

/// A longer text of digits never denotes a smaller number.
proof fn lemma_prefix_value(s: Seq<char>, n: int)
    requires
        0 <= n <= s.len(),
        all_digits(s),
    ensures
        decimal_value(s.take(n)) <= decimal_value(s),
    decreases s.len() - n,
{
    if n == s.len() {
        assert(s.take(n) =~= s);
    } else {
        lemma_prefix_value(s, n + 1);
        assert(s.take(n + 1).drop_last() =~= s.take(n));
    }
}

/// Reads the characters from `from` up to `to` as an unsigned number up to `max`.
pub fn read_unsigned(v: &Vec<char>, from: usize, to: usize, max: u64) -> (n: Option<u64>)
    requires
        from <= to <= v@.len(),
    ensures
        match n {
            Some(x) => parsed_unsigned(v@.subrange(from as int, to as int), max as nat) == Some(
                x as nat,
            ),
            None => parsed_unsigned(v@.subrange(from as int, to as int), max as nat) is None,
        },
{
    let ghost whole = v@.subrange(from as int, to as int);
    let start: usize = if from < to && v[from] == '+' {
        from + 1
    } else {
        from
    };
    let ghost digits = unsigned_digits(whole);
    assert(digits =~= v@.subrange(start as int, to as int));
    if start == to {
        return None;
    }
    let mut value: u64 = 0;
    let mut i: usize = start;
    assert(digits.take(0) =~= Seq::<char>::empty());
    while i < to
        invariant
            start <= i <= to <= v@.len(),
            digits == v@.subrange(start as int, to as int),
            digits == unsigned_digits(v@.subrange(from as int, to as int)),
            forall|k: int| 0 <= k < i - start ==> is_digit(#[trigger] digits[k]),
            value == decimal_value(digits.take(i - start)),
            value <= max,
        decreases to - i,
    {
        let c = v[i];
        assert(digits[i - start] == c);
        if !('0' <= c && c <= '9') {
            assert(!all_digits(digits));
            return None;
        }
        let d: u64 = (c as u64) - ('0' as u64);
        assert(digits.take(i - start + 1).drop_last() =~= digits.take(i - start));
        assert(decimal_value(digits.take(i - start + 1)) == value * 10 + d);
        if d > max || value > (max - d) / 10 {
            proof {
                if all_digits(digits) {
                    lemma_prefix_value(digits, i - start + 1);
                }
            }
            return None;
        }
        value = value * 10 + d;
        i = i + 1;
    }
    assert(digits.take(to - start) =~= digits);
    Some(value)
}

/// The decimal digit with a given value below ten.
pub open spec fn digit_char(d: nat) -> char {
    ('0' as u32 + d as u32) as char
}

/// The decimal text of a number, without leading zeros.
pub open spec fn decimal_text(n: nat) -> Seq<char>
    decreases n,
{
    if n < 10 {
        seq![digit_char(n)]
    } else {
        decimal_text(n / 10).push(digit_char(n % 10))
    }
}

/// Appends the decimal text of a number.
pub fn push_decimal(s: &mut String, n: u64)
    ensures
        final(s)@ == old(s)@ + decimal_text(n as nat),
    decreases n,
{
    if n < 10 {
        s.push(((n as u8) + 48) as char);
        assert(s@ =~= old(s)@ + decimal_text(n as nat));
    } else {
        push_decimal(s, n / 10);
        s.push((((n % 10) as u8) + 48) as char);
        assert(s@ =~= old(s)@ + decimal_text(n as nat));
    }
}

/// Reading a number's decimal text gives the number back.
pub proof fn decimal_text_reads_back(n: nat)
    ensures
        decimal_text(n).len() > 0,
        all_digits(decimal_text(n)),
        decimal_value(decimal_text(n)) == n,
        parsed_unsigned(decimal_text(n), n) == Some(n),
    decreases n,
{
    if n < 10 {
        assert(decimal_text(n).drop_last() =~= Seq::<char>::empty());
        assert(decimal_value(Seq::<char>::empty()) == 0);
    } else {
        decimal_text_reads_back(n / 10);
        assert(decimal_text(n).drop_last() =~= decimal_text(n / 10));
    }
    assert(is_digit(decimal_text(n)[0]));
}

/// Ten to the power of `n`.
pub open spec fn tens(n: nat) -> nat
    decreases n,
{
    if n == 0 {
        1
    } else {
        10 * tens((n - 1) as nat)
    }
}

/// Digits are read from the left: those behind stand for ones, tens, hundreds and
/// so on, and those in front for as many times more as there are behind them.
pub proof fn digits_are_read_by_place(a: Seq<char>, b: Seq<char>, c: char)
    ensures
        is_digit(c) ==> decimal_value(seq![c]) == c as int - 48,
        decimal_value(a + b) == decimal_value(a) * tens(b.len()) + decimal_value(b),
    decreases b.len(),
{
    let one = seq![c];
    assert(one.drop_last() =~= Seq::<char>::empty());
    assert(decimal_value(one.drop_last()) == 0);
    if b.len() == 0 {
        assert(a + b =~= a);
        assert(decimal_value(a) * 1 == decimal_value(a)) by (nonlinear_arith);
    } else {
        let init = b.drop_last();
        digits_are_read_by_place(a, init, c);
        assert((a + b).drop_last() =~= a + init);
        let (x, y, t) = (decimal_value(a), decimal_value(init), tens(init.len()));
        assert((x * t + y) * 10 == x * (10 * t) + y * 10) by (nonlinear_arith);
    }
}

/// A number can be read exactly where there is at least one digit, nothing but
/// digits behind at most one plus sign, and the value is not too large.
pub proof fn numbers_are_digits(digits: Seq<char>, max: nat)
    ensures
        digits.len() > 0 && all_digits(digits) && decimal_value(digits) <= max
            ==> parsed_unsigned(digits, max) == Some(decimal_value(digits)) && parsed_unsigned(
            seq!['+'] + digits,
            max,
        ) == Some(decimal_value(digits)),
        parsed_unsigned(digits, max) matches Some(n) ==> n <= max,
        digits.len() == 0 ==> parsed_unsigned(digits, max) is None && parsed_unsigned(
            seq!['+'],
            max,
        ) is None,
        (exists|i: int| 1 <= i < digits.len() && !('0' <= #[trigger] digits[i] && digits[i] <= '9'))
            ==> parsed_unsigned(digits, max) is None,
        digits.len() > 0 && digits[0] != '+' && !('0' <= digits[0] && digits[0] <= '9')
            ==> parsed_unsigned(digits, max) is None,
        digits.len() > 0 && all_digits(digits) && decimal_value(digits) > max ==> parsed_unsigned(
            digits,
            max,
        ) is None,
{
    let signed = seq!['+'] + digits;
    assert(unsigned_digits(signed) =~= digits);
    assert(seq!['+'].skip(1).len() == 0);
    if digits.len() > 0 && all_digits(digits) {
        assert(is_digit(digits[0]));
    }
    if exists|i: int| 1 <= i < digits.len() && !('0' <= #[trigger] digits[i] && digits[i] <= '9') {
        let i = choose|i: int|
            1 <= i < digits.len() && !('0' <= #[trigger] digits[i] && digits[i] <= '9');
        let rest = unsigned_digits(digits);
        if digits[0] == '+' {
            assert(rest[i - 1] == digits[i]);
        } else {
            assert(rest[i] == digits[i]);
        }
    }
    if digits.len() > 0 && digits[0] != '+' && !('0' <= digits[0] && digits[0] <= '9') {
        assert(!is_digit(unsigned_digits(digits)[0]));
    }
}

/// The text of a number has no leading zero, and numbers with the same text are
/// the same.
pub proof fn numbers_are_written_in_one_way(n: nat, m: nat)
    ensures
        n > 0 ==> decimal_text(n)[0] != '0',
        decimal_text(0) == seq!['0'],
        decimal_text(n) == decimal_text(m) ==> n == m,
    decreases n,
{
    decimal_text_reads_back(n);
    decimal_text_reads_back(m);
    if n >= 10 {
        numbers_are_written_in_one_way(n / 10, m);
        assert(decimal_text(n)[0] == decimal_text(n / 10)[0]) by {
            decimal_text_reads_back(n / 10);
        }
    }
    assert(decimal_text(0) =~= seq!['0']);
}

} // verus!
