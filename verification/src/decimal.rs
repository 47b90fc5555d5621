//! Decimal numerals: writing a number down and reading it back.

use crate::text::{
    ascii_digit, outer_space_is_trimmed, trim, trim_end, trim_start, white_space,
};
use vstd::prelude::*;

verus! {

/// The digit for `d`, a number below ten.
pub open spec fn digit(d: int) -> char {
    ('0' as u32 + d) as char
}

/// The decimal numeral of `n`, without leading zeros.
pub open spec fn numeral(n: nat) -> Seq<char>
    decreases n,
{
    if n < 10 {
        seq![digit(n as int)]
    } else {
        numeral(n / 10).push(digit((n % 10) as int))
    }
}

/// The number that a sequence of digits stands for.
pub open spec fn digits_value(s: Seq<char>) -> nat
    decreases s.len(),
{
    if s.len() == 0 {
        0
    } else {
        (10 * digits_value(s.drop_last()) + (s.last() as u32 - '0' as u32)) as nat
    }
}

/// Whether every character of `s` is a decimal digit.
pub open spec fn all_digits(s: Seq<char>) -> bool {
    forall|i: int| 0 <= i < s.len() ==> #[trigger] ascii_digit(s[i])
}

/// The number that `s` stands for when it is digits only, at least one, and
/// their value fits in 64 bits.
pub open spec fn digits_number(s: Seq<char>) -> Option<u64> {
    if s.len() > 0 && all_digits(s) && digits_value(s) <= u64::MAX {
        Some(digits_value(s) as u64)
    } else {
        None
    }
}

/// The number that `s` stands for: an optional `+` and then digits only.
pub open spec fn numeral_value(s: Seq<char>) -> Option<u64> {
    if s.len() > 0 && s[0] == '+' {
        digits_number(s.skip(1))
    } else {
        digits_number(s)
    }
}

/// The decimal numeral of `n`.
pub fn write_decimal(n: u64) -> (r: String)
    ensures
        r@ == numeral(n as nat),
    decreases n,
{
    let low = ((n % 10) as u8 + 48) as char;
    if n < 10 {
        let mut r = String::new();
        r.push(low);
        assert(r@ == seq![digit(n as int)]);
        r
    } else {
        let mut r = write_decimal(n / 10);
        r.push(low);
        r
    }
}

/// A run of digits at the start is worth no more than the whole.
proof fn lemma_value_grows(s: Seq<char>, n: int)
    requires
        0 <= n <= s.len(),
        all_digits(s),
    ensures
        digits_value(s.take(n)) <= digits_value(s),
    decreases s.len() - n,
{
    if n < s.len() {
        let longer = s.take(n + 1);
        assert(longer.drop_last() == s.take(n));
        assert(ascii_digit(s[n]));
        lemma_value_grows(s, n + 1);
    } else {
        assert(s.take(n) == s);
    }
}

/// Reads an unsigned 64-bit number.
pub fn read_decimal(s: &[char]) -> (r: Option<u64>)
    ensures
        r == numeral_value(s@),
{
    let start: usize = if s.len() > 0 && s[0] == '+' {
        1
    } else {
        0
    };
    let ghost digits = s@.skip(start as int);
    assert(start == 0 ==> digits == s@);
    if s.len() == start {
        return None;
    }
    let mut value: u64 = 0;
    let mut i: usize = start;
    while i < s.len()
        invariant
            start <= i <= s@.len(),
            start <= 1,
            digits == s@.skip(start as int),
            value == digits_value(digits.take(i - start)),
            forall|j: int| 0 <= j < i - start ==> #[trigger] ascii_digit(digits[j]),
            s@.len() > start,
            numeral_value(s@) == digits_number(digits),
        decreases s.len() - i,
    {
        let c = s[i];
        let ghost k = i - start;
        assert(digits[k] == c);
        if c < '0' || c > '9' {
            assert(!ascii_digit(digits[k]));
            return None;
        }
        let d: u64 = (c as u32 - 48) as u64;
        proof {
            assert(digits.take(k + 1).drop_last() == digits.take(k));
            assert(digits.take(k + 1).last() == c);
            if all_digits(digits) {
                lemma_value_grows(digits, k + 1);
            }
        }
        if value > (u64::MAX - d) / 10 {
            assert(10 * value + d > u64::MAX);
            return None;
        }
        value = value * 10 + d;
        i = i + 1;
    }
    assert(digits.take(i - start) == digits);
    Some(value)
}

proof fn lemma_numeral_shape(n: nat)
    ensures
        numeral(n).len() > 0,
        all_digits(numeral(n)),
        digits_value(numeral(n)) == n,
    decreases n,
{
    if n < 10 {
        reveal_with_fuel(digits_value, 2);
        assert(numeral(n).drop_last() == Seq::<char>::empty());
    } else {
        lemma_numeral_shape(n / 10);
        assert(numeral(n).drop_last() == numeral(n / 10));
    }
}

/// A number written down reads back as itself, also with white space around it
/// trimmed away first.
pub proof fn numeral_reads_back(n: u64)
    ensures
        numeral_value(numeral(n as nat)) == Some(n),
        numeral_value(trim(numeral(n as nat))) == Some(n),
{
    let s = numeral(n as nat);
    lemma_numeral_shape(n as nat);
    assert(ascii_digit(s[0]));
    assert(ascii_digit(s[s.len() - 1]));
    assert(trim_start(s) == s);
    assert(trim_end(s) == s);
}

/// A numeral is written digit by digit: a number below ten is its digit, and a digit
/// more behind a numeral makes ten times its number and the digit.
pub proof fn numerals_are_written_by_digits(n: nat, d: nat)
    requires
        d < 10,
    ensures
        numeral(d) == seq![('0' as u32 + d) as char],
        n > 0 ==> numeral(10 * n + d) == numeral(n).push(('0' as u32 + d) as char),
{
    assert((10 * n + d) / 10 == n && (10 * n + d) % 10 == d);
}

/// Digits are read one by one: a digit more behind others makes ten times their
/// value and the digit.
pub proof fn digits_are_read_one_by_one(s: Seq<char>, d: nat)
    requires
        d < 10,
    ensures
        digits_value(Seq::empty()) == 0,
        digits_value(s.push(('0' as u32 + d) as char)) == 10 * digits_value(s) + d,
{
    assert(s.push(('0' as u32 + d) as char).drop_last() =~= s);
}

/// A text is read as a number exactly where it is one or more digits, with at most one
/// `+` before them, that are worth no more than 64 bits hold.
pub proof fn numbers_are_digits(digits: Seq<char>)
    ensures
        ({
            let readable = digits.len() > 0 && (forall|i: int|
                0 <= i < digits.len() ==> '0' <= #[trigger] digits[i] <= '9') && digits_value(
                digits,
            ) <= u64::MAX;
            let signed = seq!['+'] + digits;
            &&& readable ==> numeral_value(digits) == Some(digits_value(digits) as u64)
            &&& readable ==> numeral_value(signed) == Some(digits_value(digits) as u64)
            &&& !readable ==> numeral_value(signed) is None
            &&& !readable && (digits.len() == 0 || digits[0] != '+') ==> numeral_value(digits)
                is None
        }),
{
    let signed = seq!['+'] + digits;
    assert(signed.skip(1) =~= digits);
    if all_digits(digits) {
        assert forall|i: int| 0 <= i < digits.len() implies '0' <= #[trigger] digits[i] <= '9' by {
            assert(ascii_digit(digits[i]));
        }
    }
    if forall|i: int| 0 <= i < digits.len() ==> '0' <= #[trigger] digits[i] <= '9' {
        assert forall|i: int| 0 <= i < digits.len() implies #[trigger] ascii_digit(digits[i]) by {
            assert('0' <= digits[i] <= '9');
        }
        assert(digits.len() > 0 ==> '0' <= digits[0] <= '9');
    }
}

/// A number written down reads back as itself whatever white space stands before and
/// behind it.
pub proof fn numerals_read_back_between_spaces(n: u64, before: Seq<char>, after: Seq<char>)
    requires
        forall|k: int| 0 <= k < before.len() ==> white_space(#[trigger] before[k]),
        forall|k: int| 0 <= k < after.len() ==> white_space(#[trigger] after[k]),
    ensures
        numeral_value(trim(before + numeral(n as nat) + after)) == Some(n),
{
    let s = numeral(n as nat);
    lemma_numeral_shape(n as nat);
    assert(ascii_digit(s[0]));
    assert(ascii_digit(s[s.len() - 1]));
    outer_space_is_trimmed(before, s, after);
    numeral_reads_back(n);
}

} // verus!
