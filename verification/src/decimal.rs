//! Numbers in decimal notation.

use vstd::prelude::*;

verus! {

/// The character of a digit.
pub open spec fn digit_char(d: nat) -> char {
    ('0' as u32 + d) as char
}

/// The ASCII digits.
pub open spec fn is_digit(c: char) -> bool {
    '0' <= c && c <= '9'
}

/// The value of a digit.
pub open spec fn digit_value(c: char) -> nat {
    (c as u32 - '0' as u32) as nat
}

/// `n` in decimal, without leading zeros.
pub open spec fn decimal(n: nat) -> Seq<char>
    decreases n,
{
    if n < 10 {
        seq![digit_char(n)]
    } else {
        decimal(n / 10).push(digit_char(n % 10))
    }
}

/// The number that a sequence of digits writes.
pub open spec fn number(digits: Seq<char>) -> nat
    decreases digits.len(),
{
    if digits.len() == 0 {
        0
    } else {
        number(digits.drop_last()) * 10 + digit_value(digits.last())
    }
}

/// A non-empty sequence of digits only.
pub open spec fn all_digits(s: Seq<char>) -> bool {
    s.len() > 0 && forall|i: int| 0 <= i < s.len() ==> is_digit(#[trigger] s[i])
}

/// Digits that write a number of at most 32 bits.
pub open spec fn is_number(s: Seq<char>) -> bool {
    all_digits(s) && number(s) <= u32::MAX
}

/// Writing a number in decimal gives digits that read back as the number.
pub proof fn decimal_reads_back(n: nat)
    ensures
        all_digits(decimal(n)),
        number(decimal(n)) == n,
    decreases n,
{
    if n < 10 {
        let d = digit_char(n);
        assert(seq![d].drop_last() =~= Seq::<char>::empty());
        assert(number(seq![d].drop_last()) == 0);
        assert(digit_value(d) == n);
    } else {
        decimal_reads_back(n / 10);
        let d = digit_char(n % 10);
        assert(decimal(n / 10).push(d).drop_last() =~= decimal(n / 10));
        assert(digit_value(d) == n % 10);
    }
}

/// Two numbers with the same decimal notation are the same.
pub proof fn decimal_is_injective(a: nat, b: nat)
    requires
        decimal(a) == decimal(b),
    ensures
        a == b,
{
    decimal_reads_back(a);
    decimal_reads_back(b);
}

/// More digits behind a number never make it smaller.
proof fn number_grows(s: Seq<char>, k: int)
    requires
        0 <= k <= s.len(),
    ensures
        number(s.take(k)) <= number(s),
    decreases s.len() - k,
{
    if k == s.len() {
        assert(s.take(k) =~= s);
    } else {
        number_grows(s, k + 1);
        assert(s.take(k + 1).drop_last() =~= s.take(k));
        assert(s.take(k + 1).last() == s[k]);
    }
}

/// Appends the decimal notation of `n`.
pub fn push_decimal(s: &mut String, n: u32)
    ensures
        final(s)@ == old(s)@ + decimal(n as nat),
    decreases n,
{
    if n >= 10 {
        push_decimal(s, n / 10);
    }
    let d: u8 = 48 + (n % 10) as u8;
    s.push(d as char);
    assert(d as char == digit_char((n % 10) as nat));
    assert(s@ =~= old(s)@ + decimal(n as nat));
}

/// Reads the characters from `from` up to `to` as a number.
pub fn parse_number(v: &Vec<char>, from: usize, to: usize) -> (r: Option<u32>)
    requires
        from <= to <= v@.len(),
    ensures
        r is Some <==> is_number(v@.subrange(from as int, to as int)),
        r matches Some(n) ==> n == number(v@.subrange(from as int, to as int)),
{
    let ghost s = v@.subrange(from as int, to as int);
    if from == to {
        return None;
    }
    let mut n: u32 = 0;
    let mut i: usize = from;
    while i < to
        invariant
            from <= i <= to <= v@.len(),
            s == v@.subrange(from as int, to as int),
            n == number(s.take(i - from)),
            forall|j: int| 0 <= j < i - from ==> is_digit(#[trigger] s[j]),
        decreases to - i,
    {
        let c = v[i];
        assert(s[i - from] == c);
        if !(c >= '0' && c <= '9') {
            return None;
        }
        let d: u32 = c as u32 - '0' as u32;
        proof {
            assert(s.take(i - from + 1).drop_last() =~= s.take(i - from));
            assert(s.take(i - from + 1).last() == c);
            assert(number(s.take(i - from + 1)) == n * 10 + d);
            number_grows(s, i - from + 1);
        }
        let wide: u64 = (n as u64) * 10 + d as u64;
        if wide > u32::MAX as u64 {
            return None;
        }
        n = wide as u32;
        i += 1;
    }
    assert(s.take(to - from) =~= s);
    Some(n)
}

}
