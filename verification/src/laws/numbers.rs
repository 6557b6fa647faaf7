//! Laws of numbers: which characters write a number, and which number.

use vstd::prelude::*;

use crate::decimal;

verus! {

/// One or more of the ten ASCII digits and nothing else.
pub open spec fn digits_only(s: Seq<char>) -> bool {
    s.len() > 0 && forall|i: int|
        0 <= i < s.len() ==> '0' <= #[trigger] s[i] && s[i] <= '9'
}

/// Nothing writes zero, and a digit behind other digits makes ten of each one.
pub proof fn digits_count_in_tens(s: Seq<char>, c: char)
    requires
        '0' <= c && c <= '9',
    ensures
        decimal::number(Seq::empty()) == 0,
        decimal::number(s.push(c)) == 10 * decimal::number(s) + (c as int - '0' as int),
{
    assert(s.push(c).drop_last() =~= s);
}

/// Digits are a number unless they write more than 32 bits can hold, and nothing
/// else is one.
pub proof fn numbers_are_digits_that_fit(s: Seq<char>)
    ensures
        decimal::is_number(s) <==> digits_only(s) && decimal::number(s) < 0x1_0000_0000,
{
    if decimal::is_number(s) {
        assert forall|i: int| 0 <= i < s.len() implies '0' <= #[trigger] s[i] && s[i] <= '9' by {
            assert(decimal::is_digit(s[i]));
        }
    }
    if digits_only(s) {
        assert forall|i: int| 0 <= i < s.len() implies decimal::is_digit(#[trigger] s[i]) by {
            assert('0' <= s[i] && s[i] <= '9');
        }
    }
}

/// Zeros in front of digits change nothing of the number.
pub proof fn leading_zeros_do_not_count(s: Seq<char>)
    ensures
        decimal::number(seq!['0'] + s) == decimal::number(s),
    decreases s.len(),
{
    let zero = seq!['0'];
    if s.len() == 0 {
        assert(zero + s =~= Seq::<char>::empty().push('0'));
        digits_count_in_tens(Seq::empty(), '0');
    } else {
        leading_zeros_do_not_count(s.drop_last());
        assert((zero + s).drop_last() =~= zero + s.drop_last());
        assert((zero + s).last() == s.last());
    }
}

/// The decimal notation of a number is digits only, writes the number, and does
/// not begin with a zero unless it is the zero alone.
pub proof fn decimal_notation_is_the_shortest(n: nat)
    ensures
        digits_only(decimal::decimal(n)),
        decimal::number(decimal::decimal(n)) == n,
        decimal::decimal(n)[0] == '0' ==> n == 0 && decimal::decimal(n).len() == 1,
    decreases n,
{
    decimal::decimal_reads_back(n);
    let s = decimal::decimal(n);
    assert forall|i: int| 0 <= i < s.len() implies '0' <= #[trigger] s[i] && s[i] <= '9' by {
        assert(decimal::is_digit(s[i]));
    }
    if n >= 10 {
        decimal_notation_is_the_shortest(n / 10);
        assert(s[0] == decimal::decimal(n / 10)[0]);
    }
}

}
