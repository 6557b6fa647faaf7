//! Characters and strings: what the rest of the library needs from `char`,
//! `str` and `String`, over sequences of characters.

use vstd::prelude::*;
use vstd::utf8;

verus! {

/// What `char::is_whitespace` answers.
pub uninterp spec fn whitespace(c: char) -> bool;

/// What `char::is_alphanumeric` answers.
pub uninterp spec fn alphanumeric(c: char) -> bool;

/// What `str::to_lowercase` returns, character by character.
pub uninterp spec fn lowercase(s: Seq<char>) -> Seq<char>;

/// The ASCII characters with the Unicode property `White_Space`.
pub open spec fn ascii_whitespace(c: char) -> bool {
    c == ' ' || c == '\t' || c == '\n' || c == '\r' || c == '\x0b' || c == '\x0c'
}

/// The ASCII letters and digits.
pub open spec fn ascii_alphanumeric(c: char) -> bool {
    ('0' <= c && c <= '9') || ('A' <= c && c <= 'Z') || ('a' <= c && c <= 'z')
}

/// An ASCII capital becomes its small letter; any other character stays.
pub open spec fn ascii_lower(c: char) -> char {
    if 'A' <= c && c <= 'Z' {
        (c as u32 + 32) as char
    } else {
        c
    }
}

/// `char::is_whitespace`: the result is a function of the character, and on
/// ASCII it is the six blank characters.
pub assume_specification[ char::is_whitespace ](c: char) -> (r: bool)
    ensures
        r == whitespace(c),
        c <= '\x7f' ==> r == ascii_whitespace(c),
;

/// `char::is_alphanumeric`: the result is a function of the character, and on
/// ASCII it is the letters and digits.
pub assume_specification[ char::is_alphanumeric ](c: char) -> (r: bool)
    ensures
        r == alphanumeric(c),
        c <= '\x7f' ==> r == ascii_alphanumeric(c),
;

/// `str::to_lowercase`: the result is a function of the characters, and on an
/// ASCII string every capital becomes its small letter and nothing else changes.
pub assume_specification[ str::to_lowercase ](s: &str) -> (r: String)
    ensures
        r@ == lowercase(s@),
        utf8::is_ascii_chars(s@) ==> r@ == s@.map_values(|c: char| ascii_lower(c)),
;

/// `String::push` appends the character.
pub assume_specification[ String::push ](s: &mut String, c: char)
    ensures
        final(s)@ == old(s)@.push(c),
;

/// `String::pop` removes the last character and returns it; an empty string is
/// left as it is, and gives `None`.
pub assume_specification[ String::pop ](s: &mut String) -> (r: Option<char>)
    ensures
        old(s)@.len() == 0 ==> r is None && final(s)@ == old(s)@,
        old(s)@.len() > 0 ==> r == Some(old(s)@.last()) && final(s)@ == old(s)@.drop_last(),
;

/// The characters of a string.
pub fn chars_of(s: &str) -> (v: Vec<char>)
    ensures
        v@ == s@,
{
    let mut v: Vec<char> = Vec::new();
    for c in it: s.chars()
        invariant
            it.seq() == s@,
            v@ == s@.take(it.index()),
    {
        v.push(c);
    }
    assert(s@.take(s@.len() as int) == s@);
    v
}

/// The string of the characters from `from` up to `to`.
pub fn string_of(v: &Vec<char>, from: usize, to: usize) -> (s: String)
    requires
        from <= to <= v@.len(),
    ensures
        s@ == v@.subrange(from as int, to as int),
{
    let mut s = String::new();
    for i in from..to
        invariant
            from <= to <= v@.len(),
            s@ == v@.subrange(from as int, i as int),
    {
        s.push(v[i]);
    }
    s
}

/// The length of a string in bytes of UTF-8.
pub fn byte_len(s: &str) -> (n: usize)
    ensures
        n == utf8::encode_utf8(s@).len(),
{
    s.as_bytes().len()
}

/// `s` without the characters at its start that satisfy `p`.
pub open spec fn strip_start(s: Seq<char>, p: spec_fn(char) -> bool) -> Seq<char>
    decreases s.len(),
{
    if s.len() > 0 && p(s[0]) {
        strip_start(s.skip(1), p)
    } else {
        s
    }
}

/// `s` without the characters at its end that satisfy `p`.
pub open spec fn strip_end(s: Seq<char>, p: spec_fn(char) -> bool) -> Seq<char>
    decreases s.len(),
{
    if s.len() > 0 && p(s.last()) {
        strip_end(s.drop_last(), p)
    } else {
        s
    }
}

/// `part` occurs in `s` at position `i`.
pub open spec fn occurs_at(s: Seq<char>, part: Seq<char>, i: int) -> bool {
    0 <= i && i + part.len() <= s.len() && s.subrange(i, i + part.len()) == part
}

/// `part` occurs somewhere in `s`.
pub open spec fn occurs_in(s: Seq<char>, part: Seq<char>) -> bool {
    exists|i: int| occurs_at(s, part, i)
}

/// What `strip_start` leaves is the end of the sequence from some position on:
/// everything before it satisfies `p`, and its own first character does not.
pub proof fn strip_start_is_suffix(s: Seq<char>, p: spec_fn(char) -> bool) -> (k: int)
    ensures
        0 <= k <= s.len(),
        strip_start(s, p) == s.skip(k),
        forall|i: int| 0 <= i < k ==> p(#[trigger] s[i]),
        k < s.len() ==> !p(s[k]),
    decreases s.len(),
{
    if s.len() > 0 && p(s[0]) {
        let k = strip_start_is_suffix(s.skip(1), p);
        assert(s.skip(1).skip(k) =~= s.skip(k + 1));
        assert forall|i: int| 0 <= i < k + 1 implies p(#[trigger] s[i]) by {
            if i > 0 {
                assert(s.skip(1)[i - 1] == s[i]);
            }
        }
        if k + 1 < s.len() {
            assert(s.skip(1)[k] == s[k + 1]);
        }
        k + 1
    } else {
        assert(s.skip(0) =~= s);
        0
    }
}

/// What `strip_end` leaves is the start of the sequence up to some position:
/// everything behind it satisfies `p`, and its own last character does not.
pub proof fn strip_end_is_prefix(s: Seq<char>, p: spec_fn(char) -> bool) -> (k: int)
    ensures
        0 <= k <= s.len(),
        strip_end(s, p) == s.take(k),
        forall|i: int| k <= i < s.len() ==> p(#[trigger] s[i]),
        k > 0 ==> !p(s[k - 1]),
    decreases s.len(),
{
    if s.len() > 0 && p(s.last()) {
        let k = strip_end_is_prefix(s.drop_last(), p);
        assert(s.drop_last().take(k) =~= s.take(k));
        assert forall|i: int| k <= i < s.len() implies p(#[trigger] s[i]) by {
            if i < s.len() - 1 {
                assert(s.drop_last()[i] == s[i]);
            }
        }
        if k > 0 {
            assert(s.drop_last()[k - 1] == s[k - 1]);
        }
        k
    } else {
        assert(s.take(s.len() as int) =~= s);
        s.len() as int
    }
}

/// The bytes of two strings in a row are the bytes of the one, then of the other.
pub proof fn encode_concat(a: Seq<char>, b: Seq<char>)
    ensures
        utf8::encode_utf8(a + b) == utf8::encode_utf8(a) + utf8::encode_utf8(b),
    decreases a.len(),
{
    if a.len() == 0 {
        assert(a + b =~= b);
        assert(utf8::encode_utf8(a) =~= Seq::<u8>::empty());
        assert(utf8::encode_utf8(a) + utf8::encode_utf8(b) =~= utf8::encode_utf8(b));
    } else {
        encode_concat(a.drop_first(), b);
        assert((a + b).drop_first() =~= a.drop_first() + b);
        assert((a + b)[0] == a[0]);
        assert(utf8::encode_utf8(a + b) =~= utf8::encode_utf8(a) + utf8::encode_utf8(b));
    }
}

/// A string has at least as many bytes as characters.
pub proof fn encode_at_least_chars(s: Seq<char>)
    ensures
        utf8::encode_utf8(s).len() >= s.len(),
    decreases s.len(),
{
    if s.len() > 0 {
        encode_at_least_chars(s.drop_first());
        assert(utf8::encode_scalar(s[0] as u32).len() >= 1);
    }
}

/// The first position from `i` on at which `part` occurs in `s`.
pub open spec fn first_from(s: Seq<char>, part: Seq<char>, i: nat) -> Option<nat>
    decreases s.len() + 1 - i,
{
    if i > s.len() {
        None
    } else if occurs_at(s, part, i as int) {
        Some(i)
    } else {
        first_from(s, part, i + 1)
    }
}

/// The first position at which `part` occurs in `s`.
pub open spec fn first_occurrence(s: Seq<char>, part: Seq<char>) -> Option<nat> {
    first_from(s, part, 0)
}

/// The first position from `i` on is one at which the part occurs, and it occurs
/// at none between; where there is none, it occurs nowhere from `i` on.
pub proof fn first_from_is_first(s: Seq<char>, part: Seq<char>, i: nat)
    ensures
        match first_from(s, part, i) {
            Some(k) => i <= k && occurs_at(s, part, k as int) && forall|j: int|
                i <= j < k ==> !occurs_at(s, part, j),
            None => forall|j: int| i <= j ==> !occurs_at(s, part, j),
        },
    decreases s.len() + 1 - i,
{
    if i <= s.len() && !occurs_at(s, part, i as int) {
        first_from_is_first(s, part, i + 1);
    }
}

fn starts_at(s: &Vec<char>, part: &Vec<char>, i: usize) -> (r: bool)
    requires
        i + part@.len() <= s@.len(),
    ensures
        r == occurs_at(s@, part@, i as int),
{
    let ghost here = s@.subrange(i as int, i + part@.len());
    let n: usize = s.len();
    for j in 0..part.len()
        invariant
            i + part@.len() <= n == s@.len(),
            here == s@.subrange(i as int, i + part@.len()),
            forall|k: int| 0 <= k < j ==> here[k] == part@[k],
    {
        assert(here[j as int] == s@[i + j]);
        if s[i + j] != part[j] {
            return false;
        }
    }
    assert(here =~= part@);
    true
}

/// The position of the first occurrence of `part` in `s`, in characters.
pub fn find(s: &str, part: &str) -> (r: Option<usize>)
    ensures
        match first_occurrence(s@, part@) {
            Some(k) => r matches Some(i) && i == k,
            None => r is None,
        },
{
    let v = chars_of(s);
    let p = chars_of(part);
    let n: usize = v.len();
    let m: usize = p.len();
    if m > n {
        proof {
            first_from_is_first(s@, part@, 0);
        }
        return None;
    }
    let mut i: usize = 0;
    while i <= n - m
        invariant
            v@ == s@,
            p@ == part@,
            n == v@.len(),
            m == p@.len(),
            m <= n,
            i <= n,
            first_occurrence(s@, part@) == first_from(s@, part@, i as nat),
        decreases n - i,
    {
        if starts_at(&v, &p, i) {
            return Some(i);
        }
        if m == 0 {
            assert(s@.subrange(i as int, i as int) =~= part@);
        }
        i += 1;
    }
    proof {
        first_from_is_first(s@, part@, i as nat);
    }
    None
}

}
