//! Tokens of the form `path[:line[:col]]`: recognising them, taking them apart
//! and turning them into Vim targets.

use vstd::prelude::*;
use vstd::utf8;

use crate::chars;
use crate::decimal;

verus! {

/// The characters that `trim_junk` removes from the start of a word.
pub open spec fn lead_junk() -> spec_fn(char) -> bool {
    |c: char|
        c == ' ' || c == '\t' || c == '"' || c == '\'' || c == '`' || c == '(' || c == '[' || c
            == '{' || c == '<'
}

/// The characters that `trim_junk` removes from the end of a word.
pub open spec fn trail_junk() -> spec_fn(char) -> bool {
    |c: char|
        c == ' ' || c == '\t' || c == '"' || c == '\'' || c == '`' || c == ')' || c == ']' || c
            == '}' || c == '>' || c == '.' || c == ',' || c == ';' || c == ':'
}

/// A word without the quotes, brackets and punctuation around it.
pub open spec fn trimmed_junk(s: Seq<char>) -> Seq<char> {
    chars::strip_end(chars::strip_start(s, lead_junk()), trail_junk())
}

/// The position of the last `:`, or -1.
pub open spec fn last_colon(s: Seq<char>) -> int
    decreases s.len(),
{
    if s.len() == 0 {
        -1
    } else if s.last() == ':' {
        s.len() - 1
    } else {
        last_colon(s.drop_last())
    }
}

/// Where `s` ends in `:` and a number, what stands before the `:`, and the number.
pub open spec fn peel(s: Seq<char>) -> Option<(Seq<char>, u32)> {
    let i = last_colon(s);
    if i >= 0 && decimal::is_number(s.skip(i + 1)) {
        Some((s.take(i), decimal::number(s.skip(i + 1)) as u32))
    } else {
        None
    }
}

/// The parts of a token.
#[verifier::ext_equal]
pub struct Parts {
    pub base: Seq<char>,
    pub line: Option<u32>,
    pub col: Option<u32>,
}

/// A token with up to two trailing `:number` segments taken off: one is the
/// line, two are the line and the column.
pub open spec fn parts(tok: Seq<char>) -> Parts {
    match peel(tok) {
        None => Parts { base: tok, line: None, col: None },
        Some((b, n)) => match peel(b) {
            None => Parts { base: b, line: Some(n), col: None },
            Some((base, line)) => Parts { base, line: Some(line), col: Some(n) },
        },
    }
}

/// `://` occurs in `s`, as in a URL.
pub open spec fn has_scheme(s: Seq<char>) -> bool {
    exists|i: int|
        0 <= i && i + 2 < s.len() && #[trigger] s[i] == ':' && s[i + 1] == '/' && s[i + 2] == '/'
}

/// A letter or digit occurs in `s`.
pub open spec fn has_alphanumeric(s: Seq<char>) -> bool {
    exists|i: int| 0 <= i < s.len() && chars::alphanumeric(#[trigger] s[i])
}

/// A path, which is anything with a `/`, or a dotted name that a line number
/// follows, which is anything with a `.` and a letter or digit.
pub open spec fn qualifying(base: Seq<char>, has_line: bool, has_alphanumeric: bool) -> bool {
    base.contains('/') || (has_line && base.contains('.') && has_alphanumeric)
}

/// The tokens that are targets.
pub open spec fn is_target(tok: Seq<char>) -> bool {
    let p = parts(tok);
    &&& tok.len() > 0
    &&& !has_scheme(tok)
    &&& qualifying(p.base, p.line is Some, has_alphanumeric(p.base))
}

/// The Vim target of a token.
pub open spec fn vim_form(tok: Seq<char>) -> Seq<char> {
    let p = parts(tok);
    match (p.line, p.col) {
        (Some(l), Some(c)) => "+call cursor("@ + decimal::decimal(l as nat) + ","@
            + decimal::decimal(c as nat) + ") "@ + p.base,
        (Some(l), None) => "+"@ + decimal::decimal(l as nat) + " "@ + p.base,
        _ => tok,
    }
}

/// Strips surrounding quotes, brackets and punctuation from a word.
pub fn trim_junk(s: &str) -> (r: &str)
    ensures
        r@ == trimmed_junk(s@),
{
    let v = chars::chars_of(s);
    let n: usize = v.len();
    let mut i: usize = 0;
    assert(s@.skip(0) =~= s@);
    while i < n && is_lead_junk(v[i])
        invariant
            v@ == s@,
            n == v@.len(),
            i <= n,
            chars::strip_start(s@, lead_junk()) == chars::strip_start(s@.skip(i as int), lead_junk()),
        decreases n - i,
    {
        assert(s@.skip(i as int).skip(1) =~= s@.skip(i + 1));
        i += 1;
    }
    let ghost rest = s@.skip(i as int);
    assert(chars::strip_start(s@, lead_junk()) == rest);
    let mut j: usize = n;
    assert(s@.subrange(i as int, n as int) =~= rest);
    while i < j && is_trail_junk(v[j - 1])
        invariant
            v@ == s@,
            n == v@.len(),
            i <= j <= n,
            chars::strip_end(rest, trail_junk()) == chars::strip_end(
                s@.subrange(i as int, j as int),
                trail_junk(),
            ),
        decreases j,
    {
        assert(s@.subrange(i as int, j as int).drop_last() =~= s@.subrange(i as int, j - 1));
        j -= 1;
    }
    s.substring_char(i, j)
}

fn is_lead_junk(c: char) -> (r: bool)
    ensures
        r == lead_junk()(c),
{
    c == ' ' || c == '\t' || c == '"' || c == '\'' || c == '`' || c == '(' || c == '[' || c == '{'
        || c == '<'
}

fn is_trail_junk(c: char) -> (r: bool)
    ensures
        r == trail_junk()(c),
{
    c == ' ' || c == '\t' || c == '"' || c == '\'' || c == '`' || c == ')' || c == ']' || c == '}'
        || c == '>' || c == '.' || c == ',' || c == ';' || c == ':'
}

/// Takes a trailing `:number` off the first `end` characters: the position of
/// the `:`, and the number.
fn peel_number(v: &Vec<char>, end: usize) -> (r: Option<(usize, u32)>)
    requires
        end <= v@.len(),
    ensures
        match peel(v@.take(end as int)) {
            None => r is None,
            Some((base, n)) => r matches Some((i, m)) && i <= end && base == v@.take(i as int) && m
                == n,
        },
{
    let ghost s = v@.take(end as int);
    let mut i: usize = end;
    assert(s.take(end as int) =~= s);
    while i > 0
        invariant
            i <= end <= v@.len(),
            s == v@.take(end as int),
            last_colon(s) == last_colon(s.take(i as int)),
        decreases i,
    {
        assert(s.take(i as int).drop_last() =~= s.take(i - 1));
        assert(s.take(i as int).last() == v@[i - 1]);
        if v[i - 1] == ':' {
            assert(s.skip(i as int) =~= v@.subrange(i as int, end as int));
            assert(s.take(i - 1) =~= v@.take(i - 1));
            return match decimal::parse_number(v, i, end) {
                None => None,
                Some(n) => Some((i - 1, n)),
            };
        }
        i -= 1;
    }
    None
}

/// Peels up to two trailing `:number` segments off a token: the rest, the line
/// and the column.
pub fn parse_target(tok: &str) -> (r: (&str, Option<u32>, Option<u32>))
    ensures
        r.0@ == parts(tok@).base,
        r.1 == parts(tok@).line,
        r.2 == parts(tok@).col,
{
    let v = chars::chars_of(tok);
    assert(v@.take(v@.len() as int) =~= tok@);
    match peel_number(&v, v.len()) {
        None => (tok, None, None),
        Some((i, n)) => match peel_number(&v, i) {
            None => (tok.substring_char(0, i), Some(n), None),
            Some((j, m)) => (tok.substring_char(0, j), Some(m), Some(n)),
        },
    }
}

/// Whether the base of a token qualifies, given whether a line number follows it
/// and whether it holds a letter or digit.
pub fn qualifies(base: &str, has_line: bool, has_alphanumeric: bool) -> (r: bool)
    ensures
        r == qualifying(base@, has_line, has_alphanumeric),
{
    let v = chars::chars_of(base);
    contains_char(&v, '/') || (has_line && contains_char(&v, '.') && has_alphanumeric)
}

fn contains_char(v: &Vec<char>, c: char) -> (r: bool)
    ensures
        r == v@.contains(c),
{
    for i in 0..v.len()
        invariant
            forall|j: int| 0 <= j < i ==> v@[j] != c,
    {
        if v[i] == c {
            return true;
        }
    }
    false
}

fn contains_alphanumeric(s: &str) -> (r: bool)
    ensures
        r == has_alphanumeric(s@),
{
    let v = chars::chars_of(s);
    for i in 0..v.len()
        invariant
            v@ == s@,
            forall|j: int| 0 <= j < i ==> !chars::alphanumeric(#[trigger] v@[j]),
    {
        if v[i].is_alphanumeric() {
            return true;
        }
    }
    false
}

fn contains_scheme(v: &Vec<char>) -> (r: bool)
    ensures
        r == has_scheme(v@),
{
    let n: usize = v.len();
    let mut i: usize = 0;
    while n - i > 2
        invariant
            i <= n == v@.len(),
            forall|j: int|
                0 <= j < i ==> !(#[trigger] v@[j] == ':' && v@[j + 1] == '/' && v@[j + 2] == '/'),
        decreases n - i,
    {
        if v[i] == ':' && v[i + 1] == '/' && v[i + 2] == '/' {
            return true;
        }
        i += 1;
    }
    false
}

/// A token qualifies as a target if it contains a `/` (the line is optional), or
/// if it is a dotted name with an explicit `:line`. URLs are excluded.
pub fn as_target(tok: &str) -> (r: Option<&str>)
    ensures
        r is Some <==> is_target(tok@),
        r matches Some(t) ==> t@ == tok@,
{
    let v = chars::chars_of(tok);
    if v.len() == 0 || contains_scheme(&v) {
        return None;
    }
    let (base, line, _) = parse_target(tok);
    if qualifies(base, line.is_some(), contains_alphanumeric(base)) {
        Some(tok)
    } else {
        None
    }
}

/// The byte offset at which the trailing `:line[:col]` of a token begins: the
/// token's length in bytes if there is none.
pub fn line_col_start(tok: &str) -> (n: usize)
    ensures
        n == utf8::encode_utf8(
            if parts(tok@).line is Some {
                parts(tok@).base
            } else {
                tok@
            },
        ).len(),
{
    let (base, line, _) = parse_target(tok);
    if line.is_some() {
        chars::byte_len(base)
    } else {
        chars::byte_len(tok)
    }
}

/// Turns a `path[:line[:col]]` token into a Vim target; a token without a line
/// is returned as it is.
pub fn vim_target(tok: &str) -> (r: String)
    ensures
        r@ == vim_form(tok@),
{
    let (base, line, col) = parse_target(tok);
    match (line, col) {
        (Some(l), Some(c)) => {
            let mut s = String::new();
            s.append("+call cursor(");
            decimal::push_decimal(&mut s, l);
            s.append(",");
            decimal::push_decimal(&mut s, c);
            s.append(") ");
            s.append(base);
            assert(s@ =~= vim_form(tok@));
            s
        },
        (Some(l), None) => {
            let mut s = String::new();
            s.append("+");
            decimal::push_decimal(&mut s, l);
            s.append(" ");
            s.append(base);
            assert(s@ =~= vim_form(tok@));
            s
        },
        _ => tok.to_string(),
    }
}

}
