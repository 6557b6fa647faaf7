//! Laws of tokens: taking them apart, recognising them, trimming them.

use vstd::prelude::*;
use vstd::utf8;

use crate::chars;
use crate::decimal;
use crate::laws::numbers;
use crate::target;

verus! {

/// The last `:` of `base:digits` is the one before the digits.
proof fn last_colon_before_digits(base: Seq<char>, digits: Seq<char>)
    requires
        decimal::all_digits(digits) || digits.len() == 0,
    ensures
        target::last_colon(base.push(':') + digits) == base.len(),
    decreases digits.len(),
{
    let s = base.push(':') + digits;
    if digits.len() == 0 {
        assert(s.last() == ':');
    } else {
        assert(s.last() == digits[digits.len() - 1]);
        assert(decimal::is_digit(digits[digits.len() - 1]));
        assert(s.drop_last() =~= base.push(':') + digits.drop_last());
        last_colon_before_digits(base, digits.drop_last());
    }
}

/// Peeling `base:digits` gives `base` and the number that the digits write.
pub proof fn peel_takes_a_number_off(base: Seq<char>, digits: Seq<char>)
    requires
        decimal::is_number(digits),
    ensures
        target::peel(base.push(':') + digits) == Some((base, decimal::number(digits) as u32)),
{
    let s = base.push(':') + digits;
    last_colon_before_digits(base, digits);
    assert(s.skip(base.len() as int + 1) =~= digits);
    assert(s.take(base.len() as int) =~= base);
}

/// The last `:` stands where `last_colon` says.
proof fn last_colon_is_a_colon(s: Seq<char>)
    ensures
        -1 <= target::last_colon(s) < s.len(),
        target::last_colon(s) >= 0 ==> s[target::last_colon(s)] == ':',
    decreases s.len(),
{
    if s.len() > 0 && s.last() != ':' {
        last_colon_is_a_colon(s.drop_last());
    }
}

/// What peeling gives, written out again, is what was peeled.
pub proof fn peel_keeps_the_rest(s: Seq<char>) -> (digits: Seq<char>)
    requires
        target::peel(s) is Some,
    ensures
        decimal::is_number(digits),
        decimal::number(digits) == target::peel(s).unwrap().1,
        s == target::peel(s).unwrap().0.push(':') + digits,
{
    last_colon_is_a_colon(s);
    let i = target::last_colon(s);
    assert(s =~= s.take(i).push(':') + s.skip(i + 1));
    s.skip(i + 1)
}

/// Whatever stands before them, the last two numbers of a token are its line and
/// its column.
pub proof fn last_two_numbers_are_line_and_col(base: Seq<char>, line: u32, col: u32)
    ensures
        target::parts(
            (base.push(':') + decimal::decimal(line as nat)).push(':') + decimal::decimal(
                col as nat,
            ),
        ) == (target::Parts { base, line: Some(line), col: Some(col) }),
{
    decimal::decimal_reads_back(line as nat);
    decimal::decimal_reads_back(col as nat);
    let inner = base.push(':') + decimal::decimal(line as nat);
    peel_takes_a_number_off(inner, decimal::decimal(col as nat));
    peel_takes_a_number_off(base, decimal::decimal(line as nat));
}

/// A number behind something that does not itself end in a number is the line,
/// and there is no column.
pub proof fn a_single_number_is_the_line(base: Seq<char>, line: u32)
    requires
        target::peel(base) is None,
    ensures
        target::parts(base.push(':') + decimal::decimal(line as nat)) == (target::Parts {
            base,
            line: Some(line),
            col: None,
        }),
{
    decimal::decimal_reads_back(line as nat);
    peel_takes_a_number_off(base, decimal::decimal(line as nat));
}

/// Nothing of a token is lost: it is its base, followed by `:line` and `:col` as
/// far as it has them, and there is no column without a line.
pub proof fn parts_make_up_the_token(tok: Seq<char>)
    ensures
        ({
            let p = target::parts(tok);
            match (p.line, p.col) {
                (None, c) => c is None && p.base == tok && target::peel(tok) is None,
                (Some(l), None) => exists|d: Seq<char>|
                    decimal::is_number(d) && decimal::number(d) == l && tok == #[trigger] (
                    p.base.push(':') + d),
                (Some(l), Some(c)) => exists|d: Seq<char>, e: Seq<char>|
                    decimal::is_number(d) && decimal::number(d) == l && decimal::is_number(e)
                        && decimal::number(e) == c && tok == #[trigger] ((p.base.push(':')
                        + d).push(':') + e),
            }
        }),
{
    let p = target::parts(tok);
    if target::peel(tok) is Some {
        let e = peel_keeps_the_rest(tok);
        let b = target::peel(tok).unwrap().0;
        if target::peel(b) is Some {
            let d = peel_keeps_the_rest(b);
            assert(p.base == target::peel(b).unwrap().0);
            assert(tok == (p.base.push(':') + d).push(':') + e);
        } else {
            assert(p.base == b);
            assert(tok == p.base.push(':') + e);
        }
    }
}

/// The base of a token is where the token starts, and takes as many bytes of it
/// as `line_col_start` counts where the token has a line.
pub proof fn base_is_a_prefix(tok: Seq<char>)
    ensures
        ({
            let base = target::parts(tok).base;
            &&& base.len() <= tok.len()
            &&& tok.take(base.len() as int) == base
            &&& utf8::encode_utf8(base).len() <= utf8::encode_utf8(tok).len()
            &&& utf8::encode_utf8(tok).take(utf8::encode_utf8(base).len() as int)
                == utf8::encode_utf8(base)
            &&& target::parts(tok).line is Some ==> base.len() < tok.len() && tok[base.len() as int] == ':'
        }),
{
    let p = target::parts(tok);
    parts_make_up_the_token(tok);
    assert(p.base.len() <= tok.len() && tok.take(p.base.len() as int) =~= p.base && (p.line is Some
        ==> p.base.len() < tok.len() && tok[p.base.len() as int] == ':')) by {
        if p.line is Some {
            if p.col is Some {
                let (d, e) = choose|d: Seq<char>, e: Seq<char>|
                    decimal::is_number(d) && decimal::number(d) == p.line->0 && decimal::is_number(e)
                        && decimal::number(e) == p.col->0 && tok == #[trigger] ((p.base.push(':')
                        + d).push(':') + e);
                assert(tok.take(p.base.len() as int) =~= p.base);
            } else {
                let d = choose|d: Seq<char>|
                    decimal::is_number(d) && decimal::number(d) == p.line->0 && tok == #[trigger] (
                    p.base.push(':') + d);
                assert(tok.take(p.base.len() as int) =~= p.base);
            }
        }
    }
    let rest = tok.skip(p.base.len() as int);
    assert(tok =~= p.base + rest);
    chars::encode_concat(p.base, rest);
    assert(utf8::encode_utf8(tok).take(utf8::encode_utf8(p.base).len() as int)
        =~= utf8::encode_utf8(p.base));
}

/// The Vim form of `base:line:col` moves the cursor to the line and the column.
pub proof fn vim_form_keeps_line_and_col(base: Seq<char>, line: u32, col: u32)
    ensures
        target::vim_form(
            (base.push(':') + decimal::decimal(line as nat)).push(':') + decimal::decimal(
                col as nat,
            ),
        ) == "+call cursor("@ + decimal::decimal(line as nat) + ","@ + decimal::decimal(col as nat)
            + ") "@ + base,
{
    last_two_numbers_are_line_and_col(base, line, col);
}

/// The Vim form of `base:line` goes to the line.
pub proof fn vim_form_keeps_the_line(base: Seq<char>, line: u32)
    requires
        target::peel(base) is None,
    ensures
        target::vim_form(base.push(':') + decimal::decimal(line as nat)) == "+"@ + decimal::decimal(
            line as nat,
        ) + " "@ + base,
{
    a_single_number_is_the_line(base, line);
}

/// A token without a line is its own Vim form.
pub proof fn vim_form_without_a_line_is_verbatim(tok: Seq<char>)
    requires
        target::parts(tok).line is None,
    ensures
        target::vim_form(tok) == tok,
{
}

/// Prose is not matched: a word without a `/` needs an explicit line to be a
/// target, and a URL never is one.
pub proof fn prose_and_urls_are_no_targets(tok: Seq<char>)
    ensures
        !tok.contains('/') && target::parts(tok).line is None ==> !target::is_target(tok),
        target::has_scheme(tok) ==> !target::is_target(tok),
{
    slashes_stand_in_the_base(tok);
}

/// A `/` in a token is a `/` in its base: the line and the column hold none.
pub proof fn slashes_stand_in_the_base(tok: Seq<char>)
    ensures
        tok.contains('/') <==> target::parts(tok).base.contains('/'),
{
    let p = target::parts(tok);
    base_is_a_prefix(tok);
    parts_make_up_the_token(tok);
    if p.base.contains('/') {
        let i = choose|i: int| 0 <= i < p.base.len() && p.base[i] == '/';
        assert(tok.take(p.base.len() as int)[i] == tok[i]);
    }
    if tok.contains('/') {
        let i = choose|i: int| 0 <= i < tok.len() && tok[i] == '/';
        if i < p.base.len() {
            assert(tok.take(p.base.len() as int)[i] == '/');
        } else if p.col is Some {
            let (d, e) = choose|d: Seq<char>, e: Seq<char>|
                decimal::is_number(d) && decimal::number(d) == p.line->0 && decimal::is_number(e)
                    && decimal::number(e) == p.col->0 && tok == #[trigger] ((p.base.push(':')
                    + d).push(':') + e);
            let n = p.base.len() + 1;
            if n <= i < n + d.len() {
                assert(decimal::is_digit(d[i - n]));
            } else if n + d.len() < i {
                assert(decimal::is_digit(e[i - n - d.len() - 1]));
            }
        } else {
            let d = choose|d: Seq<char>|
                decimal::is_number(d) && decimal::number(d) == p.line->0 && tok == #[trigger] (
                p.base.push(':') + d);
            if p.base.len() < i {
                assert(decimal::is_digit(d[i - p.base.len() - 1]));
            }
        }
    }
}

/// What contains a `/` is a target, with or without a line; so is a dotted name
/// with a letter or digit as soon as a line follows it. Nothing else is a target,
/// and neither is a URL.
pub proof fn targets_are_paths_and_dotted_names(tok: Seq<char>)
    ensures
        ({
            let p = target::parts(tok);
            target::is_target(tok) <==> !target::has_scheme(tok) && (tok.contains('/') || (p.line
                is Some && p.base.contains('.') && target::has_alphanumeric(p.base)))
        }),
{
    base_is_a_prefix(tok);
    slashes_stand_in_the_base(tok);
}

/// A trimmed word is a part of the word in one piece, without junk at either end.
pub proof fn trimmed_junk_is_a_clean_part(s: Seq<char>) -> (i: int)
    ensures
        chars::occurs_at(s, target::trimmed_junk(s), i),
        target::trimmed_junk(s).len() > 0 ==> !target::lead_junk()(target::trimmed_junk(s)[0])
            && !target::trail_junk()(target::trimmed_junk(s).last()),
{
    let i = chars::strip_start_is_suffix(s, target::lead_junk());
    let rest = s.skip(i);
    let k = chars::strip_end_is_prefix(rest, target::trail_junk());
    assert(rest.take(k) =~= s.subrange(i, i + k));
    i
}

/// Trimming a trimmed word changes nothing.
pub proof fn trimming_junk_twice_is_trimming_once(s: Seq<char>)
    ensures
        target::trimmed_junk(target::trimmed_junk(s)) == target::trimmed_junk(s),
{
    trimmed_junk_is_a_clean_part(s);
}

/// Digits that write a number of at most 32 bits.
pub open spec fn is_a_number(d: Seq<char>) -> bool {
    numbers::digits_only(d) && decimal::number(d) < 0x1_0000_0000
}

/// The token ends in a `:` and a number.
pub open spec fn ends_in_a_number(tok: Seq<char>) -> bool {
    exists|b: Seq<char>, d: Seq<char>| is_a_number(d) && tok == #[trigger] (b.push(':') + d)
}

/// Peeling finds a number if and only if the token ends in one.
proof fn peeling_finds_numbers(tok: Seq<char>)
    ensures
        target::peel(tok) is Some <==> ends_in_a_number(tok),
{
    if target::peel(tok) is Some {
        let d = peel_keeps_the_rest(tok);
        numbers::numbers_are_digits_that_fit(d);
        let b = target::peel(tok).unwrap().0;
        assert(tok == b.push(':') + d);
    }
    if ends_in_a_number(tok) {
        let (b, d) = choose|b: Seq<char>, d: Seq<char>|
            is_a_number(d) && tok == #[trigger] (b.push(':') + d);
        numbers::numbers_are_digits_that_fit(d);
        peel_takes_a_number_off(b, d);
    }
}

/// The parts of a token that ends in two numbers: what stands before them, the
/// first as the line and the second as the column, whatever zeros they begin with.
pub proof fn two_numbers_are_taken_off(base: Seq<char>, d: Seq<char>, e: Seq<char>)
    requires
        is_a_number(d),
        is_a_number(e),
    ensures
        ({
            let p = target::parts((base.push(':') + d).push(':') + e);
            &&& p.base == base
            &&& p.line == Some(decimal::number(d) as u32)
            &&& p.col == Some(decimal::number(e) as u32)
        }),
{
    numbers::numbers_are_digits_that_fit(d);
    numbers::numbers_are_digits_that_fit(e);
    peel_takes_a_number_off(base.push(':') + d, e);
    peel_takes_a_number_off(base, d);
}

/// The parts of a token that ends in one number: what stands before it, and the
/// number as the line.
pub proof fn one_number_is_taken_off(base: Seq<char>, d: Seq<char>)
    requires
        is_a_number(d),
        !ends_in_a_number(base),
    ensures
        ({
            let p = target::parts(base.push(':') + d);
            &&& p.base == base
            &&& p.line == Some(decimal::number(d) as u32)
            &&& p.col is None
        }),
{
    numbers::numbers_are_digits_that_fit(d);
    peel_takes_a_number_off(base, d);
    peeling_finds_numbers(base);
}

/// A token that does not end in a number is all base.
pub proof fn nothing_else_is_taken_off(tok: Seq<char>)
    requires
        !ends_in_a_number(tok),
    ensures
        target::parts(tok).base == tok,
        target::parts(tok).line is None,
        target::parts(tok).col is None,
{
    peeling_finds_numbers(tok);
}

/// The Vim target of a token that ends in two numbers, in one, or in none.
pub proof fn vim_targets_are_spelled_out(base: Seq<char>, d: Seq<char>, e: Seq<char>)
    requires
        is_a_number(d),
        is_a_number(e),
    ensures
        target::vim_form((base.push(':') + d).push(':') + e) == "+call cursor("@ + decimal::decimal(
            decimal::number(d),
        ) + ","@ + decimal::decimal(decimal::number(e)) + ") "@ + base,
        !ends_in_a_number(base) ==> target::vim_form(base.push(':') + d) == "+"@ + decimal::decimal(
            decimal::number(d),
        ) + " "@ + base,
        !ends_in_a_number(base) ==> target::vim_form(base) == base,
{
    two_numbers_are_taken_off(base, d, e);
    if !ends_in_a_number(base) {
        one_number_is_taken_off(base, d);
        nothing_else_is_taken_off(base);
    }
}

/// The token is made of two parts with `://` between them.
pub open spec fn is_url(tok: Seq<char>) -> bool {
    exists|a: Seq<char>, b: Seq<char>| tok == #[trigger] (a.push(':').push('/').push('/') + b)
}

/// A token with a scheme is one with `://` somewhere in it.
proof fn schemes_are_urls(tok: Seq<char>)
    ensures
        target::has_scheme(tok) <==> is_url(tok),
{
    if target::has_scheme(tok) {
        let i = choose|i: int|
            0 <= i && i + 2 < tok.len() && #[trigger] tok[i] == ':' && tok[i + 1] == '/' && tok[i
                + 2] == '/';
        assert(tok =~= tok.take(i).push(':').push('/').push('/') + tok.skip(i + 3));
    }
    if is_url(tok) {
        let (a, b) = choose|a: Seq<char>, b: Seq<char>|
            tok == #[trigger] (a.push(':').push('/').push('/') + b);
        let i = a.len() as int;
        assert(tok[i] == ':' && tok[i + 1] == '/' && tok[i + 2] == '/');
    }
}

/// Whatever stands before and behind it, a token with `://` in it is not a target.
pub proof fn urls_are_never_targets(a: Seq<char>, b: Seq<char>)
    ensures
        !target::is_target(a.push(':').push('/').push('/') + b),
{
    schemes_are_urls(a.push(':').push('/').push('/') + b);
}

/// Any other token is a target if it has a `/`, and else if and only if it is a
/// name with a dot and with a letter or digit before a line number.
pub proof fn what_is_no_url_can_be_a_target(tok: Seq<char>)
    requires
        !is_url(tok),
    ensures
        (exists|i: int| 0 <= i < tok.len() && #[trigger] tok[i] == '/') ==> target::is_target(tok),
        !(exists|i: int| 0 <= i < tok.len() && #[trigger] tok[i] == '/') ==> (target::is_target(tok)
            <==> {
            let base = target::parts(tok).base;
            &&& ends_in_a_number(tok)
            &&& exists|i: int| 0 <= i < base.len() && #[trigger] base[i] == '.'
            &&& exists|i: int| 0 <= i < base.len() && chars::alphanumeric(#[trigger] base[i])
        }),
{
    schemes_are_urls(tok);
    peeling_finds_numbers(tok);
    targets_are_paths_and_dotted_names(tok);
}

/// A base qualifies by a `/` alone; without one it takes a dot, a letter or digit
/// and a line.
pub proof fn bases_qualify(base: Seq<char>, has_line: bool, has_alphanumeric: bool)
    ensures
        target::qualifying(base, has_line, has_alphanumeric) <==> {
            ||| exists|i: int| 0 <= i < base.len() && #[trigger] base[i] == '/'
            ||| has_line && has_alphanumeric && exists|i: int|
                0 <= i < base.len() && #[trigger] base[i] == '.'
        },
{
}

}
