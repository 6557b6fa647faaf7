//! Styled text. `zellij_tile` holds it in a `Text`: a string, two flags, and for
//! each color level a collection of the positions that have the color.

use vstd::prelude::*;
use vstd::utf8;
use zellij_tile::ui_components::Text;

use crate::chars;

verus! {

#[verifier::external_type_specification]
#[verifier::external_body]
pub struct ExText(Text);

/// The characters of a text.
pub uninterp spec fn text_content(text: Text) -> Seq<char>;

/// Whether a text is selected.
pub uninterp spec fn text_selected(text: Text) -> bool;

/// Whether a text has an opaque background.
pub uninterp spec fn text_opaque(text: Text) -> bool;

/// For each color level, the positions that have the color, in the order in
/// which they were given it.
pub uninterp spec fn text_levels(text: Text) -> Seq<Seq<usize>>;

/// What a text holds.
#[verifier::ext_equal]
pub struct TextModel {
    pub content: Seq<char>,
    pub selected: bool,
    pub opaque: bool,
    pub levels: Seq<Seq<usize>>,
}

/// What a text holds.
pub open spec fn text_model(text: Text) -> TextModel {
    TextModel {
        content: text_content(text),
        selected: text_selected(text),
        opaque: text_opaque(text),
        levels: text_levels(text),
    }
}

/// The positions from `start` up to `end`.
pub open spec fn positions(start: usize, end: usize) -> Seq<usize> {
    Seq::new(
        if start <= end {
            (end - start) as nat
        } else {
            0
        },
        |i: int| (start + i) as usize,
    )
}

/// The levels with empty ones behind them, so that there are at least `n`.
pub open spec fn padded(levels: Seq<Seq<usize>>, n: nat) -> Seq<Seq<usize>> {
    if n <= levels.len() {
        levels
    } else {
        Seq::new(
            n,
            |i: int|
                if i < levels.len() {
                    levels[i]
                } else {
                    Seq::empty()
                },
        )
    }
}

/// The levels after the positions from `start` up to `end` were given a color.
pub open spec fn painted(levels: Seq<Seq<usize>>, level: u8, start: usize, end: usize) -> Seq<
    Seq<usize>,
> {
    let all = padded(levels, level as nat + 1);
    all.update(level as int, all[level as int] + positions(start, end))
}

/// A text that is not selected and has no color.
pub open spec fn plain(content: Seq<char>) -> TextModel {
    TextModel { content, selected: false, opaque: false, levels: Seq::empty() }
}

impl TextModel {
    /// The text with a color on the positions from `start` up to `end`.
    pub open spec fn colored(self, level: u8, start: usize, end: usize) -> TextModel {
        TextModel { levels: painted(self.levels, level, start, end), ..self }
    }

    /// The text, selected.
    pub open spec fn chosen(self) -> TextModel {
        TextModel { selected: true, ..self }
    }
}

/// `Text::new`: a text of the given characters, neither selected nor opaque and
/// without any color.
#[verifier::external_body]
pub(crate) fn new_text(content: &str) -> (text: Text)
    ensures
        text_content(text) == content@,
        text_selected(text) == false,
        text_opaque(text) == false,
        text_levels(text) == Seq::<Seq<usize>>::empty(),
{
    Text::new(content)
}

/// `Text::color_range`: the positions from `start` up to `end` go to the end of
/// the color level, and missing levels up to it are added empty; the characters
/// and the flags stay. The range is one that is no longer than the bytes of
/// the text, so that what is allocated for it is in proportion to the text.
#[verifier::external_body]
pub(crate) fn color_range(text: Text, level: u8, start: usize, end: usize) -> (r: Text)
    requires
        start <= end <= utf8::encode_utf8(text_content(text)).len(),
    ensures
        text_content(r) == text_content(text),
        text_selected(r) == text_selected(text),
        text_opaque(r) == text_opaque(text),
        text_levels(r) == painted(text_levels(text), level, start, end),
{
    text.color_range(level as usize, start..end)
}

/// `Text::selected`: the text becomes selected; all else of it stays.
#[verifier::external_body]
pub(crate) fn select(text: Text) -> (r: Text)
    ensures
        text_content(r) == text_content(text),
        text_selected(r) == true,
        text_opaque(r) == text_opaque(text),
        text_levels(r) == text_levels(text),
{
    text.selected()
}

/// A text with a color on all of its characters.
pub fn colored_text(content: &str, level: u8) -> (r: Text)
    ensures
        text_model(r) == plain(content@).colored(level, 0, content@.len() as usize),
{
    let n: usize = content.unicode_len();
    proof {
        chars::encode_at_least_chars(content@);
    }
    color_range(new_text(content), level, 0, n)
}

/// The characters of each key and its label.
pub open spec fn hint_views(pairs: Seq<(&str, &str)>) -> Seq<(Seq<char>, Seq<char>)> {
    Seq::new(pairs.len(), |i: int| (pairs[i].0@, pairs[i].1@))
}

/// The hints in one line: each key, a space and its label, with two spaces
/// between one label and the next key.
pub open spec fn hint_line(hints: Seq<(Seq<char>, Seq<char>)>) -> Seq<char>
    decreases hints.len(), 1int,
{
    if hints.len() == 0 {
        Seq::empty()
    } else {
        hint_prefix(hints) + hints.last().0 + " "@ + hints.last().1
    }
}

/// What stands before the last key.
pub open spec fn hint_prefix(hints: Seq<(Seq<char>, Seq<char>)>) -> Seq<char>
    decreases hints.len(), 0int,
{
    if hints.len() <= 1 {
        Seq::empty()
    } else {
        hint_line(hints.drop_last()) + "  "@
    }
}

/// The colors of the hints: level 3 on each key.
pub open spec fn hint_levels(hints: Seq<(Seq<char>, Seq<char>)>) -> Seq<Seq<usize>>
    decreases hints.len(),
{
    if hints.len() == 0 {
        Seq::empty()
    } else {
        let start = hint_prefix(hints).len();
        painted(
            hint_levels(hints.drop_last()),
            3,
            start as usize,
            (start + hints.last().0.len()) as usize,
        )
    }
}

/// A line of key hints: the names of the keys are colored, their labels plain.
pub fn keyhints(pairs: &[(&str, &str)]) -> (r: Text)
    ensures
        text_model(r) == (TextModel {
            content: hint_line(hint_views(pairs@)),
            selected: false,
            opaque: false,
            levels: hint_levels(hint_views(pairs@)),
        }),
{
    let ghost hints = hint_views(pairs@);
    let n: usize = pairs.len();
    let mut s = String::new();
    let mut ranges: Vec<(usize, usize)> = Vec::new();
    assert(hints.take(0) =~= Seq::empty());
    for i in 0..n
        invariant
            n == pairs@.len(),
            hints == hint_views(pairs@),
            s@ == hint_line(hints.take(i as int)),
            ranges@.len() == i,
            forall|j: int|
                0 <= j < i ==> {
                    let start = hint_prefix(hints.take(j + 1)).len();
                    &&& (#[trigger] ranges@[j]).0 == start
                    &&& ranges@[j].1 == start + hints[j].0.len()
                    &&& ranges@[j].1 <= s@.len()
                },
    {
        let ghost now = hints.take(i + 1);
        let ghost before = s@;
        assert(now.drop_last() =~= hints.take(i as int));
        assert(now.last() == hints[i as int]);
        if i > 0 {
            s.append("  ");
        }
        assert(s@ =~= hint_prefix(now));
        let start: usize = s.as_str().unicode_len();
        s.append(pairs[i].0);
        let end: usize = s.as_str().unicode_len();
        ranges.push((start, end));
        s.append(" ");
        s.append(pairs[i].1);
        assert(s@ =~= hint_line(now));
        assert(before.len() <= s@.len());
    }
    assert(hints.take(n as int) =~= hints);
    let mut text = new_text(s.as_str());
    proof {
        chars::encode_at_least_chars(s@);
    }
    for i in 0..n
        invariant
            n == pairs@.len() == hints.len() == ranges@.len(),
            s@ == hint_line(hints),
            utf8::encode_utf8(s@).len() >= s@.len(),
            text_content(text) == s@,
            !text_selected(text),
            !text_opaque(text),
            text_levels(text) == hint_levels(hints.take(i as int)),
            forall|j: int|
                0 <= j < n ==> {
                    let start = hint_prefix(hints.take(j + 1)).len();
                    &&& (#[trigger] ranges@[j]).0 == start
                    &&& ranges@[j].1 == start + hints[j].0.len()
                    &&& ranges@[j].1 <= s@.len()
                },
    {
        assert(hints.take(i + 1).drop_last() =~= hints.take(i as int));
        assert(hints.take(i + 1).last() == hints[i as int]);
        let (start, end) = ranges[i];
        text = color_range(text, 3, start, end);
    }
    text
}

}
