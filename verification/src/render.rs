//! What the picker shows: a title, the search line, a footer, and the matching
//! targets between them.

use vstd::prelude::*;
use vstd::utf8;
use zellij_tile::ui_components::Text;

use crate::chars;
use crate::scrollback::{Target, TargetModel};
use crate::state::{State, StateModel};
use crate::target;
use crate::text;
use crate::text::TextModel;

verus! {

/// A text at a place on the screen.
pub struct Draw {
    /// Whether the text is drawn as a ribbon.
    pub ribbon: bool,
    pub text: Text,
    pub x: usize,
    pub y: usize,
    pub width: Option<usize>,
    pub height: Option<usize>,
}

/// A text at a place on the screen, over mathematical values.
#[verifier::ext_equal]
pub struct DrawModel {
    pub ribbon: bool,
    pub text: TextModel,
    pub x: usize,
    pub y: usize,
    pub width: Option<usize>,
    pub height: Option<usize>,
}

impl View for Draw {
    type V = DrawModel;

    open spec fn view(&self) -> DrawModel {
        DrawModel {
            ribbon: self.ribbon,
            text: text::text_model(self.text),
            x: self.x,
            y: self.y,
            width: self.width,
            height: self.height,
        }
    }
}

/// What is drawn, in order.
pub open spec fn draws(v: Seq<Draw>) -> Seq<DrawModel> {
    Seq::new(v.len(), |i: int| v[i]@)
}

/// A text in a line of its own, over the whole width.
pub open spec fn in_line(text: TextModel, y: usize, cols: usize) -> DrawModel {
    DrawModel { ribbon: false, text, x: 0, y, width: Some(cols), height: Some(1) }
}

/// A text with a color on all of its characters.
pub open spec fn all_colored(content: Seq<char>, level: u8) -> TextModel {
    text::plain(content).colored(level, 0, content.len() as usize)
}

/// The number of lines between the search line and the footer.
pub open spec fn body_height(rows: usize) -> usize {
    if rows >= 3 {
        (rows - 3) as usize
    } else {
        0
    }
}

/// What is shown while the permissions are not granted.
pub open spec fn waiting_draw(cols: usize) -> DrawModel {
    DrawModel {
        ribbon: false,
        text: text::plain("Waiting for permissions..."@),
        x: 0,
        y: 0,
        width: Some(cols),
        height: None,
    }
}

/// The title.
pub open spec fn title_draw(cols: usize) -> DrawModel {
    DrawModel {
        ribbon: true,
        text: text::plain(" pick vim-target "@).chosen(),
        x: 0,
        y: 0,
        width: Some(cols),
        height: Some(1),
    }
}

/// The search line: the query between a prompt and a block cursor.
pub open spec fn search_draw(query: Seq<char>, cols: usize) -> DrawModel {
    in_line(text::plain("> "@ + query + "\u{2588}"@).colored(2, 0, 1), 1, cols)
}

/// The hints for the keys.
pub open spec fn key_hints() -> Seq<(Seq<char>, Seq<char>)> {
    seq![
        ("↑↓/^jk"@, "navigate"@),
        ("Enter"@, "open"@),
        ("^y"@, "copy"@),
        ("Esc"@, "close"@),
    ]
}

/// The footer: the status, or else what would be copied, or else the key hints.
pub open spec fn footer_text(s: StateModel) -> TextModel {
    match (s.status, s.selected_token()) {
        (Some(message), _) => all_colored(message, 1),
        (None, Some(token)) => text::plain("⏎ open   ^y copy: "@ + target::vim_form(token)).colored(
            3,
            0,
            1,
        ).colored(3, 9, 11),
        (None, None) => TextModel {
            content: text::hint_line(key_hints()),
            selected: false,
            opaque: false,
            levels: text::hint_levels(key_hints()),
        },
    }
}

/// The footer in the last line.
pub open spec fn footer_draw(s: StateModel, rows: usize, cols: usize) -> DrawModel {
    in_line(
        footer_text(s),
        if rows >= 1 {
            (rows - 1) as usize
        } else {
            0
        },
        cols,
    )
}

/// What stands before a target in the list.
pub open spec fn marker(is_selected: bool) -> Seq<char> {
    if is_selected {
        "▸ "@
    } else {
        "  "@
    }
}

/// Where, from the start of a token, the color of its tail begins: the number of
/// characters before `:line[:col]`.
pub open spec fn tail_offset(token: Seq<char>) -> nat {
    target::parts(token).base.len()
}

/// The colors of a list entry whose token begins at `start`: level 0 up to the
/// tail of the token, level 2 on the rest of it.
pub open spec fn with_token_colors(text: TextModel, token: Seq<char>, start: nat) -> TextModel {
    let boundary = start + tail_offset(token);
    let end = start + token.len();
    let path_colored = text.colored(0, start as usize, boundary as usize);
    if boundary < end {
        path_colored.colored(2, boundary as usize, end as usize)
    } else {
        path_colored
    }
}

/// A list entry: the whole context of the target, with its token highlighted.
pub open spec fn entry_text(t: TargetModel, is_selected: bool) -> TextModel {
    let line = text::plain(marker(is_selected) + t.context);
    let highlighted = match chars::first_occurrence(t.context, t.token) {
        Some(b) => with_token_colors(line, t.token, 2 + b),
        None => line,
    };
    if is_selected {
        highlighted.chosen()
    } else {
        highlighted
    }
}

/// The entry of the match at position `row` of all matches, in line `y`.
pub open spec fn entry_draw(s: StateModel, row: int, y: usize, cols: usize) -> DrawModel {
    in_line(
        entry_text(s.targets[s.filtered()[row] as int], row == s.selected),
        y,
        cols,
    )
}

/// The first match to show in `height` lines: as before, unless the selection
/// would be out of sight.
pub open spec fn scrolled(selected: usize, offset: usize, height: usize) -> usize {
    if selected < offset {
        selected
    } else if selected >= offset + height {
        (selected + 1 - height) as usize
    } else {
        offset
    }
}

/// Whether there are matches and room to show them.
pub open spec fn shows_list(s: StateModel, rows: usize) -> bool {
    s.permissions_granted && body_height(rows) > 0 && s.targets.len() > 0 && s.filtered().len() > 0
}

/// The picker after it was drawn: the list may have been scrolled.
pub open spec fn rendered(s: StateModel, rows: usize) -> StateModel {
    if shows_list(s, rows) {
        StateModel {
            scroll_offset: scrolled(s.selected, s.scroll_offset, body_height(rows)),
            ..s
        }
    } else {
        s
    }
}

/// The number of matches that are shown.
pub open spec fn shown(s: StateModel, rows: usize) -> nat {
    let left = s.filtered().len() - s.scroll_offset;
    if left <= 0 {
        0
    } else if left <= body_height(rows) {
        left as nat
    } else {
        body_height(rows) as nat
    }
}

/// The list: one entry in each line.
pub open spec fn list_draws(s: StateModel, rows: usize, cols: usize) -> Seq<DrawModel> {
    Seq::new(
        shown(s, rows),
        |i: int| entry_draw(s, s.scroll_offset + i, (2 + i) as usize, cols),
    )
}

/// What stands between the search line and the footer.
pub open spec fn body_draws(s: StateModel, rows: usize, cols: usize) -> Seq<DrawModel> {
    if body_height(rows) == 0 {
        Seq::empty()
    } else if s.targets.len() == 0 {
        seq![in_line(all_colored("  No file paths found in scrollback"@, 1), 2, cols)]
    } else if s.filtered().len() == 0 {
        seq![in_line(all_colored("  No matches"@, 1), 2, cols)]
    } else {
        list_draws(rendered(s, rows), rows, cols)
    }
}

/// All that is drawn, in order.
pub open spec fn frame(s: StateModel, rows: usize, cols: usize) -> Seq<DrawModel> {
    if !s.permissions_granted {
        seq![waiting_draw(cols)]
    } else {
        seq![title_draw(cols), search_draw(s.query, cols), footer_draw(s, rows, cols)] + body_draws(
            s,
            rows,
            cols,
        )
    }
}

fn line(text: Text, y: usize, cols: usize) -> (r: Draw)
    ensures
        r@ == in_line(text::text_model(text), y, cols),
{
    Draw { ribbon: false, text, x: 0, y, width: Some(cols), height: Some(1) }
}

/// A line has at least as many bytes as there are characters up to the tail of a
/// token in it, and up to the token's end.
proof fn token_fits(before: Seq<char>, token: Seq<char>, after: Seq<char>)
    ensures
        ({
            let bytes = utf8::encode_utf8(before + token + after).len();
            &&& before.len() + tail_offset(token) <= bytes
            &&& before.len() + token.len() <= bytes
        }),
{
    crate::laws::tokens::base_is_a_prefix(token);
    chars::encode_concat(before + token, after);
    chars::encode_concat(before, token);
    chars::encode_at_least_chars(before);
    chars::encode_at_least_chars(token);
}

/// A list entry: the whole context of the target, with its token highlighted.
pub fn entry(t: &Target, is_selected: bool) -> (r: Text)
    ensures
        text::text_model(r) == entry_text(t@, is_selected),
{
    let mut content = String::new();
    content.append(if is_selected { "▸ " } else { "  " });
    content.append(t.context.as_str());
    proof {
        reveal_strlit("▸ ");
        reveal_strlit("  ");
    }
    assert(content@ =~= marker(is_selected) + t.context@);
    // No position in the content is beyond the range of a `usize`.
    let _bytes: usize = chars::byte_len(content.as_str());
    let mut text = text::new_text(content.as_str());
    if let Some(b) = chars::find(t.context.as_str(), t.token.as_str()) {
        proof {
            chars::first_from_is_first(t.context@, t.token@, 0);
            let before = marker(is_selected) + t.context@.take(b as int);
            let after = t.context@.skip(b + t.token@.len());
            assert(before + t.token@ + after =~= content@);
            token_fits(before, t.token@, after);
        }
        let start: usize = 2 + b;
        let (base, _, _) = target::parse_target(t.token.as_str());
        let boundary: usize = start + base.unicode_len();
        let end: usize = start + t.token.as_str().unicode_len();
        text = text::color_range(text, 0, start, boundary);
        if boundary < end {
            text = text::color_range(text, 2, boundary, end);
        }
    }
    if is_selected {
        text = text::select(text);
    }
    text
}

impl State {
    /// The footer: the status, or else what would be copied, or else key hints.
    fn footer(&self) -> (r: Text)
        ensures
            text::text_model(r) == footer_text(self@),
    {
        if let Some(message) = &self.status {
            return text::colored_text(message.as_str(), 1);
        }
        match self.copy_selected() {
            Some(target) => {
                let mut content = String::new();
                content.append("⏎ open   ^y copy: ");
                content.append(target.as_str());
                proof {
                    reveal_strlit("⏎ open   ^y copy: ");
                    chars::encode_at_least_chars(content@);
                }
                assert(content@ =~= "⏎ open   ^y copy: "@ + target@);
                let text = text::color_range(text::new_text(content.as_str()), 3, 0, 1);
                text::color_range(text, 3, 9, 11)
            },
            None => {
                let pairs = [
                    ("↑↓/^jk", "navigate"),
                    ("Enter", "open"),
                    ("^y", "copy"),
                    ("Esc", "close"),
                ];
                assert(text::hint_views(pairs@) =~= key_hints());
                text::keyhints(&pairs)
            },
        }
    }

    /// The entries of the matching targets that are shown, from `scroll_offset` on.
    fn list(&self, rows: usize, cols: usize) -> (r: Vec<Draw>)
        ensures
            draws(r@) == list_draws(self@, rows, cols),
    {
        let positions = self.filtered();
        let height: usize = if rows >= 3 { rows - 3 } else { 0 };
        let mut r: Vec<Draw> = Vec::new();
        let mut i: usize = 0;
        proof {
            assert(self@.targets.len() == self.targets.len());
            self@.filtered_is_in_range();
        }
        while i < height && self.scroll_offset < positions.len() && i < positions.len()
            - self.scroll_offset
            invariant
                positions@ == self@.filtered(),
                height == body_height(rows),
                forall|k: int| 0 <= k < positions@.len() ==> #[trigger] positions@[k]
                    < self.targets@.len(),
                i <= shown(self@, rows),
                r@.len() == i,
                forall|k: int|
                    0 <= k < i ==> (#[trigger] r@[k])@ == entry_draw(
                        self@,
                        self.scroll_offset + k,
                        (2 + k) as usize,
                        cols,
                    ),
            decreases height - i,
        {
            let row: usize = self.scroll_offset + i;
            let t = &self.targets[positions[row]];
            r.push(line(entry(t, row == self.selected), 2 + i, cols));
            i += 1;
        }
        assert(draws(r@) =~= list_draws(self@, rows, cols));
        r
    }

    /// Draws the picker on a screen of the given size. The list is scrolled only
    /// as far as it takes to show the selection.
    pub fn render(&mut self, rows: usize, cols: usize) -> (r: Vec<Draw>)
        ensures
            draws(r@) == frame(old(self)@, rows, cols),
            final(self)@ == rendered(old(self)@, rows),
    {
        let mut r: Vec<Draw> = Vec::new();
        if !self.permissions_granted {
            let waiting = text::new_text("Waiting for permissions...");
            r.push(
                Draw { ribbon: false, text: waiting, x: 0, y: 0, width: Some(cols), height: None },
            );
            assert(draws(r@) =~= frame(old(self)@, rows, cols));
            return r;
        }
        let title = text::select(text::new_text(" pick vim-target "));
        r.push(
            Draw { ribbon: true, text: title, x: 0, y: 0, width: Some(cols), height: Some(1) },
        );
        let mut search = String::new();
        search.append("> ");
        search.append(self.query.as_str());
        search.append("\u{2588}");
        assert(search@ =~= "> "@ + self.query@ + "\u{2588}"@);
        proof {
            reveal_strlit("> ");
            chars::encode_at_least_chars(search@);
        }
        let search_text = text::color_range(text::new_text(search.as_str()), 2, 0, 1);
        r.push(line(search_text, 1, cols));
        let footer_y: usize = if rows >= 1 { rows - 1 } else { 0 };
        r.push(line(self.footer(), footer_y, cols));
        let height: usize = if rows >= 3 { rows - 3 } else { 0 };
        if height == 0 {
            assert(draws(r@) =~= frame(old(self)@, rows, cols));
            return r;
        }
        if self.targets.len() == 0 {
            r.push(line(text::colored_text("  No file paths found in scrollback", 1), 2, cols));
            assert(draws(r@) =~= frame(old(self)@, rows, cols));
            return r;
        }
        if self.filtered().len() == 0 {
            r.push(line(text::colored_text("  No matches", 1), 2, cols));
            assert(draws(r@) =~= frame(old(self)@, rows, cols));
            return r;
        }
        if self.selected < self.scroll_offset {
            self.scroll_offset = self.selected;
        } else if self.selected - self.scroll_offset >= height {
            self.scroll_offset = self.selected - (height - 1);
        }
        assert(self@ == rendered(old(self)@, rows));
        let mut entries = self.list(rows, cols);
        let ghost above = r@;
        let ghost below = entries@;
        r.append(&mut entries);
        assert(draws(r@) =~= draws(above) + draws(below));
        assert(draws(r@) =~= frame(old(self)@, rows, cols));
        r
    }
}

}
