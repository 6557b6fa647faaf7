use zellij_pick_vim_target::chars::{byte_len, chars_of, find, string_of};
use zellij_pick_vim_target::render::entry;
use zellij_pick_vim_target::text::colored_text;
use zellij_pick_vim_target::{
    keyhints, BareKey, Draw, Event, KeyWithModifier, PaneContents, PaneId, State, Target,
};
use zellij_tile::ui_components::Text;

fn bytes(s: &str) -> String {
    let list: Vec<String> = s.as_bytes().iter().map(|b| b.to_string()).collect();
    list.join(",")
}

fn positions(from: usize, to: usize) -> String {
    let list: Vec<String> = (from..to).map(|i| i.to_string()).collect();
    list.join(",")
}

fn key(bare_key: BareKey) -> Event {
    Event::Key(KeyWithModifier {
        bare_key,
        ctrl: false,
        alt: false,
        shift: false,
        super_key: false,
    })
}

fn picker(lines: &[&str]) -> State {
    let mut s = State::default();
    s.update(Event::PermissionRequestResult(true));
    s.scrollback_read(
        PaneId::Terminal(1),
        Ok(PaneContents {
            lines_above_viewport: vec![],
            viewport: lines.iter().map(|l| l.to_string()).collect(),
            lines_below_viewport: vec![],
        }),
    );
    s
}

fn place(d: &Draw) -> (bool, usize, usize, Option<usize>, Option<usize>) {
    (d.ribbon, d.x, d.y, d.width, d.height)
}

#[test]
fn hints_have_colored_keys() {
    let text = keyhints(&[("^a", "first"), ("Esc", "x")]);
    assert_eq!(text.content(), "^a first  Esc x");
    assert_eq!(text.serialize(), format!("$$$0,1,10,11,12${}", bytes("^a first  Esc x")));
    let text = keyhints(&[]);
    assert_eq!(text.serialize(), "");
    let text = keyhints(&[("\u{2191}", "up")]);
    assert_eq!(text.serialize(), format!("$$$0${}", bytes("\u{2191} up")));
}

#[test]
fn a_text_can_be_colored_as_a_whole() {
    assert_eq!(
        colored_text("h\u{e9}!", 1).serialize(),
        Text::new("h\u{e9}!").color_range(1, ..).serialize()
    );
    assert_eq!(colored_text("h\u{e9}!", 1).serialize(), format!("$0,1,2${}", bytes("h\u{e9}!")));
}

#[test]
fn entries_highlight_the_token() {
    let t = Target { token: "a/b:10:5".to_string(), context: "at a/b:10:5 now".to_string() };
    assert_eq!(
        entry(&t, false).serialize(),
        format!("{}$${}${}", positions(5, 8), positions(8, 13), bytes("  at a/b:10:5 now"))
    );
    assert_eq!(
        entry(&t, true).serialize(),
        format!(
            "x{}$${}${}",
            positions(5, 8),
            positions(8, 13),
            bytes("\u{25b8} at a/b:10:5 now")
        )
    );
    let t = Target { token: "a/b".to_string(), context: "a/b".to_string() };
    assert_eq!(entry(&t, false).serialize(), format!("{}${}", positions(2, 5), bytes("  a/b")));
    // The first occurrence is highlighted; a token that is missing is not.
    let t = Target { token: "a/b".to_string(), context: "xa/b a/b".to_string() };
    assert_eq!(
        entry(&t, false).serialize(),
        format!("{}${}", positions(3, 6), bytes("  xa/b a/b"))
    );
    let t = Target { token: "a/b".to_string(), context: "none".to_string() };
    assert_eq!(entry(&t, false).serialize(), bytes("  none"));
}

#[test]
fn colors_fall_on_characters() {
    let t = Target { token: "\u{e9}/b:10".to_string(), context: "\u{e9}/b:10".to_string() };
    assert_eq!(
        entry(&t, false).serialize(),
        format!("{}$${}${}", positions(2, 5), positions(5, 8), bytes("  \u{e9}/b:10"))
    );
    // Many characters of several bytes each, before the token and in it.
    let token = "\u{e9}\u{e9}\u{e9}\u{e9}/\u{4e2d}:3";
    let context = format!("\u{2191} {}", token);
    let t = Target { token: token.to_string(), context: context.clone() };
    assert_eq!(
        entry(&t, false).serialize(),
        format!(
            "{}$${}${}",
            positions(4, 10),
            positions(10, 12),
            bytes(&format!("  {}", context))
        )
    );
    let t = Target { token: "\u{e9}/b".to_string(), context: "\u{e9}/b".to_string() };
    assert_eq!(
        entry(&t, false).serialize(),
        format!("{}${}", positions(2, 5), bytes("  \u{e9}/b"))
    );
}

#[test]
fn a_drawn_entry_has_path_and_line_in_two_colors() {
    let mut s = picker(&["\u{e9}/b.rs:10"]);
    let drawn = s.render(10, 80);
    assert_eq!(drawn.len(), 4);
    assert_eq!(place(&drawn[3]), (false, 0, 2, Some(80), Some(1)));
    assert_eq!(
        drawn[3].text.serialize(),
        Text::new("\u{25b8} \u{e9}/b.rs:10")
            .color_range(0, 2..8)
            .color_range(2, 8..11)
            .selected()
            .serialize()
    );
}

#[test]
fn without_permission_the_picker_waits() {
    let mut s = State::default();
    let drawn = s.render(10, 40);
    assert_eq!(drawn.len(), 1);
    assert_eq!(place(&drawn[0]), (false, 0, 0, Some(40), None));
    assert_eq!(drawn[0].text.serialize(), bytes("Waiting for permissions..."));
}

#[test]
fn title_search_line_and_footer_are_always_there() {
    let mut s = picker(&[]);
    s.update(key(BareKey::Char('q')));
    let drawn = s.render(10, 40);
    assert_eq!(drawn.len(), 4);
    assert_eq!(place(&drawn[0]), (true, 0, 0, Some(40), Some(1)));
    assert_eq!(drawn[0].text.serialize(), format!("x{}", bytes(" pick vim-target ")));
    assert_eq!(place(&drawn[1]), (false, 0, 1, Some(40), Some(1)));
    assert_eq!(drawn[1].text.serialize(), format!("$$0${}", bytes("> q\u{2588}")));
    assert_eq!(place(&drawn[2]), (false, 0, 9, Some(40), Some(1)));
    assert_eq!(
        drawn[2].text.content(),
        "\u{2191}\u{2193}/^jk navigate  Enter open  ^y copy  Esc close"
    );
    assert_eq!(place(&drawn[3]), (false, 0, 2, Some(40), Some(1)));
    let message = "  No file paths found in scrollback";
    assert_eq!(
        drawn[3].text.serialize(),
        format!("${}${}", positions(0, message.len()), bytes(message))
    );
    // No room for a body.
    assert_eq!(s.render(3, 40).len(), 3);
    let drawn = s.render(0, 0);
    assert_eq!(drawn.len(), 3);
    assert_eq!(drawn[2].y, 0);
}

#[test]
fn the_footer_shows_what_would_be_copied() {
    let mut s = picker(&["in a/b:3:4"]);
    let drawn = s.render(10, 40);
    assert_eq!(
        drawn[2].text.serialize(),
        format!(
            "$$$0,9,10${}",
            bytes("\u{23ce} open   ^y copy: +call cursor(3,4) a/b")
        )
    );
    s.update(key(BareKey::Char('!')));
    let drawn = s.render(10, 40);
    assert_eq!(drawn.len(), 4);
    assert!(drawn[2].text.content().ends_with("Esc close"));
    assert_eq!(drawn[3].text.content(), "  No matches");
    s.scrollback_read(PaneId::Terminal(1), Err("no".to_string()));
    let drawn = s.render(10, 40);
    let message = "Couldn't read scrollback: no";
    assert_eq!(
        drawn[2].text.serialize(),
        format!("${}${}", positions(0, message.len()), bytes(message))
    );
}

#[test]
fn the_list_scrolls_to_the_selection() {
    let mut s = picker(&["a/5", "a/4", "a/3", "a/2", "a/1"]);
    // Two lines for the list.
    let shown = |s: &mut State| -> Vec<(String, usize, bool)> {
        s.render(5, 20)
            .into_iter()
            .skip(3)
            .map(|d| {
                (d.text.content().to_string(), d.y, d.text.serialize().starts_with('x'))
            })
            .collect()
    };
    let entry = |name: &str, y: usize, selected: bool| -> (String, usize, bool) {
        let marker = if selected { "\u{25b8} " } else { "  " };
        (format!("{}{}", marker, name), y, selected)
    };
    assert_eq!(shown(&mut s), vec![entry("a/1", 2, true), entry("a/2", 3, false)]);
    s.update(key(BareKey::Down));
    assert_eq!(shown(&mut s), vec![entry("a/1", 2, false), entry("a/2", 3, true)]);
    s.update(key(BareKey::Down));
    assert_eq!(shown(&mut s), vec![entry("a/2", 2, false), entry("a/3", 3, true)]);
    assert_eq!(s.scroll_offset, 1);
    // Drawing again draws the same.
    assert_eq!(shown(&mut s), vec![entry("a/2", 2, false), entry("a/3", 3, true)]);
    s.update(key(BareKey::Up));
    assert_eq!(shown(&mut s), vec![entry("a/2", 2, true), entry("a/3", 3, false)]);
    s.update(key(BareKey::Up));
    assert_eq!(shown(&mut s), vec![entry("a/1", 2, true), entry("a/2", 3, false)]);
    assert_eq!(s.scroll_offset, 0);
    for _ in 0..9 {
        s.update(key(BareKey::Down));
    }
    assert_eq!(shown(&mut s), vec![entry("a/4", 2, false), entry("a/5", 3, true)]);
    // A filter shortens the list and selects its top.
    s.update(key(BareKey::Char('2')));
    assert_eq!(shown(&mut s), vec![entry("a/2", 2, true)]);
}

#[test]
fn parts_are_found_by_character() {
    assert_eq!(find("\u{e9}\u{e9}a/b", "a/b"), Some(2));
    assert_eq!(find("abab", "bab"), Some(1));
    assert_eq!(find("abab", "ba"), Some(1));
    assert_eq!(find("ab", "abc"), None);
    assert_eq!(find("ab", "c"), None);
    assert_eq!(find("ab", ""), Some(0));
    assert_eq!(find("", ""), Some(0));
}

#[test]
fn strings_are_their_characters() {
    assert_eq!(chars_of("a\u{e9}"), vec!['a', '\u{e9}']);
    assert_eq!(string_of(&vec!['x', '\u{e9}', 'z'], 1, 3), "\u{e9}z");
    assert_eq!(string_of(&vec!['x'], 1, 1), "");
    assert_eq!(byte_len("a\u{e9}\u{2588}"), 6);
    assert_eq!(byte_len(""), 0);
}
