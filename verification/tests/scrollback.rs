use zellij_pick_vim_target::scrollback::{split_words, trim, Collector};
use zellij_pick_vim_target::{extract_targets, PaneContents};

fn pane(lines: &[&str]) -> PaneContents {
    PaneContents {
        lines_above_viewport: vec![],
        viewport: lines.iter().map(|l| l.to_string()).collect(),
        lines_below_viewport: vec![],
    }
}

fn listed(contents: &PaneContents) -> Vec<(String, String)> {
    extract_targets(contents)
        .into_iter()
        .map(|t| (t.token, t.context))
        .collect()
}

#[test]
fn words_are_split_at_any_blank() {
    assert_eq!(split_words("  a/b\t c:1\u{a0}d\n"), vec!["a/b", "c:1", "d"]);
    assert_eq!(split_words(""), Vec::<String>::new());
    assert_eq!(split_words(" \t "), Vec::<String>::new());
    assert_eq!(split_words("one"), vec!["one"]);
    assert_eq!(split_words("x\u{2003}y\u{3000}z"), vec!["x", "y", "z"]);
    assert_eq!(split_words("x\u{200b}y"), vec!["x\u{200b}y"]);
}

#[test]
fn blanks_around_a_line_are_trimmed() {
    assert_eq!(trim("  a b\t\n"), "a b");
    assert_eq!(trim("\u{2003}x\u{a0}"), "x");
    assert_eq!(trim(" \t"), "");
    assert_eq!(trim(""), "");
}

#[test]
fn the_context_is_the_most_recent_line() {
    let got = listed(&pane(&["  old a/b:1 here", "b/c between", "  new a/b:1 there  "]));
    assert_eq!(
        got,
        vec![
            ("a/b:1".to_string(), "new a/b:1 there".to_string()),
            ("b/c".to_string(), "b/c between".to_string()),
        ]
    );
}

#[test]
fn targets_of_one_line_keep_their_order() {
    let got = listed(&pane(&["x/1 y/2 x/1 z/3"]));
    let tokens: Vec<String> = got.iter().map(|t| t.0.clone()).collect();
    assert_eq!(tokens, vec!["x/1", "y/2", "z/3"]);
    assert!(got.iter().all(|t| t.1 == "x/1 y/2 x/1 z/3"));
}

#[test]
fn lines_below_come_before_lines_above() {
    let contents = PaneContents {
        lines_above_viewport: vec!["a/1".to_string(), "a/2".to_string()],
        viewport: vec!["v/1".to_string(), "v/2".to_string()],
        lines_below_viewport: vec!["b/1".to_string(), "b/2".to_string()],
    };
    let tokens: Vec<String> = listed(&contents).into_iter().map(|t| t.0).collect();
    assert_eq!(tokens, vec!["b/2", "b/1", "v/2", "v/1", "a/2", "a/1"]);
}

#[test]
fn every_token_occurs_in_its_context_and_once() {
    let got = listed(&pane(&[
        "  at Object.<anonymous> (/home/u/x.js:3:1)",
        "see '../y/z.txt', \"q.rs:9\" and https://e.com/a/b",
        "[1/2] a/b a/b. (a/b)",
    ]));
    let tokens: Vec<&str> = got.iter().map(|t| t.0.as_str()).collect();
    assert_eq!(tokens, vec!["1/2", "a/b", "../y/z.txt", "q.rs:9", "/home/u/x.js:3:1"]);
    assert!(got.iter().all(|t| t.1.contains(&t.0)));
}

#[test]
fn an_added_line_comes_first() {
    let lines = ["a/1 b/2", "c/3 and d.e:4", "b/2 again"];
    let before = listed(&pane(&lines));
    let after = listed(&pane(&[lines[0], lines[1], lines[2], " new/5 c/3 new/5 "]));
    let own = "new/5 c/3 new/5".to_string();
    let mut expected =
        vec![("new/5".to_string(), own.clone()), ("c/3".to_string(), own.clone())];
    expected.extend(before.into_iter().filter(|t| t.0 != "new/5" && t.0 != "c/3"));
    assert_eq!(after, expected);
    let tokens: Vec<&str> = after.iter().map(|t| t.0.as_str()).collect();
    assert_eq!(tokens, vec!["new/5", "c/3", "b/2", "d.e:4", "a/1"]);
    assert_eq!(after[3].1, "c/3 and d.e:4");
}

#[test]
fn nothing_comes_of_nothing() {
    assert!(listed(&pane(&[])).is_empty());
    assert!(listed(&pane(&["", "   ", "just prose."])).is_empty());
}

#[test]
fn collecting_words_skips_what_was_seen() {
    let mut c = Collector::new();
    c.add_words(&vec!["(a/b)".to_string(), "no".to_string(), "c.d:1,".to_string()], "first");
    c.add_words(&vec!["a/b".to_string(), "e/f".to_string()], "second");
    let got: Vec<(String, String)> =
        c.targets.into_iter().map(|t| (t.token, t.context)).collect();
    assert_eq!(
        got,
        vec![
            ("a/b".to_string(), "first".to_string()),
            ("c.d:1".to_string(), "first".to_string()),
            ("e/f".to_string(), "second".to_string()),
        ]
    );
}

#[test]
fn a_cloned_target_is_the_same() {
    let got = extract_targets(&pane(&["in a/b:3"]));
    let copy = got[0].clone();
    assert_eq!(copy.token, "a/b:3");
    assert_eq!(copy.context, "in a/b:3");
}
