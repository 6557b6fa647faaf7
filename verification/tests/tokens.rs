use zellij_pick_vim_target::decimal::{parse_number, push_decimal};
use zellij_pick_vim_target::fuzzy::filter;
use zellij_pick_vim_target::target::qualifies;
use zellij_pick_vim_target::{
    as_target, extract_targets, line_col_start, parse_target, subsequence, trim_junk, vim_target,
    PaneContents,
};

#[test]
fn transforms_match_the_tmux_script() {
    assert_eq!(
        vim_target("src/util/lib.ts:450:12"),
        "+call cursor(450,12) src/util/lib.ts"
    );
    assert_eq!(vim_target("/Users/z/.config/.zshrc:21"), "+21 /Users/z/.config/.zshrc");
    assert_eq!(vim_target("main.go:42"), "+42 main.go");
    // No line number: copied verbatim.
    assert_eq!(vim_target("src/foo/bar.rs"), "src/foo/bar.rs");
}

#[test]
fn parse_peels_line_and_col() {
    assert_eq!(parse_target("a/b.rs:10:5"), ("a/b.rs", Some(10), Some(5)));
    assert_eq!(parse_target("a/b.rs:10"), ("a/b.rs", Some(10), None));
    assert_eq!(parse_target("a/b.rs"), ("a/b.rs", None, None));
    // A trailing non-numeric ":" is not a line number.
    assert_eq!(parse_target("a/b.rs:foo"), ("a/b.rs:foo", None, None));
    // Only the last two numeric segments are line/col.
    assert_eq!(parse_target("a:1:2:3"), ("a:1", Some(2), Some(3)));
}

#[test]
fn qualifies_paths_and_dotted_files_with_lines() {
    // Paths (slash) qualify with or without a line.
    assert!(as_target("src/util/lib.ts:450:12").is_some());
    assert!(as_target("src/foo/bar.rs").is_some());
    assert!(as_target("./scripts/build.rs:10").is_some());
    // A bare dotted filename qualifies only with an explicit line.
    assert!(as_target("main.go:42").is_some());
    assert!(as_target("word.txt").is_none());
    // Prose and URLs are rejected.
    assert!(as_target("hello").is_none());
    assert!(as_target("https://example.com").is_none());
    assert!(as_target("").is_none());
}

#[test]
fn trims_surrounding_punctuation() {
    assert_eq!(trim_junk("(src/foo.rs:3),"), "src/foo.rs:3");
    assert_eq!(trim_junk("\"main.go:42\""), "main.go:42");
    assert_eq!(trim_junk("lib.ts."), "lib.ts");
    // A leading ./ or ../ is preserved (not in the lead set).
    assert_eq!(trim_junk("[./a/b.rs:1]"), "./a/b.rs:1");
}

#[test]
fn extraction_is_recent_first_deduped_and_filters_prose() {
    let contents = PaneContents {
        lines_above_viewport: vec![
            "Error in src/util/lib.ts:450:12 while compiling".to_string(),
            "warning: see /etc/hosts:21 for details".to_string(),
        ],
        viewport: vec![
            "plain prose with a word.txt and no line".to_string(),
            "ran ./scripts/build.rs:10 ok".to_string(),
        ],
        lines_below_viewport: vec![
            "referencing main.go:42 in the handler".to_string(),
            "src/util/lib.ts:450:12 again (dup)".to_string(),
        ],
    };

    let tokens: Vec<String> = extract_targets(&contents)
        .into_iter()
        .map(|t| t.token)
        .collect();
    assert_eq!(
        tokens,
        vec![
            // bottom of scrollback first; the lib.ts dup keeps the recent one
            "src/util/lib.ts:450:12".to_string(),
            "main.go:42".to_string(),
            "./scripts/build.rs:10".to_string(),
            "/etc/hosts:21".to_string(),
        ]
    );
    assert!(!tokens.iter().any(|t| t.contains("word.txt")));
}

#[test]
fn target_keeps_its_scrollback_line_as_context() {
    let contents = PaneContents {
        lines_above_viewport: vec![],
        viewport: vec!["src/main.rs:511:    let _ = delete_dead_session(name);".to_string()],
        lines_below_viewport: vec![],
    };
    let got = extract_targets(&contents);
    assert_eq!(got.len(), 1);
    assert_eq!(got[0].token, "src/main.rs:511");
    assert_eq!(
        got[0].context,
        "src/main.rs:511:    let _ = delete_dead_session(name);"
    );
    assert_eq!(vim_target(&got[0].token), "+511 src/main.rs");
}

#[test]
fn fuzzy_subsequence() {
    assert!(subsequence("src/util/lib.ts:450", "slts"));
    assert!(subsequence("src/util/lib.ts:450", "lib450"));
    assert!(!subsequence("src/util/lib.ts", "xyz"));
    assert!(subsequence("anything", ""));
}

#[test]
fn line_col_span_for_coloring() {
    // Start of the ":line[:col]" tail, used to color it separately.
    assert_eq!(line_col_start("a/b.rs:10:5"), "a/b.rs".len());
    assert_eq!(line_col_start("a/b.rs:10"), "a/b.rs".len());
    assert_eq!(line_col_start("a/b.rs"), "a/b.rs".len());
}

#[test]
fn offsets_are_counted_in_bytes() {
    assert_eq!(line_col_start("\u{e9}/b.rs:10"), 7);
    assert_eq!(line_col_start("\u{e9}/b.rs"), 7);
}

#[test]
fn numbers_beyond_32_bits_are_not_peeled() {
    assert_eq!(parse_target("a/b:4294967295"), ("a/b", Some(4294967295), None));
    assert_eq!(parse_target("a/b:4294967296"), ("a/b:4294967296", None, None));
    assert_eq!(parse_target("a/b:4294967296:7"), ("a/b:4294967296", Some(7), None));
    assert_eq!(parse_target("a/b:007"), ("a/b", Some(7), None));
    assert_eq!(vim_target("a/b:007:01"), "+call cursor(7,1) a/b");
    assert_eq!(parse_target(":5"), ("", Some(5), None));
    assert_eq!(parse_target("a:"), ("a:", None, None));
    assert_eq!(parse_target(""), ("", None, None));
}

#[test]
fn decimal_notation_reads_back() {
    for n in [0u32, 7, 10, 99, 100, 65536, 4294967295] {
        let mut s = String::from("n=");
        push_decimal(&mut s, n);
        assert_eq!(s, format!("n={}", n));
        let v: Vec<char> = s.chars().collect();
        assert_eq!(parse_number(&v, 2, v.len()), Some(n));
    }
    let v: Vec<char> = "42x99999999999".chars().collect();
    assert_eq!(parse_number(&v, 0, 2), Some(42));
    assert_eq!(parse_number(&v, 0, 3), None);
    assert_eq!(parse_number(&v, 1, 1), None);
    assert_eq!(parse_number(&v, 3, v.len()), None);
}

#[test]
fn parsing_undoes_writing() {
    let token = format!("{}:{}:{}", "dir/a:3", 12, 34);
    assert_eq!(parse_target(&token), ("dir/a:3", Some(12), Some(34)));
    assert_eq!(vim_target(&token), "+call cursor(12,34) dir/a:3");
    let token = format!("{}:{}", "dir/a", 12);
    assert_eq!(parse_target(&token), ("dir/a", Some(12), None));
}

#[test]
fn anything_with_a_slash_is_a_target() {
    for token in ["../", "/", "./..", "--/--", "/\u{e9}", "a/", "../:3", "/:1:2"] {
        assert_eq!(as_target(token), Some(token));
    }
}

#[test]
fn a_dotted_name_needs_a_letter_or_digit_and_a_line() {
    assert_eq!(as_target("a.b:5"), Some("a.b:5"));
    assert_eq!(as_target("\u{e9}.:5"), Some("\u{e9}.:5"));
    assert_eq!(as_target("1.:5:6"), Some("1.:5:6"));
    assert!(as_target(".:5").is_none());
    assert!(as_target("--.--:5").is_none());
    assert!(as_target("a.b:x").is_none());
    assert!(as_target("a.b").is_none());
    assert!(as_target("ab:5").is_none());
}

#[test]
fn qualification_follows_from_its_parts() {
    assert!(qualifies("a/b", false, true));
    assert!(qualifies("../", false, false));
    assert!(qualifies("../", true, false));
    assert!(qualifies("a.b", true, true));
    assert!(!qualifies("..", true, false));
    assert!(!qualifies("a.b", false, true));
    assert!(!qualifies("ab", true, true));
}

#[test]
fn urls_are_no_targets() {
    assert!(as_target("file:///etc/hosts:3").is_none());
    assert!(as_target("://").is_none());
    assert!(as_target("a:/b").is_some());
}

#[test]
fn trimming_twice_is_trimming_once() {
    for s in ["(a/b:1),", "<<x>>.", "``", "", "a b", "...x...", "{[('q')]}"] {
        assert_eq!(trim_junk(trim_junk(s)), trim_junk(s));
    }
    assert_eq!(trim_junk("...x..."), "...x");
    assert_eq!(trim_junk("\"'`([{<"), "");
    assert_eq!(trim_junk(">}])"), "");
    assert_eq!(trim_junk("\u{201c}a/b\u{201d}"), "\u{201c}a/b\u{201d}");
}

#[test]
fn subsequences_keep_the_order() {
    assert!(subsequence("abcabc", "bca"));
    assert!(!subsequence("abc", "cb"));
    assert!(!subsequence("abc", "abcd"));
    assert!(subsequence("", ""));
    assert!(!subsequence("", "a"));
    assert!(!subsequence("abc", "B"));
    assert!(subsequence("aab", "ab"));
    assert!(!subsequence("ab", "aab"));
}

#[test]
fn filtering_gives_the_positions_of_the_matches() {
    let hays = vec!["abc".to_string(), "xbx".to_string(), "cba".to_string()];
    assert_eq!(filter(&hays, "b"), vec![0, 1, 2]);
    assert_eq!(filter(&hays, "bc"), vec![0]);
    assert_eq!(filter(&hays, "a"), vec![0, 2]);
    assert_eq!(filter(&hays, ""), vec![0, 1, 2]);
    assert!(filter(&hays, "q").is_empty());
    assert!(filter(&vec![], "").is_empty());
}
