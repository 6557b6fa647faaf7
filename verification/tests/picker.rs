use std::collections::HashMap;
use zellij_pick_vim_target::{
    BareKey, Effect, Event, KeyWithModifier, PaneContents, PaneId, PaneInfo, PaneManifest, Resume,
    State, Step,
};

fn bare(key: BareKey) -> Event {
    Event::Key(KeyWithModifier {
        bare_key: key,
        ctrl: false,
        alt: false,
        shift: false,
        super_key: false,
    })
}

fn ctrl(c: char) -> Event {
    Event::Key(KeyWithModifier {
        bare_key: BareKey::Char(c),
        ctrl: true,
        alt: false,
        shift: false,
        super_key: false,
    })
}

fn terminal(id: u32, is_focused: bool, is_floating: bool) -> PaneInfo {
    PaneInfo { id, is_plugin: false, is_focused, is_floating }
}

fn plugin(id: u32, is_focused: bool) -> PaneInfo {
    PaneInfo { id, is_plugin: true, is_focused, is_floating: true }
}

fn manifest(tabs: Vec<(usize, Vec<PaneInfo>)>) -> PaneManifest {
    let mut panes = HashMap::new();
    for (tab, list) in tabs {
        panes.insert(tab, list);
    }
    PaneManifest { panes }
}

fn contents(lines: &[&str]) -> PaneContents {
    PaneContents {
        lines_above_viewport: vec![],
        viewport: lines.iter().map(|l| l.to_string()).collect(),
        lines_below_viewport: vec![],
    }
}

/// A picker of plugin 9 that has read three targets from terminal 1.
fn built() -> State {
    let mut s = State::default();
    s.load(9);
    s.update(Event::PermissionRequestResult(true));
    s.scrollback_read(
        PaneId::Terminal(1),
        Ok(contents(&["gamma src/c.rs", "beta src/b.rs:7", "alpha src/a.rs:3:5"])),
    );
    s
}

fn render_of(step: Step) -> bool {
    match step {
        Step::Done { effects, render } => {
            assert!(effects.is_empty());
            render
        }
        _ => panic!("not done"),
    }
}

fn closes(step: &Step) -> bool {
    match step {
        Step::Done { effects, render } => {
            !render && effects.len() == 1 && matches!(effects[0], Effect::Close)
        }
        _ => false,
    }
}

#[test]
fn a_fresh_picker_is_empty() {
    let s = State::default();
    assert!(!s.permissions_granted && !s.was_focused && !s.suppress_reopen && !s.pending_build);
    assert_eq!(s.plugin_id, 0);
    assert!(s.manifest.is_none() && s.last_focused.is_none() && s.built_source.is_none());
    assert!(s.targets.is_empty() && s.query.is_empty() && s.status.is_none());
    assert_eq!((s.selected, s.scroll_offset), (0, 0));
}

#[test]
fn the_first_reading_waits_for_permission_and_source() {
    let mut s = State::default();
    s.load(9);
    assert!(s.pending_build);
    // Not permitted yet: panes are noted, nothing is read.
    let step = s.update(Event::PaneUpdate(manifest(vec![(
        0,
        vec![terminal(1, true, false), plugin(9, true)],
    )])));
    assert!(matches!(step, Step::AskFocusedTab(Resume::TrackFocus)));
    assert!(render_of(s.resume(Resume::TrackFocus, Some(0))));
    assert_eq!(s.last_focused, Some(PaneId::Terminal(1)));
    assert!(s.was_focused);
    // Permitted: the focused tab is asked for, then its terminal is read.
    let step = s.update(Event::PermissionRequestResult(true));
    assert!(matches!(step, Step::AskFocusedTab(Resume::Build(false))));
    let step = s.resume(Resume::Build(false), Some(0));
    assert!(matches!(step, Step::ReadScrollback(PaneId::Terminal(1))));
    assert!(render_of(s.scrollback_read(PaneId::Terminal(1), Ok(contents(&["x a/b:2"])))));
    assert!(!s.pending_build);
    assert_eq!(s.built_source, Some(PaneId::Terminal(1)));
    assert_eq!(s.targets.len(), 1);
    // Read once: the next permission event reads nothing.
    assert!(!render_of(s.update(Event::PermissionRequestResult(true))));
}

#[test]
fn a_denied_permission_is_shown() {
    let mut s = built();
    assert!(render_of(s.update(Event::PermissionRequestResult(false))));
    assert!(!s.permissions_granted);
    assert!(render_of(s.update(Event::Visible(true))));
}

#[test]
fn no_source_leaves_the_reading_pending() {
    let mut s = State::default();
    s.load(9);
    s.update(Event::PermissionRequestResult(true));
    assert!(!render_of(s.resume(Resume::Build(false), None)));
    assert!(render_of(s.resume(Resume::Build(true), Some(4))));
    assert!(s.pending_build);
}

#[test]
fn a_failed_reading_is_reported_and_stays_pending() {
    let mut s = State::default();
    s.load(9);
    s.update(Event::PermissionRequestResult(true));
    assert!(render_of(s.scrollback_read(PaneId::Terminal(1), Err("gone".to_string()))));
    assert_eq!(s.status, Some("Couldn't read scrollback: gone".to_string()));
    assert!(s.pending_build && s.built_source.is_none() && s.targets.is_empty());
}

#[test]
fn the_source_is_a_tiled_terminal_first() {
    let mut s = State::default();
    s.update(Event::PaneUpdate(manifest(vec![
        (0, vec![terminal(5, true, true), terminal(6, true, false), terminal(7, true, false)]),
        (1, vec![plugin(2, true), terminal(8, true, true), terminal(3, false, false)]),
        (2, vec![plugin(2, true), terminal(3, false, false)]),
    ])));
    assert_eq!(s.focused_source_pane(Some(0)), Some(PaneId::Terminal(6)));
    assert_eq!(s.focused_source_pane(Some(1)), Some(PaneId::Terminal(8)));
    assert_eq!(s.focused_source_pane(Some(2)), None);
    assert_eq!(s.focused_source_pane(Some(3)), None);
    assert_eq!(s.focused_source_pane(None), None);
    // The last one that was noted is the fallback.
    assert_eq!(s.source_pane(Some(2)), None);
    s.track_focus(Some(1));
    s.track_focus(Some(2));
    assert_eq!(s.source_pane(Some(2)), Some(PaneId::Terminal(8)));
    assert_eq!(s.source_pane(Some(0)), Some(PaneId::Terminal(6)));
}

#[test]
fn the_own_pane_is_found_in_any_tab() {
    let mut s = State::default();
    s.load(9);
    assert!(!s.plugin_focused());
    s.update(Event::PaneUpdate(manifest(vec![
        (0, vec![terminal(9, true, false)]),
        (1, vec![plugin(8, true), plugin(9, false)]),
    ])));
    assert!(!s.plugin_focused());
    s.update(Event::PaneUpdate(manifest(vec![
        (0, vec![terminal(9, true, false)]),
        (5, vec![plugin(8, false), plugin(9, true)]),
    ])));
    assert!(s.plugin_focused());
}

#[test]
fn reopening_resets_and_reads_again() {
    let mut s = built();
    s.update(bare(BareKey::Char('a')));
    s.status = Some("old".to_string());
    s.update(Event::PaneUpdate(manifest(vec![(0, vec![plugin(9, true)])])));
    let step = s.resume(Resume::TrackFocus, Some(0));
    assert!(matches!(step, Step::AskFocusedTab(Resume::Build(true))));
    assert!(s.pending_build && s.was_focused && s.query.is_empty() && s.status.is_none());
    assert_eq!((s.selected, s.scroll_offset), (0, 0));
    // Staying focused is no reopening.
    s.pending_build = false;
    s.update(bare(BareKey::Char('b')));
    s.update(Event::PaneUpdate(manifest(vec![(0, vec![plugin(9, true)])])));
    assert!(render_of(s.resume(Resume::TrackFocus, Some(0))));
    assert_eq!(s.query, "b");
    // Becoming visible is one.
    assert!(matches!(s.update(Event::Visible(true)), Step::AskFocusedTab(Resume::Build(true))));
    assert!(s.query.is_empty());
    assert!(!render_of(s.update(Event::Visible(false))));
    assert!(!render_of(s.update(Event::Other)));
}

#[test]
fn several_files_can_be_opened_in_a_row() {
    let mut s = built();
    s.update(bare(BareKey::Down));
    s.update(bare(BareKey::Char('s')));
    s.update(bare(BareKey::Down));
    match s.update(bare(BareKey::Enter)) {
        Step::OpenFile { path, line_number, source } => {
            assert_eq!(path, "src/b.rs");
            assert_eq!(line_number, Some(7));
            assert_eq!(source, Some(PaneId::Terminal(1)));
        }
        _ => panic!("not opened"),
    }
    match s.file_opened(Some(PaneId::Terminal(1)), Some(PaneId::Terminal(4))) {
        Step::Done { effects, render } => {
            assert!(render);
            assert_eq!(effects.len(), 2);
            assert!(matches!(
                effects[0],
                Effect::StackPanes(PaneId::Terminal(1), PaneId::Terminal(4))
            ));
            assert!(matches!(effects[1], Effect::FocusPlugin(9)));
        }
        _ => panic!("not done"),
    }
    assert!(s.suppress_reopen);
    // The regained focus does not reset the picker, and is suppressed once.
    s.update(Event::PaneUpdate(manifest(vec![(
        0,
        vec![terminal(4, true, false), plugin(9, true)],
    )])));
    assert!(render_of(s.resume(Resume::TrackFocus, Some(0))));
    assert_eq!((s.query.as_str(), s.selected, s.targets.len()), ("s", 1, 3));
    assert!(!s.suppress_reopen);
    // The next target is still opened from the pane that was read.
    s.update(bare(BareKey::Down));
    match s.update(bare(BareKey::Enter)) {
        Step::OpenFile { path, line_number, source } => {
            assert_eq!(path, "src/c.rs");
            assert_eq!(line_number, None);
            assert_eq!(source, Some(PaneId::Terminal(1)));
        }
        _ => panic!("not opened"),
    }
}

#[test]
fn the_editor_is_stacked_only_where_both_panes_are_known() {
    let mut s = built();
    for (source, editor) in [
        (None, Some(PaneId::Terminal(4))),
        (Some(PaneId::Terminal(1)), None),
        (None, None),
    ] {
        match s.file_opened(source, editor) {
            Step::Done { effects, render } => {
                assert!(render && effects.len() == 1);
                assert!(matches!(effects[0], Effect::FocusPlugin(9)));
            }
            _ => panic!("not done"),
        }
    }
}

#[test]
fn opening_without_a_source_asks_for_the_focused_tab() {
    let mut s = built();
    s.built_source = None;
    assert!(matches!(s.update(bare(BareKey::Enter)), Step::AskFocusedTab(Resume::Open)));
    match s.resume(Resume::Open, None) {
        Step::OpenFile { path, line_number, source } => {
            assert_eq!(path, "src/a.rs");
            assert_eq!(line_number, Some(3));
            assert_eq!(source, None);
        }
        _ => panic!("not opened"),
    }
    // Nothing selected: nothing is opened, and the picker stays.
    s.update(bare(BareKey::Char('!')));
    assert!(render_of(s.update(bare(BareKey::Enter))));
    assert!(render_of(s.resume(Resume::Open, None)));
}

#[test]
fn ctrl_y_copies_the_column_too_and_closes() {
    let mut s = built();
    match s.update(ctrl('y')) {
        Step::Done { effects, render } => {
            assert!(!render && effects.len() == 2);
            match &effects[0] {
                Effect::Copy(text) => assert_eq!(text, "+call cursor(3,5) src/a.rs"),
                _ => panic!("not copied"),
            }
            assert!(matches!(effects[1], Effect::Close));
        }
        _ => panic!("not done"),
    }
    assert_eq!(s.copy_selected(), Some("+call cursor(3,5) src/a.rs".to_string()));
    s.update(bare(BareKey::Char('!')));
    assert_eq!(s.copy_selected(), None);
    assert!(closes(&s.update(ctrl('y'))));
}

#[test]
fn esc_clears_then_closes() {
    let mut s = built();
    s.update(bare(BareKey::Char('b')));
    assert!(render_of(s.update(bare(BareKey::Esc))));
    assert!(s.query.is_empty());
    assert!(closes(&s.update(bare(BareKey::Esc))));
    assert!(closes(&s.update(ctrl('c'))));
}

#[test]
fn the_selection_moves_within_the_matches() {
    let mut s = built();
    assert!(render_of(s.update(bare(BareKey::Up))));
    assert_eq!(s.selected, 0);
    for expected in [1, 2, 2] {
        s.update(bare(BareKey::Down));
        assert_eq!(s.selected, expected);
    }
    s.update(ctrl('k'));
    assert_eq!(s.selected, 1);
    s.update(ctrl('p'));
    assert_eq!(s.selected, 0);
    s.update(ctrl('j'));
    s.update(ctrl('n'));
    assert_eq!(s.selected, 2);
    s.update(bare(BareKey::Up));
    s.update(bare(BareKey::Down));
    assert_eq!(s.selected, 2);
    // Nothing matches: down stays at the top.
    s.update(bare(BareKey::Char('!')));
    s.update(bare(BareKey::Down));
    assert_eq!(s.selected, 0);
}

#[test]
fn typing_filters_over_token_and_context_in_any_case() {
    let mut s = built();
    assert_eq!(s.filtered(), vec![0, 1, 2]);
    // From the context.
    for c in "GAMMA".chars() {
        s.update(Event::Key(KeyWithModifier {
            bare_key: BareKey::Char(c),
            ctrl: false,
            alt: false,
            shift: true,
            super_key: false,
        }));
    }
    assert_eq!(s.query, "GAMMA");
    assert_eq!(s.filtered(), vec![2]);
    s.update(bare(BareKey::Esc));
    // From the token and the context together.
    for c in "b7beta".chars() {
        s.update(bare(BareKey::Char(c)));
    }
    assert_eq!(s.filtered(), vec![1]);
    // A longer query shows no more, and taking it back shows the same again.
    s.update(bare(BareKey::Char('z')));
    assert!(s.filtered().is_empty());
    s.update(bare(BareKey::Backspace));
    assert_eq!(s.query, "b7beta");
    assert_eq!(s.filtered(), vec![1]);
}

#[test]
fn lower_case_is_that_of_unicode() {
    let mut s = State::default();
    s.update(Event::PermissionRequestResult(true));
    s.scrollback_read(PaneId::Terminal(1), Ok(contents(&["\u{c4}/b"])));
    s.update(bare(BareKey::Char('\u{e4}')));
    assert_eq!(s.filtered(), vec![0]);
}

#[test]
fn backspace_on_an_empty_query_selects_the_top() {
    let mut s = built();
    s.update(bare(BareKey::Down));
    assert!(render_of(s.update(bare(BareKey::Backspace))));
    assert_eq!((s.query.as_str(), s.selected), ("", 0));
}

#[test]
fn other_keys_do_nothing() {
    let mut s = built();
    s.update(bare(BareKey::Down));
    for key in [BareKey::Tab, BareKey::F(5), BareKey::Left, BareKey::Delete] {
        assert!(!render_of(s.update(bare(key))));
    }
    assert!(!render_of(s.update(ctrl('x'))));
    let modified = [
        (BareKey::Enter, false, true, false),
        (BareKey::Esc, true, false, false),
        (BareKey::Char('a'), false, true, false),
        (BareKey::Up, false, false, true),
    ];
    for (bare_key, ctrl, alt, super_key) in modified {
        let key = KeyWithModifier { bare_key, ctrl, alt, shift: false, super_key };
        assert!(!render_of(s.update(Event::Key(key))));
    }
    assert_eq!((s.query.as_str(), s.selected), ("", 1));
    // Ctrl counts whatever else is held.
    let key = KeyWithModifier {
        bare_key: BareKey::Char('n'),
        ctrl: true,
        alt: true,
        shift: false,
        super_key: false,
    };
    assert!(render_of(s.update(Event::Key(key))));
    assert_eq!(s.selected, 2);
}

#[test]
fn the_list_stays_that_of_the_last_reading() {
    let tokens = |s: &State| -> Vec<String> {
        s.targets.iter().map(|t| t.token.clone()).collect()
    };
    let mut s = built();
    let expected = vec!["src/a.rs:3:5", "src/b.rs:7", "src/c.rs"];
    s.update(bare(BareKey::Char('x')));
    s.update(bare(BareKey::Enter));
    s.file_opened(None, None);
    s.update(Event::PaneUpdate(manifest(vec![(0, vec![terminal(4, true, false)])])));
    s.resume(Resume::TrackFocus, Some(0));
    s.update(Event::Visible(true));
    s.scrollback_read(PaneId::Terminal(4), Err("no".to_string()));
    s.render(10, 40);
    assert_eq!(tokens(&s), expected);
    assert_eq!(s.built_source, Some(PaneId::Terminal(1)));
    s.scrollback_read(PaneId::Terminal(4), Ok(contents(&["q/r"])));
    assert_eq!(tokens(&s), vec!["q/r"]);
    assert_eq!(s.built_source, Some(PaneId::Terminal(4)));
    assert_eq!((s.selected, s.scroll_offset), (0, 0));
}
