//! The picker: what it knows, which targets match, and what it does on each
//! event. Wherever it needs an answer from the outside, it returns a `Step` that
//! says what to ask, and a method takes the answer.

use vstd::prelude::*;
use vstd::utf8;

use crate::chars;
use crate::fuzzy;
use crate::key::{BareKey, KeyWithModifier};
use crate::pane;
use crate::pane::{PaneId, PaneInfo, PaneManifest};
use crate::scrollback;
use crate::scrollback::{PaneContents, Target, TargetModel};
use crate::target;

verus! {

/// What the picker knows.
pub struct State {
    pub permissions_granted: bool,
    /// The id of the picker's own pane.
    pub plugin_id: u32,
    /// Whether that pane was focused at the last pane update.
    pub was_focused: bool,
    /// Set when the picker refocuses itself after opening a file, so that the
    /// regained focus is not taken for the user reopening it.
    pub suppress_reopen: bool,
    /// The panes as of the last pane update.
    pub manifest: Option<PaneManifest>,
    /// The last terminal that was seen focused in the active tab.
    pub last_focused: Option<PaneId>,
    /// Set when the scrollback has to be read, until it was.
    pub pending_build: bool,
    /// The pane whose scrollback was read.
    pub built_source: Option<PaneId>,
    /// The targets, the most recent first.
    pub targets: Vec<Target>,
    pub query: String,
    /// Which of the matching targets is selected.
    pub selected: usize,
    /// The first of the matching targets that is shown.
    pub scroll_offset: usize,
    /// A message for the footer.
    pub status: Option<String>,
}

/// What a picker knows, over mathematical values.
#[verifier::ext_equal]
pub struct StateModel {
    pub permissions_granted: bool,
    pub plugin_id: u32,
    pub was_focused: bool,
    pub suppress_reopen: bool,
    pub manifest: Option<Map<usize, Seq<PaneInfo>>>,
    pub last_focused: Option<PaneId>,
    pub pending_build: bool,
    pub built_source: Option<PaneId>,
    pub targets: Seq<TargetModel>,
    pub query: Seq<char>,
    pub selected: usize,
    pub scroll_offset: usize,
    pub status: Option<Seq<char>>,
}

impl View for State {
    type V = StateModel;

    open spec fn view(&self) -> StateModel {
        StateModel {
            permissions_granted: self.permissions_granted,
            plugin_id: self.plugin_id,
            was_focused: self.was_focused,
            suppress_reopen: self.suppress_reopen,
            manifest: match self.manifest {
                Some(m) => Some(m@),
                None => None,
            },
            last_focused: self.last_focused,
            pending_build: self.pending_build,
            built_source: self.built_source,
            targets: scrollback::models(self.targets@),
            query: self.query@,
            selected: self.selected,
            scroll_offset: self.scroll_offset,
            status: match self.status {
                Some(m) => Some(m@),
                None => None,
            },
        }
    }
}

/// What happens to the picker.
pub enum Event {
    /// The answer to the request for permissions.
    PermissionRequestResult(bool),
    PaneUpdate(PaneManifest),
    Visible(bool),
    Key(KeyWithModifier),
    Other,
}

/// What the picker was doing when it asked for the focused tab.
#[derive(Clone, Copy, Debug, PartialEq, Eq, Structural)]
pub enum Resume {
    /// It was told of the panes.
    TrackFocus,
    /// It was about to read the scrollback; the flag says whether to redraw if
    /// there is none to read.
    Build(bool),
    /// It was about to open the selected target.
    Open,
}

/// What is to be done, without an answer.
pub enum Effect {
    Copy(String),
    Close,
    /// Stack the second pane with the first.
    StackPanes(PaneId, PaneId),
    /// Focus the picker's own pane.
    FocusPlugin(u32),
}

/// What is to be done next.
pub enum Step {
    /// Ask which tab is focused; `State::resume` takes the answer.
    AskFocusedTab(Resume),
    /// Read the scrollback of the pane; `State::scrollback_read` takes it.
    ReadScrollback(PaneId),
    /// Open a file at a line, relative to the directory of the source pane;
    /// `State::file_opened` takes the pane of the editor.
    OpenFile { path: String, line_number: Option<usize>, source: Option<PaneId> },
    /// The effects, and the event is dealt with; the flag says whether to redraw.
    Done { effects: Vec<Effect>, render: bool },
}

/// An event over mathematical values.
pub enum EventModel {
    PermissionRequestResult(bool),
    PaneUpdate(Map<usize, Seq<PaneInfo>>),
    Visible(bool),
    Key(KeyWithModifier),
    Other,
}

/// An effect over mathematical values.
#[verifier::ext_equal]
pub enum EffectModel {
    Copy(Seq<char>),
    Close,
    StackPanes(PaneId, PaneId),
    FocusPlugin(u32),
}

/// A step over mathematical values.
#[verifier::ext_equal]
pub enum StepModel {
    AskFocusedTab(Resume),
    ReadScrollback(PaneId),
    OpenFile { path: Seq<char>, line_number: Option<usize>, source: Option<PaneId> },
    Done { effects: Seq<EffectModel>, render: bool },
}

impl View for Event {
    type V = EventModel;

    open spec fn view(&self) -> EventModel {
        match *self {
            Event::PermissionRequestResult(granted) => EventModel::PermissionRequestResult(granted),
            Event::PaneUpdate(manifest) => EventModel::PaneUpdate(manifest@),
            Event::Visible(visible) => EventModel::Visible(visible),
            Event::Key(key) => EventModel::Key(key),
            Event::Other => EventModel::Other,
        }
    }
}

impl View for Effect {
    type V = EffectModel;

    open spec fn view(&self) -> EffectModel {
        match *self {
            Effect::Copy(s) => EffectModel::Copy(s@),
            Effect::Close => EffectModel::Close,
            Effect::StackPanes(a, b) => EffectModel::StackPanes(a, b),
            Effect::FocusPlugin(id) => EffectModel::FocusPlugin(id),
        }
    }
}

impl View for Step {
    type V = StepModel;

    open spec fn view(&self) -> StepModel {
        match *self {
            Step::AskFocusedTab(resume) => StepModel::AskFocusedTab(resume),
            Step::ReadScrollback(pane) => StepModel::ReadScrollback(pane),
            Step::OpenFile { path, line_number, source } => StepModel::OpenFile {
                path: path@,
                line_number,
                source,
            },
            Step::Done { effects, render } => StepModel::Done {
                effects: Seq::new(effects@.len(), |i: int| effects@[i]@),
                render,
            },
        }
    }
}

/// What the query is looked for in: the token, a space and the context.
pub open spec fn haystack(t: TargetModel) -> Seq<char> {
    t.token + " "@ + t.context
}

/// A target matches if the query can be had from it by leaving characters out,
/// whatever the case.
pub open spec fn matches(t: TargetModel, query: Seq<char>) -> bool {
    fuzzy::is_subsequence(chars::lowercase(haystack(t)), chars::lowercase(query))
}

/// What is searched of each target: its token and context in small letters.
pub open spec fn searched(targets: Seq<TargetModel>) -> Seq<Seq<char>> {
    Seq::new(targets.len(), |i: int| chars::lowercase(haystack(targets[i])))
}

/// The step that ends the handling of an event without any effect.
pub open spec fn done(render: bool) -> StepModel {
    StepModel::Done { effects: Seq::empty(), render }
}

/// The step that ends the handling of an event with one effect.
pub open spec fn done_with(effect: EffectModel, render: bool) -> StepModel {
    StepModel::Done { effects: seq![effect], render }
}

impl StateModel {
    /// The positions of the targets that match the query, in order.
    pub open spec fn filtered(self) -> Seq<usize> {
        fuzzy::hits(
            searched(self.targets),
            chars::lowercase(self.query),
            self.targets.len(),
        )
    }

    /// The token of the selected target, if a matching target is selected.
    pub open spec fn selected_token(self) -> Option<Seq<char>> {
        if self.selected < self.filtered().len() {
            Some(self.targets[self.filtered()[self.selected as int] as int].token)
        } else {
            None
        }
    }

    /// Whether the picker's own pane is focused.
    pub open spec fn plugin_focused(self) -> bool {
        match self.manifest {
            Some(m) => pane::is_plugin_focused(m, self.plugin_id),
            None => false,
        }
    }

    /// The terminal that is focused in the active tab.
    pub open spec fn focused_source_pane(self, focused_tab: Option<usize>) -> Option<PaneId> {
        match (focused_tab, self.manifest) {
            (Some(tab), Some(m)) => if m.contains_key(tab) {
                pane::source_among(m[tab])
            } else {
                None
            },
            _ => None,
        }
    }

    /// The pane to read: the terminal that is focused now, or else the last one
    /// that was seen focused.
    pub open spec fn source_pane(self, focused_tab: Option<usize>) -> Option<PaneId> {
        match self.focused_source_pane(focused_tab) {
            Some(p) => Some(p),
            None => self.last_focused,
        }
    }

    /// The picker after it took note of the focused terminal, if there is one.
    pub open spec fn focus_noted(self, focused_tab: Option<usize>) -> StateModel {
        match self.focused_source_pane(focused_tab) {
            Some(p) => StateModel { last_focused: Some(p), ..self },
            None => self,
        }
    }

    /// The picker as the user opens it: the scrollback is to be read afresh.
    pub open spec fn reopened(self) -> StateModel {
        StateModel {
            pending_build: true,
            query: Seq::empty(),
            selected: 0,
            scroll_offset: 0,
            status: None,
            ..self
        }
    }

    /// The picker after its pane regained focus.
    pub open spec fn focus_regained(self) -> StateModel {
        if self.suppress_reopen {
            StateModel { suppress_reopen: false, ..self }
        } else {
            self.reopened()
        }
    }

    /// The picker after a pane update, once the focused tab is known.
    pub open spec fn panes_updated(self, focused_tab: Option<usize>) -> StateModel {
        let s = self.focus_noted(focused_tab);
        let now_focused = s.plugin_focused();
        let t = if now_focused && !s.was_focused {
            s.focus_regained()
        } else {
            s
        };
        StateModel { was_focused: now_focused, ..t }
    }

    /// How reading the scrollback starts: not at all unless it is permitted and
    /// pending.
    pub open spec fn build_step(self, render_otherwise: bool) -> StepModel {
        if self.permissions_granted && self.pending_build {
            StepModel::AskFocusedTab(Resume::Build(render_otherwise))
        } else {
            done(render_otherwise)
        }
    }

    /// How a target is opened, once its source pane is known: its path and line
    /// go to the editor, the column does not.
    pub open spec fn open_step(self, source: Option<PaneId>) -> StepModel {
        match self.selected_token() {
            Some(token) => StepModel::OpenFile {
                path: target::parts(token).base,
                line_number: match target::parts(token).line {
                    Some(l) => Some(l as usize),
                    None => None,
                },
                source,
            },
            None => done(true),
        }
    }

    /// How opening the selected target starts: relative paths belong to the pane
    /// whose scrollback was read.
    pub open spec fn open_selected_step(self) -> StepModel {
        if self.selected_token() is None {
            done(true)
        } else if self.built_source is Some {
            self.open_step(self.built_source)
        } else {
            StepModel::AskFocusedTab(Resume::Open)
        }
    }

    /// How copying ends: the Vim target of the selection goes to the clipboard,
    /// and the picker closes.
    pub open spec fn copy_step(self) -> StepModel {
        match self.selected_token() {
            Some(token) => StepModel::Done {
                effects: seq![EffectModel::Copy(target::vim_form(token)), EffectModel::Close],
                render: false,
            },
            None => done_with(EffectModel::Close, false),
        }
    }

    /// The picker with another query.
    pub open spec fn with_query(self, query: Seq<char>) -> StateModel {
        StateModel { query, selected: 0, ..self }
    }

    /// The picker with the selection moved up, unless it is at the top.
    pub open spec fn moved_up(self) -> StateModel {
        if self.selected > 0 {
            StateModel { selected: (self.selected - 1) as usize, ..self }
        } else {
            self
        }
    }

    /// The picker with the selection moved down, unless it is at the bottom.
    pub open spec fn moved_down(self) -> StateModel {
        if self.selected + 1 < self.filtered().len() {
            StateModel { selected: (self.selected + 1) as usize, ..self }
        } else {
            self
        }
    }

    /// What a key does.
    pub open spec fn key_pressed(self, key: KeyWithModifier) -> (StateModel, StepModel) {
        if key.is_bare(BareKey::Enter) {
            (self, self.open_selected_step())
        } else if key.is_ctrl('y') {
            (self, self.copy_step())
        } else if key.is_ctrl('c') {
            (self, done_with(EffectModel::Close, false))
        } else if key.is_bare(BareKey::Esc) {
            if self.query.len() == 0 {
                (self, done_with(EffectModel::Close, false))
            } else {
                (self.with_query(Seq::empty()), done(true))
            }
        } else if key.is_bare(BareKey::Up) || key.is_ctrl('p') || key.is_ctrl('k') {
            (self.moved_up(), done(true))
        } else if key.is_bare(BareKey::Down) || key.is_ctrl('n') || key.is_ctrl('j') {
            (self.moved_down(), done(true))
        } else if key.is_bare(BareKey::Backspace) {
            (
                self.with_query(
                    if self.query.len() == 0 {
                        self.query
                    } else {
                        self.query.drop_last()
                    },
                ),
                done(true),
            )
        } else if key.unmodified() || key.shift {
            match key.bare_key {
                BareKey::Char(c) => (self.with_query(self.query.push(c)), done(true)),
                _ => (self, done(false)),
            }
        } else {
            (self, done(false))
        }
    }

    /// What an event does.
    pub open spec fn updated(self, event: EventModel) -> (StateModel, StepModel) {
        match event {
            EventModel::PermissionRequestResult(granted) => {
                let s = StateModel { permissions_granted: granted, ..self };
                (
                    s,
                    if granted {
                        s.build_step(false)
                    } else {
                        done(true)
                    },
                )
            },
            EventModel::PaneUpdate(manifest) => (
                StateModel { manifest: Some(manifest), ..self },
                StepModel::AskFocusedTab(Resume::TrackFocus),
            ),
            EventModel::Visible(visible) => if visible {
                (self.reopened(), self.reopened().build_step(true))
            } else {
                (self, done(false))
            },
            EventModel::Key(key) => self.key_pressed(key),
            EventModel::Other => (self, done(false)),
        }
    }

    /// What the answer to which tab is focused does.
    pub open spec fn resumed(self, resume: Resume, focused_tab: Option<usize>) -> (
        StateModel,
        StepModel,
    ) {
        match resume {
            Resume::TrackFocus => {
                let s = self.panes_updated(focused_tab);
                (s, s.build_step(true))
            },
            Resume::Build(render_otherwise) => match self.source_pane(focused_tab) {
                Some(p) => (self, StepModel::ReadScrollback(p)),
                None => (self, done(render_otherwise)),
            },
            Resume::Open => (self, self.open_step(self.source_pane(focused_tab))),
        }
    }

    /// The picker after the scrollback of a pane was read.
    pub open spec fn built(self, source: PaneId, lines: Seq<Seq<char>>) -> StateModel {
        StateModel {
            targets: scrollback::extracted(lines),
            selected: 0,
            scroll_offset: 0,
            pending_build: false,
            built_source: Some(source),
            status: None,
            ..self
        }
    }

    /// The picker after reading the scrollback of a pane failed.
    pub open spec fn build_failed(self, error: Seq<char>) -> StateModel {
        StateModel { status: Some("Couldn't read scrollback: "@ + error), ..self }
    }

    /// How opening a file ends: the editor is stacked with the source pane, where
    /// both are known, and the picker focuses itself again.
    pub open spec fn opened_step(self, source: Option<PaneId>, editor: Option<PaneId>) -> StepModel {
        let focus = EffectModel::FocusPlugin(self.plugin_id);
        StepModel::Done {
            effects: match (source, editor) {
                (Some(s), Some(e)) => seq![EffectModel::StackPanes(s, e), focus],
                _ => seq![focus],
            },
            render: true,
        }
    }
}

/// A picker that knows nothing yet.
pub open spec fn initial() -> StateModel {
    StateModel {
        permissions_granted: false,
        plugin_id: 0,
        was_focused: false,
        suppress_reopen: false,
        manifest: None,
        last_focused: None,
        pending_build: false,
        built_source: None,
        targets: Seq::empty(),
        query: Seq::empty(),
        selected: 0,
        scroll_offset: 0,
        status: None,
    }
}

impl Default for State {
    fn default() -> (r: Self)
        ensures
            r@ == initial(),
    {
        let r = State {
            permissions_granted: false,
            plugin_id: 0,
            was_focused: false,
            suppress_reopen: false,
            manifest: None,
            last_focused: None,
            pending_build: false,
            built_source: None,
            targets: Vec::new(),
            query: String::new(),
            selected: 0,
            scroll_offset: 0,
            status: None,
        };
        assert(r@.targets =~= Seq::<TargetModel>::empty());
        r
    }
}

fn finish(render: bool) -> (r: Step)
    ensures
        r@ == done(render),
{
    let r = Step::Done { effects: Vec::new(), render };
    assert(r@ =~= done(render));
    r
}

fn finish_with(effect: Effect, render: bool) -> (r: Step)
    ensures
        r@ == done_with(effect@, render),
{
    let mut effects: Vec<Effect> = Vec::new();
    effects.push(effect);
    let r = Step::Done { effects, render };
    assert(r@->effects =~= seq![effect@]);
    r
}

impl State {
    /// Starts the picker: its own pane is known, and the scrollback is to be read.
    pub fn load(&mut self, plugin_id: u32)
        ensures
            final(self)@ == (StateModel { plugin_id, pending_build: true, ..old(self)@ }),
    {
        self.plugin_id = plugin_id;
        self.pending_build = true;
    }

    /// Whether the picker's own pane is focused.
    pub fn plugin_focused(&self) -> (r: bool)
        ensures
            r == self@.plugin_focused(),
    {
        match &self.manifest {
            Some(m) => m.plugin_focused(self.plugin_id),
            None => false,
        }
    }

    /// The terminal that is focused in the active tab, if that tab is known: a
    /// tiled pane before a floating one.
    pub fn focused_source_pane(&self, focused_tab: Option<usize>) -> (r: Option<PaneId>)
        ensures
            r == self@.focused_source_pane(focused_tab),
    {
        match (focused_tab, &self.manifest) {
            (Some(tab), Some(m)) => m.source_in_tab(tab),
            _ => None,
        }
    }

    /// Takes note of the terminal that is focused in the active tab, if any.
    pub fn track_focus(&mut self, focused_tab: Option<usize>)
        ensures
            final(self)@ == old(self)@.focus_noted(focused_tab),
    {
        if let Some(p) = self.focused_source_pane(focused_tab) {
            self.last_focused = Some(p);
        }
    }

    /// The pane to read the scrollback from: the focused terminal, or else the
    /// last one that was seen focused.
    pub fn source_pane(&self, focused_tab: Option<usize>) -> (r: Option<PaneId>)
        ensures
            r == self@.source_pane(focused_tab),
    {
        match self.focused_source_pane(focused_tab) {
            Some(p) => Some(p),
            None => self.last_focused,
        }
    }

    /// The positions of the targets that match the query, in order. Where the
    /// query is empty, that is all of them. On ASCII, a target matches if the
    /// small letters of the query can be had, by leaving characters out, from
    /// those of its token, a space and its context.
    pub fn filtered(&self) -> (r: Vec<usize>)
        ensures
            r@ == self@.filtered(),
            self.query@.len() == 0 ==> r@ == Seq::new(self.targets@.len(), |i: int| i as usize),
            utf8::is_ascii_chars(self.query@) ==> forall|k: int|
                0 <= k < self.targets@.len() && utf8::is_ascii_chars(
                    (#[trigger] self.targets@[k]).token@.push(' ') + self.targets@[k].context@,
                ) ==> (r@.contains(k as usize) <==> fuzzy::is_subsequence(
                    (self.targets@[k].token@.push(' ') + self.targets@[k].context@).map_values(
                        |c: char| chars::ascii_lower(c),
                    ),
                    self.query@.map_values(|c: char| chars::ascii_lower(c)),
                )),
    {
        let q = self.query.as_str().to_lowercase();
        let mut lowered: Vec<String> = Vec::new();
        let ghost models = scrollback::models(self.targets@);
        for i in 0..self.targets.len()
            invariant
                models == scrollback::models(self.targets@),
                lowered@.len() == i,
                forall|k: int|
                    0 <= k < i ==> (#[trigger] lowered@[k])@ == chars::lowercase(
                        haystack(models[k]),
                    ),
                forall|k: int|
                    0 <= k < i && utf8::is_ascii_chars(haystack(models[k])) ==> (
                    #[trigger] lowered@[k])@ == haystack(models[k]).map_values(
                        |c: char| chars::ascii_lower(c),
                    ),
        {
            let t = &self.targets[i];
            let mut hay = t.token.clone();
            hay.append(" ");
            hay.append(t.context.as_str());
            assert(hay@ =~= haystack(models[i as int]));
            lowered.push(hay.as_str().to_lowercase());
        }
        assert(scrollback::views(lowered@) =~= searched(models));
        let r = fuzzy::filter(&lowered, q.as_str());
        proof {
            if self.query@.len() == 0 {
                assert(q@ =~= Seq::<char>::empty());
                all_are_hits(searched(models), models.len());
            }
            fuzzy::hits_are_the_matches(searched(models), q@, models.len());
            assert forall|k: int|
                utf8::is_ascii_chars(self.query@) && 0 <= k < self.targets@.len()
                    && utf8::is_ascii_chars(
                    (#[trigger] self.targets@[k]).token@.push(' ') + self.targets@[k].context@,
                ) implies (r@.contains(k as usize) <==> fuzzy::is_subsequence(
                (self.targets@[k].token@.push(' ') + self.targets@[k].context@).map_values(
                    |c: char| chars::ascii_lower(c),
                ),
                self.query@.map_values(|c: char| chars::ascii_lower(c)),
            )) by {
                let t = models[k];
                reveal_strlit(" ");
                assert(haystack(t) =~= t.token.push(' ') + t.context);
                assert(searched(models)[k] == lowered@[k]@);
                if r@.contains(k as usize) {
                    let i = choose|i: int| 0 <= i < r@.len() && r@[i] == k as usize;
                    assert(fuzzy::is_subsequence(searched(models)[r@[i] as int], q@));
                }
            }
        }
        r
    }

    /// The position of the selected target among all targets.
    pub fn selected_target(&self) -> (r: Option<usize>)
        ensures
            match r {
                Some(i) => i < self.targets@.len() && self@.selected_token() == Some(
                    self.targets@[i as int].token@,
                ) && i == self@.filtered()[self.selected as int],
                None => self@.selected_token() is None,
            },
    {
        let positions = self.filtered();
        if self.selected < positions.len() {
            proof {
                assert(self@.targets.len() == self.targets.len());
                self@.filtered_is_in_range();
            }
            Some(positions[self.selected])
        } else {
            None
        }
    }

    /// Starts reading the scrollback, unless it is not permitted or not pending;
    /// `render_otherwise` says whether to redraw if it is not read.
    pub fn build_targets(&self, render_otherwise: bool) -> (r: Step)
        ensures
            r@ == self@.build_step(render_otherwise),
    {
        if !self.permissions_granted || !self.pending_build {
            return finish(render_otherwise);
        }
        Step::AskFocusedTab(Resume::Build(render_otherwise))
    }

    /// The Vim target of the selection.
    pub fn copy_selected(&self) -> (r: Option<String>)
        ensures
            match r {
                Some(s) => self@.selected_token() is Some && s@ == target::vim_form(
                    self@.selected_token()->0,
                ),
                None => self@.selected_token() is None,
            },
    {
        match self.selected_target() {
            Some(i) => Some(target::vim_target(self.targets[i].token.as_str())),
            None => None,
        }
    }

    /// Opens the selected target at its line, relative to the given pane.
    fn open_from(&self, source: Option<PaneId>) -> (r: Step)
        ensures
            r@ == self@.open_step(source),
    {
        match self.selected_target() {
            Some(i) => {
                let (base, line, _) = target::parse_target(self.targets[i].token.as_str());
                Step::OpenFile {
                    path: base.to_string(),
                    line_number: match line {
                        Some(l) => Some(l as usize),
                        None => None,
                    },
                    source,
                }
            },
            None => finish(true),
        }
    }

    /// Starts opening the selected target. Its path is relative to the pane whose
    /// scrollback was read; only if none was, the focused tab has to be asked for.
    pub fn open_selected(&self) -> (r: Step)
        ensures
            r@ == self@.open_selected_step(),
    {
        if self.selected_target().is_none() {
            return finish(true);
        }
        if self.built_source.is_some() {
            self.open_from(self.built_source)
        } else {
            Step::AskFocusedTab(Resume::Open)
        }
    }

    /// Deals with a key.
    pub fn handle_key(&mut self, key: KeyWithModifier) -> (r: Step)
        ensures
            (final(self)@, r@) == old(self)@.key_pressed(key),
    {
        let match_count: usize = self.filtered().len();
        if key.is_key_without_modifier(BareKey::Enter) {
            return self.open_selected();
        }
        if key.is_key_with_ctrl_modifier('y') {
            return match self.copy_selected() {
                Some(s) => {
                    let mut effects: Vec<Effect> = Vec::new();
                    effects.push(Effect::Copy(s));
                    effects.push(Effect::Close);
                    let r = Step::Done { effects, render: false };
                    assert(r@->effects =~= seq![EffectModel::Copy(s@), EffectModel::Close]);
                    r
                },
                None => finish_with(Effect::Close, false),
            };
        }
        if key.is_key_with_ctrl_modifier('c') {
            return finish_with(Effect::Close, false);
        }
        if key.is_key_without_modifier(BareKey::Esc) {
            if self.query.as_str().is_empty() {
                return finish_with(Effect::Close, false);
            }
            self.query = String::new();
            self.selected = 0;
            return finish(true);
        }
        if key.is_key_without_modifier(BareKey::Up) || key.is_key_with_ctrl_modifier('p')
            || key.is_key_with_ctrl_modifier('k') {
            if self.selected > 0 {
                self.selected -= 1;
            }
            return finish(true);
        }
        if key.is_key_without_modifier(BareKey::Down) || key.is_key_with_ctrl_modifier('n')
            || key.is_key_with_ctrl_modifier('j') {
            if match_count > 0 && self.selected < match_count - 1 {
                self.selected += 1;
            }
            return finish(true);
        }
        if key.is_key_without_modifier(BareKey::Backspace) {
            self.query.pop();
            self.selected = 0;
            return finish(true);
        }
        if key.has_no_modifiers() || key.shift {
            if let BareKey::Char(c) = key.bare_key {
                self.query.push(c);
                self.selected = 0;
                return finish(true);
            }
        }
        finish(false)
    }

    /// Makes the picker as the user opens it.
    fn reopen(&mut self)
        ensures
            final(self)@ == old(self)@.reopened(),
    {
        self.pending_build = true;
        self.query = String::new();
        self.selected = 0;
        self.scroll_offset = 0;
        self.status = None;
    }

    /// Deals with an event.
    pub fn update(&mut self, event: Event) -> (r: Step)
        ensures
            (final(self)@, r@) == old(self)@.updated(event@),
    {
        match event {
            Event::PermissionRequestResult(granted) => {
                self.permissions_granted = granted;
                if granted {
                    self.build_targets(false)
                } else {
                    finish(true)
                }
            },
            Event::PaneUpdate(manifest) => {
                self.manifest = Some(manifest);
                Step::AskFocusedTab(Resume::TrackFocus)
            },
            Event::Visible(visible) => {
                if visible {
                    self.reopen();
                    self.build_targets(true)
                } else {
                    finish(false)
                }
            },
            Event::Key(key) => self.handle_key(key),
            Event::Other => finish(false),
        }
    }

    /// Goes on, once it is known which tab is focused, if any.
    pub fn resume(&mut self, resume: Resume, focused_tab: Option<usize>) -> (r: Step)
        ensures
            (final(self)@, r@) == old(self)@.resumed(resume, focused_tab),
    {
        match resume {
            Resume::TrackFocus => {
                self.track_focus(focused_tab);
                let now_focused = self.plugin_focused();
                if now_focused && !self.was_focused {
                    if self.suppress_reopen {
                        self.suppress_reopen = false;
                    } else {
                        self.reopen();
                    }
                }
                self.was_focused = now_focused;
                self.build_targets(true)
            },
            Resume::Build(render_otherwise) => match self.source_pane(focused_tab) {
                Some(p) => Step::ReadScrollback(p),
                None => finish(render_otherwise),
            },
            Resume::Open => self.open_from(self.source_pane(focused_tab)),
        }
    }

    /// Takes the scrollback of the pane, or the message that it could not be read.
    pub fn scrollback_read(&mut self, source: PaneId, contents: Result<PaneContents, String>) -> (r:
        Step)
        ensures
            r@ == done(true),
            final(self)@ == (match contents {
                Ok(c) => old(self)@.built(source, c.lines()),
                Err(e) => old(self)@.build_failed(e@),
            }),
    {
        match contents {
            Ok(c) => {
                self.targets = scrollback::extract_targets(&c);
                self.selected = 0;
                self.scroll_offset = 0;
                self.pending_build = false;
                self.built_source = Some(source);
                self.status = None;
            },
            Err(e) => {
                let mut message = String::new();
                message.append("Couldn't read scrollback: ");
                message.append(e.as_str());
                assert(message@ =~= "Couldn't read scrollback: "@ + e@);
                self.status = Some(message);
            },
        }
        finish(true)
    }

    /// Takes the pane that the editor was opened in, if one was.
    pub fn file_opened(&mut self, source: Option<PaneId>, editor: Option<PaneId>) -> (r: Step)
        ensures
            r@ == old(self)@.opened_step(source, editor),
            final(self)@ == (StateModel { suppress_reopen: true, ..old(self)@ }),
    {
        let mut effects: Vec<Effect> = Vec::new();
        if let (Some(s), Some(e)) = (source, editor) {
            effects.push(Effect::StackPanes(s, e));
        }
        self.suppress_reopen = true;
        effects.push(Effect::FocusPlugin(self.plugin_id));
        let r = Step::Done { effects, render: true };
        assert(r@->effects =~= old(self)@.opened_step(source, editor)->effects);
        r
    }
}

/// The empty query matches everything.
proof fn all_are_hits(haystacks: Seq<Seq<char>>, n: nat)
    ensures
        fuzzy::hits(haystacks, Seq::empty(), n) == Seq::new(n, |i: int| i as usize),
    decreases n,
{
    if n > 0 {
        all_are_hits(haystacks, (n - 1) as nat);
        assert(fuzzy::places(haystacks[n - 1], Seq::empty(), Seq::empty()));
    }
    assert(fuzzy::hits(haystacks, Seq::empty(), n) =~= Seq::new(n, |i: int| i as usize));
}

impl StateModel {
    /// The positions of the matching targets are positions of targets, and ascend.
    pub proof fn filtered_is_in_range(self)
        requires
            self.targets.len() <= usize::MAX,
        ensures
            self.filtered().len() <= self.targets.len(),
            forall|i: int|
                0 <= i < self.filtered().len() ==> #[trigger] self.filtered()[i]
                    < self.targets.len(),
            forall|i: int, j: int|
                0 <= i < j < self.filtered().len() ==> #[trigger] self.filtered()[i]
                    < #[trigger] self.filtered()[j],
    {
        fuzzy::hits_are_the_matches(
            searched(self.targets),
            chars::lowercase(self.query),
            self.targets.len(),
        );
    }
}

}
