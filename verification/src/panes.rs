//! The primary session and its fork side by side.

use crate::context::{completed_transcript_tokens, tokens_told};
use crate::draw::Tone;
use crate::event::{Event, MouseEvent, MouseKind};
use crate::geometry::{Position, Rect};
use crate::input::{commands, is_control_c};
use crate::node::{ComponentUpdate, RenderRequest};
use crate::order::texts;
use crate::record::TranscriptRecord;
use crate::root::{
    requests, RestoredRecord, Root, RootEffect, RootEvent, RootNode, RootRequest, RootStep, Waves,
};
use crate::session::SessionSummary;
use crate::settings::{PaneId, ReasoningEffort, ThemeMode};
use crate::subagents::AgentUpdate;
use crate::text::{concat, width};
use crate::theme::{ColorScheme, Theme};
use crate::transcript::{Change, Content, Record};
use vstd::prelude::*;

verus! {

/// The hint over two panes.
pub const SPLIT_HINT: &'static str = " mouse: focus · Ctrl+C: clear / close ";

/// The columns that the hint needs.
pub const MIN_SPLIT_HINT_WIDTH: u16 = 60;

/// What happens to the program.
#[derive(Debug)]
pub enum AppEvent {
    /// An event of the terminal, with the files of the workspace if it opens the file finder and
    /// the content that a fork would take over.
    Terminal { event: Event, files: Vec<String>, snapshot: Content },
    PasteImage(String),
    /// A record, and what it changes in the transcript.
    Transcript { pane: PaneId, record: TranscriptRecord, change: Change },
    AgentStreamClosed { pane: PaneId, change: Change },
    Subagent { pane: PaneId, update: AgentUpdate },
    EditorDraft { pane: PaneId, draft: String },
    QueueEditorFinished { pane: PaneId, index: usize, text: String },
    WorkerTurnFinished(PaneId),
    ShellFinished(PaneId),
    TurnsCancelled(PaneId),
    SteerAdmitted { pane: PaneId, id: u64 },
    SteerPromoted { pane: PaneId, id: u64 },
    SteerFailed { pane: PaneId, id: u64 },
    ForkReady(PaneId),
    ForkFailed { pane: PaneId, error: String },
    NewSessionReady { pane: PaneId, effort: ReasoningEffort, fast_mode: bool },
    NewSessionFailed { pane: PaneId, error: String },
    SessionsLoaded { pane: PaneId, sessions: Vec<SessionSummary> },
    SessionLoadFailed { pane: PaneId, error: String },
    SessionRestored {
        pane: PaneId,
        records: Vec<RestoredRecord>,
        effort: ReasoningEffort,
        fast_mode: bool,
    },
    NotifyError { pane: PaneId, error: String },
    NotifySuccess { pane: PaneId, message: String },
    UpdateAvailable(String),
    ConfigReloaded { pane: PaneId, theme: Theme, message: String },
    ConfigReloadFailed { pane: PaneId, error: String },
    SystemThemeChanged(ColorScheme),
    AnimationFrame { main: Waves, fork: Waves },
}

/// What the program asks for.
#[derive(Debug)]
pub enum AppEffect {
    Pane { pane: PaneId, effect: RootEffect },
    OpenFork(PaneId),
    ClosePane(PaneId),
    SetTheme(ThemeMode),
    Shutdown,
}

/// A request as mathematical values.
pub enum AppRequest {
    Pane { pane: PaneId, request: RootRequest },
    OpenFork(PaneId),
    ClosePane(PaneId),
    SetTheme(ThemeMode),
    Shutdown,
}

impl View for AppEffect {
    type V = AppRequest;

    open spec fn view(&self) -> AppRequest {
        match self {
            AppEffect::Pane { pane, effect } => AppRequest::Pane { pane: *pane, request: effect@ },
            AppEffect::OpenFork(pane) => AppRequest::OpenFork(*pane),
            AppEffect::ClosePane(pane) => AppRequest::ClosePane(*pane),
            AppEffect::SetTheme(mode) => AppRequest::SetTheme(*mode),
            AppEffect::Shutdown => AppRequest::Shutdown,
        }
    }
}

pub open spec fn app_requests(effects: Seq<AppEffect>) -> Seq<AppRequest> {
    effects.map_values(|effect: AppEffect| effect@)
}

/// A fork and its number.
#[derive(Debug)]
pub struct ForkPane {
    pub id: u64,
    pub root: RootNode,
}

/// The primary session and its fork.
#[derive(Debug)]
pub struct AppNode {
    pub theme: Theme,
    pub workspace: String,
    pub main: Option<RootNode>,
    pub fork: Option<ForkPane>,
    pub focus: PaneId,
    pub main_area: Rect,
    pub fork_area: Rect,
    pub next_fork: u64,
}

/// A fork as mathematical values.
pub struct Fork {
    pub id: u64,
    pub root: Root,
}

/// The program as mathematical values.
pub struct App {
    pub theme: Theme,
    pub workspace: Seq<char>,
    pub main: Option<Root>,
    pub fork: Option<Fork>,
    pub focus: PaneId,
    pub main_area: Rect,
    pub fork_area: Rect,
    pub next_fork: u64,
}

pub open spec fn root_view(root: Option<RootNode>) -> Option<Root> {
    match root {
        Some(root) => Some(root@),
        None => None,
    }
}

pub open spec fn fork_view(fork: Option<ForkPane>) -> Option<Fork> {
    match fork {
        Some(fork) => Some(Fork { id: fork.id, root: fork.root@ }),
        None => None,
    }
}

impl View for AppNode {
    type V = App;

    open spec fn view(&self) -> App {
        App {
            theme: self.theme,
            workspace: self.workspace@,
            main: root_view(self.main),
            fork: fork_view(self.fork),
            focus: self.focus,
            main_area: self.main_area,
            fork_area: self.fork_area,
            next_fork: self.next_fork,
        }
    }
}

/// The program after an event, and its answer.
pub struct AppStep {
    pub app: App,
    pub effects: Seq<AppRequest>,
    pub render: RenderRequest,
}

impl App {
    pub open spec fn answer(self, effects: Seq<AppRequest>, render: RenderRequest) -> AppStep {
        AppStep { app: self, effects, render }
    }

    pub open spec fn idle(self) -> AppStep {
        self.answer(Seq::empty(), RenderRequest::Idle)
    }

    pub open spec fn shown(self) -> AppStep {
        self.answer(Seq::empty(), RenderRequest::Immediate)
    }

    /// The session in a pane.
    pub open spec fn session(self, pane: PaneId) -> Option<Root> {
        match pane {
            PaneId::Main => self.main,
            PaneId::Fork(id) => match self.fork {
                Some(fork) => if fork.id == id {
                    Some(fork.root)
                } else {
                    None
                },
                None => None,
            },
        }
    }

    /// The program with another session in a pane.
    pub open spec fn with_session(self, pane: PaneId, root: Root) -> App {
        match pane {
            PaneId::Main => App { main: Some(root), ..self },
            PaneId::Fork(id) => App { fork: Some(Fork { id, root }), ..self },
        }
    }

    /// The pane that speaks for the program.
    pub open spec fn speaker(self) -> PaneId {
        if self.main is Some {
            PaneId::Main
        } else {
            self.focus
        }
    }

    /// Every session with another theme.
    pub open spec fn themed(self, mode: ThemeMode) -> App {
        App {
            theme: Theme { mode, ..self.theme },
            main: match self.main {
                Some(root) => Some(Root { theme_mode: mode, ..root }),
                None => None,
            },
            fork: match self.fork {
                Some(fork) => Some(
                    Fork { id: fork.id, root: Root { theme_mode: mode, ..fork.root } },
                ),
                None => None,
            },
            ..self
        }
    }

    /// A fork of the primary session opens and gets the focus.
    #[verifier::opaque]
    pub open spec fn forked(self, snapshot: Record, now: int) -> App {
        let main = Root { fork_available: false, ..self.main->0 };
        App {
            main: Some(main),
            fork: Some(
                Fork {
                    id: self.next_fork,
                    root: main.branched(self.workspace, main.composer.effort, snapshot, now),
                },
            ),
            focus: PaneId::Fork(self.next_fork),
            next_fork: if self.next_fork == u64::MAX {
                u64::MAX
            } else {
                (self.next_fork + 1) as u64
            },
            ..self
        }
    }

    /// A session asks for something. There is at most one fork.
    #[verifier::opaque]
    pub open spec fn requested(
        self,
        pane: PaneId,
        request: RootRequest,
        snapshot: Option<Record>,
        now: int,
    ) -> (App, Seq<AppRequest>) {
        match request {
            RootRequest::Fork => if self.fork is None && self.main is Some && snapshot is Some {
                (
                    self.forked(snapshot->0, now),
                    seq![AppRequest::OpenFork(PaneId::Fork(self.next_fork))],
                )
            } else {
                (self, Seq::empty())
            },
            RootRequest::Shutdown => (self, seq![AppRequest::Shutdown]),
            RootRequest::SetTheme(mode) => (self.themed(mode), seq![AppRequest::SetTheme(mode)]),
            _ => (self, seq![AppRequest::Pane { pane, request }]),
        }
    }

    /// A session asks for the first `n` of some things.
    pub open spec fn requested_all(
        self,
        pane: PaneId,
        list: Seq<RootRequest>,
        snapshot: Option<Record>,
        now: int,
        n: int,
    ) -> (App, Seq<AppRequest>)
        decreases n,
    {
        if n <= 0 {
            (self, Seq::empty())
        } else {
            let (app, effects) = self.requested_all(pane, list, snapshot, now, n - 1);
            let (next, more) = app.requested(pane, list[n - 1], snapshot, now);
            (next, effects + more)
        }
    }

    /// A session answers.
    pub open spec fn answered(
        self,
        pane: PaneId,
        effects: Seq<RootRequest>,
        render: RenderRequest,
        snapshot: Option<Record>,
        now: int,
    ) -> AppStep {
        let (app, asked) = self.requested_all(pane, effects, snapshot, now, effects.len() as int);
        app.answer(asked, render)
    }

    /// An event reaches a session.
    #[verifier::opaque]
    pub open spec fn routed(
        self,
        pane: PaneId,
        event: RootEvent,
        snapshot: Option<Record>,
        now: u64,
    ) -> AppStep {
        match self.session(pane) {
            None => self.idle(),
            Some(root) => self.landed(pane, root.on_event(event, now), snapshot, now as int),
        }
    }

    /// A session takes a step.
    pub open spec fn landed(
        self,
        pane: PaneId,
        step: RootStep,
        snapshot: Option<Record>,
        now: int,
    ) -> AppStep {
        self.with_session(pane, step.root).answered(
            pane,
            step.effects,
            step.render,
            snapshot,
            now,
        )
    }

    /// An event of the terminal reaches a session.
    #[verifier::opaque]
    pub open spec fn typed(
        self,
        pane: PaneId,
        event: Event,
        files: Seq<Seq<char>>,
        snapshot: Option<Record>,
        now: int,
    ) -> AppStep {
        match self.session(pane) {
            None => self.idle(),
            Some(root) => self.landed(
                pane,
                root.on_terminal(event, files, now),
                snapshot,
                now,
            ),
        }
    }

    /// Two events reach sessions, one after the other.
    pub open spec fn joined(first: AppStep, second: AppStep) -> AppStep {
        AppStep {
            app: second.app,
            effects: first.effects + second.effects,
            render: first.render.or(second.render),
        }
    }

    /// A pane closes, and the other one gets the focus.
    #[verifier::opaque]
    pub open spec fn without(self, pane: PaneId) -> App {
        let next = match pane {
            PaneId::Main => App { main: None, ..self },
            PaneId::Fork(id) => if self.fork matches Some(fork) && fork.id == id {
                App { fork: None, ..self }
            } else {
                self
            },
        };
        if pane is Fork && !(self.fork matches Some(fork) && PaneId::Fork(fork.id) == pane) {
            self
        } else if next.main is Some {
            App {
                focus: PaneId::Main,
                main: if next.fork is None {
                    Some(Root { fork_available: true, ..next.main->0 })
                } else {
                    next.main
                },
                ..next
            }
        } else {
            match next.fork {
                Some(fork) => App { focus: PaneId::Fork(fork.id), ..next },
                None => next,
            }
        }
    }

    /// A button that goes down gives its pane the focus.
    pub open spec fn pointed(self, event: Event) -> App {
        match event {
            Event::Mouse(mouse) => {
                let position = Position { x: mouse.column, y: mouse.row };
                if !(mouse.kind is Down) {
                    self
                } else if self.fork_area.covers(position) {
                    App {
                        focus: match self.fork {
                            Some(fork) => PaneId::Fork(fork.id),
                            None => PaneId::Main,
                        },
                        ..self
                    }
                } else if self.main_area.covers(position) {
                    App { focus: PaneId::Main, ..self }
                } else {
                    self
                }
            },
            _ => self,
        }
    }

    /// Both sessions get an event.
    pub open spec fn shared(self, first: RootEvent, second: RootEvent, now: u64) -> AppStep {
        let main = self.routed(PaneId::Main, first, None, now);
        match main.app.fork {
            None => main,
            Some(fork) => App::joined(
                main,
                main.app.routed(PaneId::Fork(fork.id), second, None, now),
            ),
        }
    }
}

impl AppNode {
    pub open spec fn wf(self) -> bool {
        &&& self.main matches Some(root) ==> root.wf()
        &&& self.fork matches Some(fork) ==> fork.root.wf()
    }

    /// The program took a step and gave its answer.
    pub open spec fn steps(self, update: ComponentUpdate<AppEffect>, step: AppStep) -> bool {
        &&& self.wf()
        &&& self@ == step.app
        &&& update.render == step.render
        &&& app_requests(update.effects@) == step.effects
    }
}

fn quiet(render: RenderRequest) -> (update: ComponentUpdate<AppEffect>)
    ensures
        update.render == render,
        app_requests(update.effects@) == Seq::<AppRequest>::empty(),
{
    let update: ComponentUpdate<AppEffect> = ComponentUpdate::render(render);
    assert(app_requests(update.effects@) =~= Seq::<AppRequest>::empty());
    update
}

/// What two updates ask for together.
pub open spec fn merged_render(
    first: Option<ComponentUpdate<AppEffect>>,
    second: Option<ComponentUpdate<AppEffect>>,
) -> RenderRequest {
    let a = match first {
        Some(update) => update.render,
        None => RenderRequest::Idle,
    };
    match second {
        Some(update) => a.or(update.render),
        None => a,
    }
}

/// The effects of an update, if there is one.
pub open spec fn effects_of(update: Option<ComponentUpdate<AppEffect>>) -> Seq<AppEffect> {
    match update {
        Some(update) => update.effects@,
        None => Seq::empty(),
    }
}

/// Joins two updates: the effects of the first come first, and the more urgent frame is wanted.
pub fn merge_updates(
    first: Option<ComponentUpdate<AppEffect>>,
    second: Option<ComponentUpdate<AppEffect>>,
) -> (merged: ComponentUpdate<AppEffect>)
    ensures
        merged.effects@ == effects_of(first) + effects_of(second),
        merged.render == merged_render(first, second),
{
    let mut merged: ComponentUpdate<AppEffect> = ComponentUpdate::none();
    match first {
        Some(update) => {
            let mut update = update;
            merged.effects.append(&mut update.effects);
            merged.render = merged.render.max(update.render);
        },
        None => {},
    }
    match second {
        Some(update) => {
            let mut update = update;
            merged.effects.append(&mut update.effects);
            merged.render = merged.render.max(update.render);
        },
        None => {},
    }
    assert(merged.effects@ =~= effects_of(first) + effects_of(second));
    merged
}

impl AppNode {
    /// The program with one session.
    pub fn new(theme: Theme, workspace: String, root: RootNode) -> (app: Self)
        requires
            root.wf(),
        ensures
            app.wf(),
            app@ == (App {
                theme,
                workspace: workspace@,
                main: Some(Root { theme_mode: theme.mode, ..root@ }),
                fork: None,
                focus: PaneId::Main,
                main_area: Rect { x: 0, y: 0, width: 0, height: 0 },
                fork_area: Rect { x: 0, y: 0, width: 0, height: 0 },
                next_fork: 1,
            }),
    {
        let mut root = root;
        root.set_theme_mode(theme.mode());
        AppNode {
            theme,
            workspace,
            main: Some(root),
            fork: None,
            focus: PaneId::Main,
            main_area: Rect::none(),
            fork_area: Rect::none(),
            next_fork: 1,
        }
    }

    /// The session in a pane.
    pub fn root(&self, pane: PaneId) -> (root: Option<&RootNode>)
        ensures
            match root {
                Some(root) => self@.session(pane) == Some(root@) && (self.wf() ==> root.wf()),
                None => self@.session(pane) is None,
            },
    {
        match pane {
            PaneId::Main => match &self.main {
                Some(root) => Some(root),
                None => None,
            },
            PaneId::Fork(id) => match &self.fork {
                Some(fork) => if fork.id == id {
                    Some(&fork.root)
                } else {
                    None
                },
                None => None,
            },
        }
    }

    /// Gives every session a theme.
    pub fn set_theme_mode(&mut self, mode: ThemeMode)
        requires
            old(self).wf(),
        ensures
            final(self).wf(),
            final(self)@ == old(self)@.themed(mode),
    {
        self.theme.set_mode(mode);
        match self.main.take() {
            Some(root) => {
                let mut root = root;
                root.set_theme_mode(mode);
                self.main = Some(root);
            },
            None => {},
        }
        match self.fork.take() {
            Some(fork) => {
                let mut fork = fork;
                fork.root.set_theme_mode(mode);
                self.fork = Some(fork);
            },
            None => {},
        }
    }

    /// Opens a fork of the primary session.
    pub fn begin_fork(&mut self, snapshot: Content, now: u64) -> (pane: PaneId)
        requires
            old(self).wf(),
            old(self)@.main is Some,
        ensures
            final(self).wf(),
            final(self)@ == old(self)@.forked(snapshot@, now as int),
            pane == PaneId::Fork(old(self)@.next_fork),
    {
        proof {
            reveal(App::forked);
        }
        let id: u64 = self.next_fork;
        match self.main.take() {
            Some(root) => {
                let mut main = root;
                main.set_fork_available(false);
                let thinking = main.composer.effort();
                let root = main.fork(self.workspace.clone(), thinking, snapshot, now);
                self.fork = Some(ForkPane { id, root });
                self.main = Some(main);
            },
            None => {},
        }
        self.next_fork = self.next_fork.saturating_add(1);
        self.focus = PaneId::Fork(id);
        PaneId::Fork(id)
    }

    /// Turns what a session asks for into what the program asks for.
    pub fn map_root_update(
        &mut self,
        pane: PaneId,
        update: ComponentUpdate<RootEffect>,
        snapshot: Option<Content>,
        now: u64,
    ) -> (answer: ComponentUpdate<AppEffect>)
        requires
            old(self).wf(),
        ensures
            final(self).steps(
                answer,
                old(self)@.answered(
                    pane,
                    requests(update.effects@),
                    update.render,
                    record_view(snapshot),
                    now as int,
                ),
            ),
    {
        let render = update.render;
        let ghost start = self@;
        let ghost all = update.effects@;
        let ghost list = requests(all);
        let ghost content = record_view(snapshot);
        let mut rest = update.effects;
        let mut snapshot = snapshot;
        let mut effects: Vec<AppEffect> = Vec::new();
        let ghost mut n: int = 0;
        assert(app_requests(effects@) =~= Seq::<AppRequest>::empty());
        while rest.len() > 0
            invariant
                self.wf(),
                0 <= n <= all.len(),
                list == requests(all),
                rest@ == all.skip(n),
                self@ == start.requested_all(pane, list, content, now as int, n).0,
                app_requests(effects@) == start.requested_all(
                    pane,
                    list,
                    content,
                    now as int,
                    n,
                ).1,
                self@.fork is None ==> record_view(snapshot) == content,
            decreases rest@.len(),
        {
            proof {
                reveal(App::requested);
                reveal(App::forked);
            }
            let ghost sofar = app_requests(effects@);
            let ghost app = self@;
            assert(rest@[0] == all[n]);
            let effect = rest.remove(0);
            assert(list[n] == effect@);
            match effect {
                RootEffect::Fork => {
                    if self.fork.is_none() && self.main.is_some() {
                        match snapshot.take() {
                            Some(content) => {
                                let opened = AppEffect::OpenFork(self.begin_fork(content, now));
                                effects.push(opened);
                                assert(app_requests(effects@) =~= sofar + seq![opened@]);
                            },
                            None => {
                                assert(sofar =~= sofar + Seq::<AppRequest>::empty());
                            },
                        }
                    } else {
                        assert(sofar =~= sofar + Seq::<AppRequest>::empty());
                    }
                },
                RootEffect::Shutdown => {
                    effects.push(AppEffect::Shutdown);
                    assert(app_requests(effects@) =~= sofar + seq![AppRequest::Shutdown]);
                },
                RootEffect::SetTheme(mode) => {
                    self.set_theme_mode(mode);
                    effects.push(AppEffect::SetTheme(mode));
                    assert(app_requests(effects@) =~= sofar + seq![AppRequest::SetTheme(mode)]);
                },
                _ => {
                    let ghost request = effect@;
                    effects.push(AppEffect::Pane { pane, effect });
                    assert(app_requests(effects@) =~= sofar + seq![
                        AppRequest::Pane { pane, request },
                    ]);
                },
            }
            proof {
                n = n + 1;
                assert(rest@ =~= all.skip(n));
                assert(app_requests(effects@) == sofar + app.requested(
                    pane,
                    list[n - 1],
                    content,
                    now as int,
                ).1);
            }
        }
        ComponentUpdate { effects, render }
    }

    /// Hands an event to a session.
    pub fn update_root(
        &mut self,
        pane: PaneId,
        event: RootEvent,
        snapshot: Option<Content>,
        now: u64,
    ) -> (update: ComponentUpdate<AppEffect>)
        requires
            old(self).wf(),
        ensures
            final(self).steps(
                update,
                old(self)@.routed(pane, event, record_view(snapshot), now),
            ),
    {
        proof {
            reveal(App::routed);
        }
        match pane {
            PaneId::Main => match self.main.take() {
                None => quiet(RenderRequest::Idle),
                Some(root) => {
                    let mut root = root;
                    let update = root.update(event, now);
                    self.main = Some(root);
                    self.map_root_update(pane, update, snapshot, now)
                },
            },
            PaneId::Fork(id) => match self.fork.take() {
                None => quiet(RenderRequest::Idle),
                Some(fork) => {
                    let mut fork = fork;
                    if fork.id != id {
                        self.fork = Some(fork);
                        return quiet(RenderRequest::Idle);
                    }
                    let update = fork.root.update(event, now);
                    self.fork = Some(fork);
                    self.map_root_update(pane, update, snapshot, now)
                },
            },
        }
    }

    /// Closes a pane.
    pub fn remove_pane(&mut self, pane: PaneId)
        requires
            old(self).wf(),
        ensures
            final(self).wf(),
            final(self)@ == old(self)@.without(pane),
    {
        proof {
            reveal(App::without);
        }
        match pane {
            PaneId::Main => {
                self.main = None;
            },
            PaneId::Fork(id) => {
                let known: bool = match &self.fork {
                    Some(fork) => fork.id == id,
                    None => false,
                };
                if !known {
                    return ;
                }
                self.fork = None;
            },
        }
        match self.main.take() {
            Some(root) => {
                let mut main = root;
                self.focus = PaneId::Main;
                if self.fork.is_none() {
                    main.set_fork_available(true);
                }
                self.main = Some(main);
            },
            None => {
                match &self.fork {
                    Some(fork) => {
                        self.focus = PaneId::Fork(fork.id);
                    },
                    None => {},
                }
            },
        }
    }

    fn update_both(&mut self, first: RootEvent, second: RootEvent, now: u64) -> (update:
        ComponentUpdate<AppEffect>)
        requires
            old(self).wf(),
        ensures
            final(self).steps(update, old(self)@.shared(first, second, now)),
    {
        let main = self.update_root(PaneId::Main, first, None, now);
        let fork: Option<u64> = match &self.fork {
            Some(fork) => Some(fork.id),
            None => None,
        };
        match fork {
            None => main,
            Some(id) => {
                let ghost front = main.effects@;
                let other = self.update_root(PaneId::Fork(id), second, None, now);
                let ghost back = other.effects@;
                let merged = merge_updates(Some(main), Some(other));
                assert(app_requests(merged.effects@) =~= app_requests(front) + app_requests(back));
                merged
            },
        }
    }
}

pub open spec fn record_view(content: Option<Content>) -> Option<Record> {
    match content {
        Some(content) => Some(content@),
        None => None,
    }
}

impl App {
    /// The size of the terminal changes: both sessions draw anew.
    #[verifier::opaque]
    pub open spec fn on_resize(self, event: Event, files: Seq<Seq<char>>, now: int) -> AppStep {
        let main = self.typed(PaneId::Main, event, files, None, now);
        let both = match main.app.fork {
            None => main,
            Some(fork) => App::joined(
                main,
                main.app.typed(PaneId::Fork(fork.id), event, Seq::empty(), None, now),
            ),
        };
        AppStep { render: RenderRequest::Immediate, ..both }
    }

    /// Control-c with two panes: where it would end the program, it closes the pane.
    #[verifier::opaque]
    pub open spec fn on_close(
        self,
        event: Event,
        files: Seq<Seq<char>>,
        snapshot: Record,
        now: int,
    ) -> AppStep {
        let step = self.typed(self.focus, event, files, Some(snapshot), now);
        if step.effects == seq![AppRequest::Shutdown] {
            step.app.without(self.focus).answer(
                seq![AppRequest::ClosePane(self.focus)],
                RenderRequest::Immediate,
            )
        } else {
            step
        }
    }

    /// An event of the terminal.
    #[verifier::opaque]
    pub open spec fn on_terminal(
        self,
        event: Event,
        files: Seq<Seq<char>>,
        snapshot: Record,
        now: int,
    ) -> AppStep {
        if event is Resize {
            self.on_resize(event, files, now)
        } else if self.fork is Some && commands(event, 'c') {
            self.on_close(event, files, snapshot, now)
        } else {
            let pointed = self.pointed(event);
            pointed.typed(pointed.focus, event, files, Some(snapshot), now)
        }
    }

    /// A record, and the tokens that it tells.
    #[verifier::opaque]
    pub open spec fn on_record(
        self,
        pane: PaneId,
        event: RootEvent,
        tokens: Option<u64>,
        now: u64,
    ) -> AppStep {
        let step = self.routed(pane, event, None, now);
        match tokens {
            None => step,
            Some(tokens) => App::joined(
                step,
                step.app.routed(pane, RootEvent::ContextTokens(tokens), None, now),
            ),
        }
    }

    /// A session tells of an error.
    #[verifier::opaque]
    pub open spec fn failed(self, pane: PaneId, message: Seq<char>, now: int) -> AppStep {
        match self.session(pane) {
            None => self.idle(),
            Some(root) => self.with_session(
                pane,
                root.notified(crate::root::plain_notice(message, Tone::Red, now)),
            ).shown(),
        }
    }

    /// A session starts anew.
    #[verifier::opaque]
    pub open spec fn renewed(
        self,
        pane: PaneId,
        effort: ReasoningEffort,
        fast: bool,
        now: int,
    ) -> AppStep {
        match self.session(pane) {
            None => self.idle(),
            Some(root) => self.with_session(
                pane,
                root.reset(self.workspace, effort, now).with_fast_mode(fast),
            ).shown(),
        }
    }

    /// Another palette is shown.
    #[verifier::opaque]
    pub open spec fn on_scheme(self, scheme: ColorScheme) -> AppStep {
        let theme = Theme { system: scheme, ..self.theme };
        App { theme, ..self }.answer(
            Seq::empty(),
            if theme.shown() != self.theme.shown() {
                RenderRequest::Immediate
            } else {
                RenderRequest::Idle
            },
        )
    }

    /// An event of one pane's session.
    pub open spec fn within(self, pane: PaneId, event: RootEvent, now: u64) -> AppStep {
        self.routed(pane, event, None, now)
    }

    #[verifier::opaque]
    pub open spec fn on_event(self, event: AppEvent, now: u64) -> AppStep {
        match event {
            AppEvent::Terminal { event, files, snapshot } => self.on_terminal(
                event,
                texts(files@),
                snapshot@,
                now as int,
            ),
            AppEvent::PasteImage(data_url) => self.within(
                self.focus,
                RootEvent::PasteImage(data_url),
                now,
            ),
            AppEvent::Transcript { pane, record, change } => self.on_record(
                pane,
                RootEvent::Transcript { record, change },
                tokens_told(record),
                now,
            ),
            AppEvent::AgentStreamClosed { pane, change } => self.within(
                pane,
                RootEvent::AgentStreamClosed(change),
                now,
            ),
            AppEvent::Subagent { pane, update } => self.within(
                pane,
                RootEvent::Subagent(update),
                now,
            ),
            AppEvent::EditorDraft { pane, draft } => self.within(
                pane,
                RootEvent::ReplaceDraft(draft),
                now,
            ),
            AppEvent::QueueEditorFinished { pane, index, text } => self.within(
                pane,
                RootEvent::RestoreQueued { index, text },
                now,
            ),
            AppEvent::WorkerTurnFinished(pane) => self.within(
                pane,
                RootEvent::WorkerTurnFinished,
                now,
            ),
            AppEvent::ShellFinished(pane) => self.within(pane, RootEvent::ShellFinished, now),
            AppEvent::TurnsCancelled(pane) => self.within(pane, RootEvent::TurnsCancelled, now),
            AppEvent::SteerAdmitted { pane, id } => self.within(
                pane,
                RootEvent::SteerAdmitted(id),
                now,
            ),
            AppEvent::SteerPromoted { pane, id } => self.within(
                pane,
                RootEvent::SteerPromoted(id),
                now,
            ),
            AppEvent::SteerFailed { pane, id } => self.within(
                pane,
                RootEvent::SteerFailed { id },
                now,
            ),
            AppEvent::ForkReady(pane) => self.within(pane, RootEvent::ForkReady, now),
            AppEvent::ForkFailed { pane, error } => {
                let rest = self.without(pane);
                rest.failed(rest.speaker(), "Could not fork session: "@ + error@, now as int)
            },
            AppEvent::NewSessionReady { pane, effort, fast_mode } => self.renewed(
                pane,
                effort,
                fast_mode,
                now as int,
            ),
            AppEvent::NewSessionFailed { pane, error } => self.within(
                pane,
                RootEvent::NewSessionFailed(error),
                now,
            ),
            AppEvent::SessionsLoaded { pane, sessions } => self.within(
                pane,
                RootEvent::SessionsLoaded(sessions),
                now,
            ),
            AppEvent::SessionLoadFailed { pane, error } => self.within(
                pane,
                RootEvent::SessionLoadFailed(error),
                now,
            ),
            AppEvent::SessionRestored { pane, records, effort, fast_mode } => self.within(
                pane,
                RootEvent::SessionRestored { records, effort, fast_mode },
                now,
            ),
            AppEvent::NotifyError { pane, error } => self.within(
                pane,
                RootEvent::NotifyError(error),
                now,
            ),
            AppEvent::NotifySuccess { pane, message } => self.within(
                pane,
                RootEvent::NotifySuccess(message),
                now,
            ),
            AppEvent::UpdateAvailable(version) => self.within(
                self.speaker(),
                RootEvent::UpdateAvailable(version),
                now,
            ),
            AppEvent::ConfigReloaded { pane, theme, message } => self.themed(theme.mode).within(
                pane,
                RootEvent::NotifySuccess(message),
                now,
            ),
            AppEvent::ConfigReloadFailed { pane, error } => self.within(
                pane,
                RootEvent::NotifyError(error),
                now,
            ),
            AppEvent::SystemThemeChanged(scheme) => self.on_scheme(scheme),
            AppEvent::AnimationFrame { main, fork } => self.shared(
                RootEvent::AnimationFrame(main),
                RootEvent::AnimationFrame(fork),
                now,
            ),
        }
    }
}

impl AppNode {
    fn type_into(
        &mut self,
        pane: PaneId,
        event: Event,
        files: Vec<String>,
        snapshot: Option<Content>,
        now: u64,
    ) -> (update: ComponentUpdate<AppEffect>)
        requires
            old(self).wf(),
        ensures
            final(self).steps(
                update,
                old(self)@.typed(
                    pane,
                    event,
                    texts(files@),
                    record_view(snapshot),
                    now as int,
                ),
            ),
    {
        proof {
            reveal(App::routed);
            reveal(App::typed);
            reveal(Root::on_event);
        }
        self.update_root(pane, RootEvent::Terminal { event, files }, snapshot, now)
    }

    fn resize(&mut self, width: u16, height: u16, files: Vec<String>, now: u64) -> (update:
        ComponentUpdate<AppEffect>)
        requires
            old(self).wf(),
        ensures
            final(self).steps(
                update,
                old(self)@.on_resize(Event::Resize(width, height), texts(files@), now as int),
            ),
    {
        proof {
            reveal(App::on_resize);
        }
        let mut update = self.type_into(
            PaneId::Main,
            Event::Resize(width, height),
            files,
            None,
            now,
        );
        let fork: Option<u64> = match &self.fork {
            Some(fork) => Some(fork.id),
            None => None,
        };
        match fork {
            None => {},
            Some(id) => {
                let ghost front = update.effects@;
                let nothing: Vec<String> = Vec::new();
                assert(texts(nothing@) =~= Seq::<Seq<char>>::empty());
                let other = self.type_into(
                    PaneId::Fork(id),
                    Event::Resize(width, height),
                    nothing,
                    None,
                    now,
                );
                let ghost back = other.effects@;
                update = merge_updates(Some(update), Some(other));
                assert(app_requests(update.effects@) =~= app_requests(front) + app_requests(back));
            },
        }
        update.render = RenderRequest::Immediate;
        update
    }

    fn close(&mut self, event: Event, files: Vec<String>, snapshot: Content, now: u64) -> (update:
        ComponentUpdate<AppEffect>)
        requires
            old(self).wf(),
        ensures
            final(self).steps(
                update,
                old(self)@.on_close(event, texts(files@), snapshot@, now as int),
            ),
    {
        proof {
            reveal(App::on_close);
        }
        let pane = self.focus;
        let update = self.type_into(pane, event, files, Some(snapshot), now);
        let ghost asked = app_requests(update.effects@);
        let ends: bool = update.effects.len() == 1 && match &update.effects[0] {
            AppEffect::Shutdown => true,
            _ => false,
        };
        proof {
            if ends {
                assert(asked[0] == update.effects@[0]@);
                assert(asked =~= seq![AppRequest::Shutdown]);
            } else if asked == seq![AppRequest::Shutdown] {
                assert(asked.len() == 1 && asked[0] is Shutdown);
                assert(update.effects@.len() == 1);
                assert(asked[0] == update.effects@[0]@);
            }
        }
        if !ends {
            return update;
        }
        self.remove_pane(pane);
        let closed: ComponentUpdate<AppEffect> = ComponentUpdate::one(
            AppEffect::ClosePane(pane),
            RenderRequest::Immediate,
        );
        assert(app_requests(closed.effects@) =~= seq![AppRequest::ClosePane(pane)]);
        closed
    }

    fn point(&mut self, event: &Event)
        requires
            old(self).wf(),
        ensures
            final(self).wf(),
            final(self)@ == old(self)@.pointed(*event),
    {
        let mouse: &MouseEvent = match event {
            Event::Mouse(mouse) => mouse,
            _ => return ,
        };
        match mouse.kind {
            MouseKind::Down(_) => {},
            _ => return ,
        }
        let position = Position { x: mouse.column, y: mouse.row };
        if self.fork_area.contains(position) {
            self.focus = match &self.fork {
                Some(fork) => PaneId::Fork(fork.id),
                None => PaneId::Main,
            };
        } else if self.main_area.contains(position) {
            self.focus = PaneId::Main;
        }
    }

    /// Handles an event of the terminal. `files` are the paths of the workspace, `snapshot` the
    /// content that a fork would take over.
    pub fn update_terminal(
        &mut self,
        event: Event,
        files: Vec<String>,
        snapshot: Content,
        now: u64,
    ) -> (update: ComponentUpdate<AppEffect>)
        requires
            old(self).wf(),
        ensures
            final(self).steps(
                update,
                old(self)@.on_terminal(event, texts(files@), snapshot@, now as int),
            ),
    {
        proof {
            reveal(App::on_terminal);
        }
        if let Event::Resize(width, height) = &event {
            return self.resize(*width, *height, files, now);
        }
        if self.fork.is_some() && is_control_c(&event) {
            return self.close(event, files, snapshot, now);
        }
        self.point(&event);
        self.type_into(self.focus, event, files, Some(snapshot), now)
    }

    fn update_record(&mut self, pane: PaneId, event: RootEvent, tokens: Option<u64>, now: u64) -> (
    update: ComponentUpdate<AppEffect>)
        requires
            old(self).wf(),
        ensures
            final(self).steps(update, old(self)@.on_record(pane, event, tokens, now)),
    {
        proof {
            reveal(App::on_record);
        }
        let update = self.update_root(pane, event, None, now);
        match tokens {
            None => update,
            Some(tokens) => {
                let ghost front = update.effects@;
                let context = self.update_root(pane, RootEvent::ContextTokens(tokens), None, now);
                let ghost back = context.effects@;
                let merged = merge_updates(Some(update), Some(context));
                assert(app_requests(merged.effects@) =~= app_requests(front) + app_requests(back));
                merged
            },
        }
    }

    fn fail(&mut self, pane: PaneId, message: String, now: u64) -> (update: ComponentUpdate<
        AppEffect,
    >)
        requires
            old(self).wf(),
        ensures
            final(self).steps(update, old(self)@.failed(pane, message@, now as int)),
    {
        proof {
            reveal(App::failed);
            reveal(App::routed);
            reveal(Root::on_event);
        }
        self.update_root(pane, RootEvent::NotifyError(message), None, now)
    }

    fn renew(&mut self, pane: PaneId, effort: ReasoningEffort, fast_mode: bool, now: u64) -> (
    update: ComponentUpdate<AppEffect>)
        requires
            old(self).wf(),
        ensures
            final(self).steps(
                update,
                old(self)@.renewed(pane, effort, fast_mode, now as int),
            ),
    {
        proof {
            reveal(App::renewed);
        }
        let workspace: String = self.workspace.clone();
        match pane {
            PaneId::Main => match self.main.take() {
                None => quiet(RenderRequest::Idle),
                Some(root) => {
                    let mut root = root;
                    root.reset_session(workspace, effort, now);
                    root.set_fast_mode(fast_mode);
                    self.main = Some(root);
                    quiet(RenderRequest::Immediate)
                },
            },
            PaneId::Fork(id) => match self.fork.take() {
                None => quiet(RenderRequest::Idle),
                Some(fork) => {
                    let mut fork = fork;
                    if fork.id != id {
                        self.fork = Some(fork);
                        return quiet(RenderRequest::Idle);
                    }
                    fork.root.reset_session(workspace, effort, now);
                    fork.root.set_fast_mode(fast_mode);
                    self.fork = Some(fork);
                    quiet(RenderRequest::Immediate)
                },
            },
        }
    }

    fn speaking(&self) -> (pane: PaneId)
        ensures
            pane == self@.speaker(),
    {
        if self.main.is_some() {
            PaneId::Main
        } else {
            self.focus
        }
    }

    /// Handles an event at a time.
    pub fn update(&mut self, event: AppEvent, now: u64) -> (update: ComponentUpdate<AppEffect>)
        requires
            old(self).wf(),
        ensures
            final(self).steps(update, old(self)@.on_event(event, now)),
    {
        proof {
            reveal(App::on_event);
        }
        match event {
            AppEvent::Terminal { event, files, snapshot } => self.update_terminal(
                event,
                files,
                snapshot,
                now,
            ),
            AppEvent::PasteImage(data_url) => self.update_root(
                self.focus,
                RootEvent::PasteImage(data_url),
                None,
                now,
            ),
            AppEvent::Transcript { pane, record, change } => {
                let tokens: Option<u64> = completed_transcript_tokens(&record);
                self.update_record(pane, RootEvent::Transcript { record, change }, tokens, now)
            },
            AppEvent::AgentStreamClosed { pane, change } => self.update_root(
                pane,
                RootEvent::AgentStreamClosed(change),
                None,
                now,
            ),
            AppEvent::Subagent { pane, update } => self.update_root(
                pane,
                RootEvent::Subagent(update),
                None,
                now,
            ),
            AppEvent::EditorDraft { pane, draft } => self.update_root(
                pane,
                RootEvent::ReplaceDraft(draft),
                None,
                now,
            ),
            AppEvent::QueueEditorFinished { pane, index, text } => self.update_root(
                pane,
                RootEvent::RestoreQueued { index, text },
                None,
                now,
            ),
            AppEvent::WorkerTurnFinished(pane) => self.update_root(
                pane,
                RootEvent::WorkerTurnFinished,
                None,
                now,
            ),
            AppEvent::ShellFinished(pane) => self.update_root(
                pane,
                RootEvent::ShellFinished,
                None,
                now,
            ),
            AppEvent::TurnsCancelled(pane) => self.update_root(
                pane,
                RootEvent::TurnsCancelled,
                None,
                now,
            ),
            AppEvent::SteerAdmitted { pane, id } => self.update_root(
                pane,
                RootEvent::SteerAdmitted(id),
                None,
                now,
            ),
            AppEvent::SteerPromoted { pane, id } => self.update_root(
                pane,
                RootEvent::SteerPromoted(id),
                None,
                now,
            ),
            AppEvent::SteerFailed { pane, id } => self.update_root(
                pane,
                RootEvent::SteerFailed { id },
                None,
                now,
            ),
            AppEvent::ForkReady(pane) => self.update_root(pane, RootEvent::ForkReady, None, now),
            AppEvent::ForkFailed { pane, error } => {
                self.remove_pane(pane);
                let target = self.speaking();
                self.fail(target, concat("Could not fork session: ", error.as_str()), now)
            },
            AppEvent::NewSessionReady { pane, effort, fast_mode } => self.renew(
                pane,
                effort,
                fast_mode,
                now,
            ),
            AppEvent::NewSessionFailed { pane, error } => self.update_root(
                pane,
                RootEvent::NewSessionFailed(error),
                None,
                now,
            ),
            AppEvent::SessionsLoaded { pane, sessions } => self.update_root(
                pane,
                RootEvent::SessionsLoaded(sessions),
                None,
                now,
            ),
            AppEvent::SessionLoadFailed { pane, error } => self.update_root(
                pane,
                RootEvent::SessionLoadFailed(error),
                None,
                now,
            ),
            AppEvent::SessionRestored { pane, records, effort, fast_mode } => self.update_root(
                pane,
                RootEvent::SessionRestored { records, effort, fast_mode },
                None,
                now,
            ),
            AppEvent::NotifyError { pane, error } => self.update_root(
                pane,
                RootEvent::NotifyError(error),
                None,
                now,
            ),
            AppEvent::NotifySuccess { pane, message } => self.update_root(
                pane,
                RootEvent::NotifySuccess(message),
                None,
                now,
            ),
            AppEvent::UpdateAvailable(version) => {
                let pane = self.speaking();
                self.update_root(pane, RootEvent::UpdateAvailable(version), None, now)
            },
            AppEvent::ConfigReloaded { pane, theme, message } => {
                self.theme.replace_from_config(theme);
                let mode = self.theme.mode();
                self.set_theme_mode(mode);
                self.update_root(pane, RootEvent::NotifySuccess(message), None, now)
            },
            AppEvent::ConfigReloadFailed { pane, error } => self.update_root(
                pane,
                RootEvent::NotifyError(error),
                None,
                now,
            ),
            AppEvent::SystemThemeChanged(scheme) => {
                proof {
                    reveal(App::on_scheme);
                }
                if self.theme.set_system_scheme(scheme) {
                    quiet(RenderRequest::Immediate)
                } else {
                    quiet(RenderRequest::Idle)
                }
            },
            AppEvent::AnimationFrame { main, fork } => self.update_both(
                RootEvent::AnimationFrame(main),
                RootEvent::AnimationFrame(fork),
                now,
            ),
        }
    }
}

} // verus!
