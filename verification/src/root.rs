//! A session on the screen: which of its components an event reaches, and what follows from it.

use crate::actions::{
    found, Action, ActionAvailability, ActionsEffect, ActionsEvent, ActionsMenu, MenuModel,
    ACTION_COUNT,
};
use crate::composer::{
    option_view, Composer, ComposerChromeTarget, ComposerEvent, ComposerModel, Reaction, Request,
};
use crate::context::tokens_told;
use crate::draw::{
    bold_colored, colored, say, words, Look, Tone, Word, Words,
};
use crate::event::{Event, KeyCode, MouseButton, MouseEvent, MouseKind};
use crate::file_finder::{FileFinder, FileFinderEvent, FinderModel, FinderRequest};
use crate::format::shortened;
use crate::geometry::{nearest, Position, Rect};
use crate::input::{
    clicks_in, commands, continues_query, edits_mention, navigates_files, presses, toggles_focus,
    types,
};
use crate::keybindings::{closes, KeybindingsEvent, KeybindingsHelp};
use crate::node::{ComponentUpdate, RenderRequest};
use crate::order::texts;
use crate::prompt::{joined_prompts, plain, PromptModel, Submission};
use crate::queue::{Line, MessageQueue, QueueRequest};
use crate::record::TranscriptRecord;
use crate::search::Focus;
use crate::selection::{Selection, Surface};
use crate::selectors::{
    EffortEffect, EffortSelector, ThemeSelector, ThemeSelectorEffect,
};
use crate::session::SessionSummary;
use crate::session_picker::{
    found_sessions, PickerModel, PickerRequest, SessionPicker, SessionPickerEvent,
};
use crate::settings::{ReasoningEffort, ThemeMode};
use crate::spinner::due;
use crate::subagents::{AgentUpdate, Forest, SubagentOverlay, SubagentRequest, SubagentTree};
use crate::text::{between, concat, is_offset, trimmed};
use crate::transcript::{Change, Record, Story, StoryStep, Transcript, TranscriptEvent};
use vstd::prelude::*;

verus! {

/// The milliseconds within which the escape key has to be pressed a second time.
pub const ESCAPE_CHORD_TIMEOUT_MS: u64 = 500;

/// The milliseconds that a notification is shown.
pub const BREADCRUMB_DURATION_MS: u64 = 10_000;

/// A message over the session, its colour, and when it goes away.
#[derive(Debug)]
pub struct Notification {
    pub message: Vec<Words>,
    pub color: Tone,
    pub deadline: u64,
}

/// A notification as mathematical values.
pub struct Notice {
    pub message: Seq<Word>,
    pub color: Tone,
    pub deadline: u64,
}

impl View for Notification {
    type V = Notice;

    open spec fn view(&self) -> Notice {
        Notice { message: words(self.message@), color: self.color, deadline: self.deadline }
    }
}

/// A message in one colour.
pub open spec fn plain_notice(message: Seq<char>, color: Tone, now: int) -> Notice {
    Notice {
        message: seq![Word { text: message, look: bold_colored(color) }],
        color,
        deadline: due(now, BREADCRUMB_DURATION_MS as int),
    }
}

/// The message that there is a newer version.
pub open spec fn update_notice(version: Seq<char>, now: int) -> Notice {
    Notice {
        message: seq![
            Word { text: "Update available · "@, look: colored(Tone::Green) },
            Word { text: "v"@ + version, look: bold_colored(Tone::Green) },
            Word { text: " · run "@, look: colored(Tone::Green) },
            Word { text: "`tact update`"@, look: colored(Tone::Plain) },
        ],
        color: Tone::Green,
        deadline: due(now, BREADCRUMB_DURATION_MS as int),
    }
}

impl Notification {
    /// A message in one colour.
    pub fn plain(message: String, color: Tone, now: u64) -> (notification: Self)
        ensures
            notification@ == plain_notice(message@, color, now as int),
    {
        let mut line: Vec<Words> = Vec::new();
        say(&mut line, message, Look::bold(color));
        let notification = Notification {
            message: line,
            color,
            deadline: now.saturating_add(BREADCRUMB_DURATION_MS),
        };
        assert(notification@.message =~= plain_notice(message@, color, now as int).message);
        notification
    }

    /// The message that there is a newer version.
    pub fn update_available(version: &str, now: u64) -> (notification: Self)
        ensures
            notification@ == update_notice(version@, now as int),
    {
        let mut line: Vec<Words> = Vec::new();
        say(&mut line, "Update available · ".to_owned(), Look::plain(Tone::Green));
        say(&mut line, concat("v", version), Look::bold(Tone::Green));
        say(&mut line, " · run ".to_owned(), Look::plain(Tone::Green));
        say(&mut line, "`tact update`".to_owned(), Look::plain(Tone::Plain));
        let notification = Notification {
            message: line,
            color: Tone::Green,
            deadline: now.saturating_add(BREADCRUMB_DURATION_MS),
        };
        assert(notification@.message =~= update_notice(version@, now as int).message);
        notification
    }
}

/// A record of a session that is resumed, and the content after it.
#[derive(Debug)]
pub struct RestoredRecord {
    pub record: TranscriptRecord,
    pub change: Change,
}

/// What happens to a session.
#[derive(Debug)]
pub enum RootEvent {
    /// An event of the terminal, with the files of the workspace if it opens the file finder.
    Terminal { event: Event, files: Vec<String> },
    PasteImage(String),
    ContextTokens(u64),
    /// A record, and what it changes in the transcript.
    Transcript { record: TranscriptRecord, change: Change },
    AgentStreamClosed(Change),
    Subagent(AgentUpdate),
    ReplaceDraft(String),
    RestoreQueued { index: usize, text: String },
    WorkerTurnFinished,
    ShellFinished,
    TurnsCancelled,
    ForkReady,
    NewSessionFailed(String),
    SessionsLoaded(Vec<SessionSummary>),
    SessionLoadFailed(String),
    SessionRestored { records: Vec<RestoredRecord>, effort: ReasoningEffort, fast_mode: bool },
    NotifyError(String),
    NotifySuccess(String),
    UpdateAvailable(String),
    SteerAdmitted(u64),
    SteerPromoted(u64),
    SteerFailed { id: u64 },
    /// A frame of the animations.
    AnimationFrame(Waves),
}

/// What the animations that are timed outside of the session ask for on a frame: whether each of
/// the composer's looks different now, and how soon the effort selector and the queue want to be
/// drawn.
#[derive(Clone, Copy, Debug, PartialEq, Eq, Structural)]
pub struct Waves {
    pub activity: bool,
    pub subagents: bool,
    pub effort: RenderRequest,
    pub queue: RenderRequest,
}

/// When the animations that are timed outside of the session show their next frame.
#[derive(Clone, Copy, Debug, PartialEq, Eq, Structural)]
pub struct Frames {
    pub activity: Option<u64>,
    pub subagents: Option<u64>,
    pub effort: Option<u64>,
    pub queue: Option<u64>,
}

/// What a session asks for.
#[derive(Debug)]
pub enum RootEffect {
    Submit(Submission),
    RunShell(String),
    OpenDraftEditor,
    OpenQueueEditor { index: usize, text: String },
    OpenConfigEditor,
    OpenLink(String),
    ReloadConfig,
    NewSession,
    LoadSessions,
    ResumeSession(String),
    Steer { id: u64, prompt: Submission },
    PersistSteer(String),
    Copy(String),
    SetEffort(ReasoningEffort),
    SetFastMode(bool),
    SetMaxSubagents(usize),
    SetTheme(ThemeMode),
    Fork,
    CancelTurns,
    Shutdown,
}

/// A request as mathematical values.
pub enum RootRequest {
    Submit(PromptModel),
    RunShell(Seq<char>),
    OpenDraftEditor,
    OpenQueueEditor { index: int, text: Seq<char> },
    OpenConfigEditor,
    OpenLink(Seq<char>),
    ReloadConfig,
    NewSession,
    LoadSessions,
    ResumeSession(Seq<char>),
    Steer { id: u64, prompt: PromptModel },
    PersistSteer(Seq<char>),
    Copy(Seq<char>),
    SetEffort(ReasoningEffort),
    SetFastMode(bool),
    SetMaxSubagents(usize),
    SetTheme(ThemeMode),
    Fork,
    CancelTurns,
    Shutdown,
}

impl View for RootEffect {
    type V = RootRequest;

    open spec fn view(&self) -> RootRequest {
        match self {
            RootEffect::Submit(prompt) => RootRequest::Submit(prompt@),
            RootEffect::RunShell(command) => RootRequest::RunShell(command@),
            RootEffect::OpenDraftEditor => RootRequest::OpenDraftEditor,
            RootEffect::OpenQueueEditor { index, text } => RootRequest::OpenQueueEditor {
                index: *index as int,
                text: text@,
            },
            RootEffect::OpenConfigEditor => RootRequest::OpenConfigEditor,
            RootEffect::OpenLink(link) => RootRequest::OpenLink(link@),
            RootEffect::ReloadConfig => RootRequest::ReloadConfig,
            RootEffect::NewSession => RootRequest::NewSession,
            RootEffect::LoadSessions => RootRequest::LoadSessions,
            RootEffect::ResumeSession(id) => RootRequest::ResumeSession(id@),
            RootEffect::Steer { id, prompt } => RootRequest::Steer { id: *id, prompt: prompt@ },
            RootEffect::PersistSteer(text) => RootRequest::PersistSteer(text@),
            RootEffect::Copy(text) => RootRequest::Copy(text@),
            RootEffect::SetEffort(effort) => RootRequest::SetEffort(*effort),
            RootEffect::SetFastMode(fast) => RootRequest::SetFastMode(*fast),
            RootEffect::SetMaxSubagents(limit) => RootRequest::SetMaxSubagents(*limit),
            RootEffect::SetTheme(mode) => RootRequest::SetTheme(*mode),
            RootEffect::Fork => RootRequest::Fork,
            RootEffect::CancelTurns => RootRequest::CancelTurns,
            RootEffect::Shutdown => RootRequest::Shutdown,
        }
    }
}

pub open spec fn requests(effects: Seq<RootEffect>) -> Seq<RootRequest> {
    effects.map_values(|effect: RootEffect| effect@)
}

/// A file mention: the file finder, and the offset of the mention in the draft.
#[derive(Debug)]
pub struct FileMention {
    pub finder: FileFinder,
    pub start: usize,
}

/// What lies over a session.
#[derive(Debug)]
pub enum Overlay {
    Actions(ActionsMenu),
    Effort(EffortSelector),
    Theme(ThemeSelector),
    FileFinder(FileMention),
    Keybindings(KeybindingsHelp),
    Sessions(SessionPicker),
    Subagents(SubagentOverlay),
}

/// What lies over a session, as mathematical values.
pub enum Cover {
    Actions(MenuModel),
    Effort(EffortSelector),
    Theme(ThemeSelector),
    FileFinder { finder: FinderModel, start: int },
    Keybindings,
    Sessions(PickerModel),
    Subagents(SubagentOverlay),
}

impl View for Overlay {
    type V = Cover;

    open spec fn view(&self) -> Cover {
        match self {
            Overlay::Actions(menu) => Cover::Actions(menu@),
            Overlay::Effort(selector) => Cover::Effort(*selector),
            Overlay::Theme(selector) => Cover::Theme(*selector),
            Overlay::FileFinder(mention) => Cover::FileFinder {
                finder: mention.finder@,
                start: mention.start as int,
            },
            Overlay::Keybindings(_) => Cover::Keybindings,
            Overlay::Sessions(picker) => Cover::Sessions(picker@),
            Overlay::Subagents(overlay) => Cover::Subagents(*overlay),
        }
    }
}

pub open spec fn cover_view(overlay: Option<Overlay>) -> Option<Cover> {
    match overlay {
        Some(found) => Some(found@),
        None => None,
    }
}

impl Cover {
    pub open spec fn wf(self) -> bool {
        match self {
            Cover::Actions(menu) => menu.wf(),
            Cover::FileFinder { finder, .. } => finder.wf(),
            Cover::Sessions(picker) => picker.wf(),
            _ => true,
        }
    }
}

/// Whether a session has seen a prompt.
#[derive(Clone, Copy, Debug, PartialEq, Eq, Structural)]
pub enum ThreadState {
    New,
    Started,
}

/// A session on the screen.
#[derive(Debug)]
pub struct RootNode {
    pub transcript: Transcript,
    pub composer: Composer,
    pub queue: MessageQueue,
    pub workspace: String,
    pub home: Option<String>,
    pub overlay: Option<Overlay>,
    pub thread: ThreadState,
    pub escape_deadline: Option<u64>,
    pub notification: Option<Notification>,
    pub selection: Selection,
    pub transcript_area: Rect,
    pub composer_area: Rect,
    pub composer_content_area: Rect,
    pub queue_area: Rect,
    pub in_flight_turns: usize,
    pub in_flight_shells: usize,
    pub fork_available: bool,
    pub interactive: bool,
    pub theme_mode: ThemeMode,
    pub subagents: SubagentTree,
}

/// A session as mathematical values.
pub struct Root {
    pub transcript: Story,
    pub composer: ComposerModel,
    pub effort_area: Option<Rect>,
    pub subagent_area: Option<Rect>,
    pub queue: Line,
    pub workspace: Seq<char>,
    pub home: Option<Seq<char>>,
    pub overlay: Option<Cover>,
    pub thread: ThreadState,
    pub escape_deadline: Option<u64>,
    pub notification: Option<Notice>,
    pub selection: Selection,
    pub transcript_area: Rect,
    pub composer_area: Rect,
    pub content_area: Rect,
    pub queue_area: Rect,
    pub turns: int,
    pub shells: int,
    pub fork_available: bool,
    pub interactive: bool,
    pub theme_mode: ThemeMode,
    pub subagents: Forest,
}

pub open spec fn notice_view(notification: Option<Notification>) -> Option<Notice> {
    match notification {
        Some(found) => Some(found@),
        None => None,
    }
}

impl View for RootNode {
    type V = Root;

    open spec fn view(&self) -> Root {
        Root {
            transcript: self.transcript@,
            composer: self.composer@,
            effort_area: self.composer.effort_hit_area,
            subagent_area: self.composer.subagent_hit_area,
            queue: self.queue@,
            workspace: self.workspace@,
            home: option_view(self.home),
            overlay: cover_view(self.overlay),
            thread: self.thread,
            escape_deadline: self.escape_deadline,
            notification: notice_view(self.notification),
            selection: self.selection,
            transcript_area: self.transcript_area,
            composer_area: self.composer_area,
            content_area: self.composer_content_area,
            queue_area: self.queue_area,
            turns: self.in_flight_turns as int,
            shells: self.in_flight_shells as int,
            fork_available: self.fork_available,
            interactive: self.interactive,
            theme_mode: self.theme_mode,
            subagents: self.subagents@,
        }
    }
}

/// A session after an event, and its answer.
pub struct RootStep {
    pub root: Root,
    pub effects: Seq<RootRequest>,
    pub render: RenderRequest,
}

/// What a click or a drag comes to: an answer, or a session that goes on with an event.
pub enum MouseOutcome {
    Done(RootStep),
    Go(Root, Event),
}

/// What a click or a drag comes to: an answer, or an event that goes on.
#[derive(Debug)]
pub enum MouseStep {
    Done(ComponentUpdate<RootEffect>),
    Go(Event),
}

/// The answer of a step.
pub open spec fn root_answers(update: ComponentUpdate<RootEffect>, step: RootStep) -> bool {
    &&& update.render == step.render
    &&& requests(update.effects@) == step.effects
}

pub open spec fn one_more(n: int) -> int {
    if n >= usize::MAX {
        usize::MAX as int
    } else {
        n + 1
    }
}

pub open spec fn one_less(n: int) -> int {
    if n <= 0 {
        0
    } else {
        n - 1
    }
}

impl Root {
    pub open spec fn wf(self) -> bool {
        &&& self.composer.wf()
        &&& self.queue.wf()
        &&& self.subagents.wf()
        &&& self.overlay matches Some(cover) ==> cover.wf()
    }

    /// A session without a prompt.
    pub open spec fn fresh(
        workspace: Seq<char>,
        home: Option<Seq<char>>,
        thinking: ReasoningEffort,
        now: int,
    ) -> Root {
        let nowhere = Rect { x: 0, y: 0, width: 0, height: 0 };
        Root {
            transcript: Story::fresh(thinking, now),
            composer: ComposerModel::fresh(thinking),
            effort_area: None,
            subagent_area: None,
            queue: Line::empty_line(),
            workspace,
            home,
            overlay: None,
            thread: ThreadState::New,
            escape_deadline: None,
            notification: None,
            selection: Selection { pending: None, range: None, snapshot: None },
            transcript_area: nowhere,
            composer_area: nowhere,
            content_area: nowhere,
            queue_area: nowhere,
            turns: 0,
            shells: 0,
            fork_available: true,
            interactive: true,
            theme_mode: ThemeMode::Auto,
            subagents: Forest::empty(thinking),
        }
    }

    /// A session without a prompt, with the settings of another one.
    pub open spec fn reset(self, workspace: Seq<char>, thinking: ReasoningEffort, now: int) -> Root {
        Root {
            fork_available: self.fork_available,
            theme_mode: self.theme_mode,
            subagents: self.subagents.same_limit(thinking),
            ..Root::fresh(workspace, self.home, thinking, now)
        }
    }

    pub open spec fn answer(self, effects: Seq<RootRequest>, render: RenderRequest) -> RootStep {
        RootStep { root: self, effects, render }
    }

    pub open spec fn idle(self) -> RootStep {
        self.answer(Seq::empty(), RenderRequest::Idle)
    }

    pub open spec fn shown(self) -> RootStep {
        self.answer(Seq::empty(), RenderRequest::Immediate)
    }

    pub open spec fn asking(self, request: RootRequest) -> RootStep {
        self.answer(seq![request], RenderRequest::Immediate)
    }

    pub open spec fn under(self, cover: Cover) -> Root {
        Root { overlay: Some(cover), ..self }
    }

    pub open spec fn uncovered(self) -> Root {
        Root { overlay: None, ..self }
    }

    pub open spec fn notified(self, notice: Notice) -> Root {
        Root { notification: Some(notice), ..self }
    }

    /// The composer shows other work.
    pub open spec fn busy(self, active: bool, status: Option<Seq<char>>) -> Root {
        Root { composer: self.composer.busy(active, status).model, ..self }
    }

    /// The composer shows work, and the session takes no input meanwhile.
    pub open spec fn waiting(self, status: Seq<char>) -> Root {
        Root { overlay: None, interactive: false, ..self }.busy(true, Some(status))
    }

    /// The session takes input again.
    pub open spec fn resumed(self) -> Root {
        Root { interactive: true, ..self }.busy(false, None)
    }

    /// A prompt would have to wait.
    pub open spec fn is_engaged(self) -> bool {
        self.turns > 0 || self.queue.steers()
    }

    /// The transcript after an event; its activity goes to the composer.
    pub open spec fn told(self, step: StoryStep) -> RootStep {
        let next = Root { transcript: step.story, ..self };
        match step.effect {
            None => next.answer(Seq::empty(), step.render),
            Some(activity) => {
                let reaction = self.composer.busy(activity.active, activity.status);
                Root { composer: reaction.model, ..next }.answer(
                    Seq::empty(),
                    if reaction.changed {
                        step.render.or(RenderRequest::Streaming)
                    } else {
                        step.render
                    },
                )
            },
        }
    }

    /// An event reaches the transcript.
    #[verifier::opaque]
    pub open spec fn heard(self, event: TranscriptEvent) -> RootStep {
        self.told(self.transcript.on_event(event))
    }

    /// An event reaches the composer.
    #[verifier::opaque]
    pub open spec fn typed(self, event: ComposerEvent, priority: RenderRequest) -> RootStep {
        self.reacted(self.composer.on_event(event), priority)
    }

    /// A text is put in place of another one in the draft.
    #[verifier::opaque]
    pub open spec fn exchanged(self, start: int, end: int, text: Seq<char>) -> RootStep {
        self.reacted(self.composer.exchanged(start, end, text), RenderRequest::Immediate)
    }

    /// The draft is cleared.
    #[verifier::opaque]
    pub open spec fn blanked(self) -> RootStep {
        self.reacted(
            self.composer.detached().replaced(Seq::empty()).noticed(),
            RenderRequest::Immediate,
        )
    }

    /// The composer after an event: prompts are submitted, or wait in the queue.
    pub open spec fn reacted(self, reaction: Reaction, priority: RenderRequest) -> RootStep {
        let next = Root { composer: reaction.model, ..self };
        let render = if reaction.changed {
            priority
        } else {
            RenderRequest::Idle
        };
        match reaction.effect {
            None => next.answer(Seq::empty(), render),
            Some(Request::OpenDraftEditor) => next.answer(
                seq![RootRequest::OpenDraftEditor],
                render,
            ),
            Some(Request::RunShell(command)) => Root {
                shells: one_more(self.shells),
                ..next
            }.answer(seq![RootRequest::RunShell(command)], render),
            Some(Request::Submit(prompt)) => {
                let follow = self.transcript.following();
                let started = Root {
                    thread: ThreadState::Started,
                    transcript: follow.story,
                    ..next
                };
                if self.is_engaged() {
                    Root { queue: self.queue.pushed(prompt), ..started }.answer(
                        Seq::empty(),
                        render.or(follow.render),
                    )
                } else {
                    Root { turns: one_more(self.turns), ..started }.answer(
                        seq![RootRequest::Submit(prompt)],
                        render.or(follow.render),
                    )
                }
            },
        }
    }

    /// The prompts that wait are submitted as one, unless a turn goes on.
    #[verifier::opaque]
    pub open spec fn released(self) -> RootStep {
        if self.is_engaged() {
            self.shown()
        } else if self.queue.ready().len() == 0 {
            Root { queue: self.queue.drained(), ..self }.shown()
        } else {
            Root { queue: self.queue.drained(), turns: 1, ..self }.asking(
                RootRequest::Submit(joined_prompts(self.queue.ready())),
            )
        }
    }

    /// A prompt that the agent applied is kept in the transcript.
    #[verifier::opaque]
    pub open spec fn persisted(self, applied: Option<PromptModel>) -> RootStep {
        let step = self.released();
        match applied {
            None => step,
            Some(prompt) => RootStep {
                effects: seq![RootRequest::PersistSteer(prompt.text)] + step.effects,
                ..step
            },
        }
    }

    #[verifier::opaque]
    pub open spec fn on_applied(self) -> RootStep {
        let (queue, applied) = self.queue.applied();
        Root { queue, ..self }.persisted(applied)
    }

    #[verifier::opaque]
    pub open spec fn on_admitted(self, id: u64) -> RootStep {
        let (queue, applied) = self.queue.admitted(id);
        Root { queue, ..self }.persisted(applied)
    }

    #[verifier::opaque]
    pub open spec fn on_promoted(self, id: u64) -> RootStep {
        Root {
            queue: self.queue.promoted(id),
            turns: one_more(self.turns),
            ..self
        }.shown()
    }

    #[verifier::opaque]
    pub open spec fn on_failed(self, id: u64) -> RootStep {
        Root { queue: self.queue.failed(id), ..self }.released()
    }

    #[verifier::opaque]
    pub open spec fn on_turn_finished(self) -> RootStep {
        Root { turns: one_less(self.turns), ..self }.released()
    }

    #[verifier::opaque]
    pub open spec fn on_turns_cancelled(self) -> RootStep {
        Root { queue: self.queue.cancelled(), ..self }.shown()
    }

    /// The sessions that can be resumed are asked for.
    #[verifier::opaque]
    pub open spec fn sessions_wanted(self) -> RootStep {
        self.waiting("Loading sessions…"@).asking(RootRequest::LoadSessions)
    }

    /// The sessions that can be resumed are offered.
    #[verifier::opaque]
    pub open spec fn sessions_offered(self, sessions: Seq<SessionSummary>) -> RootStep {
        self.resumed().under(
            Cover::Sessions(
                PickerModel {
                    sessions,
                    query: Seq::empty(),
                    matches: found_sessions(sessions, Seq::empty(), sessions.len() as int),
                    selected: 0,
                    focus: Focus::Search,
                },
            ),
        ).shown()
    }

    #[verifier::opaque]
    pub open spec fn on_load_failed(self, message: Seq<char>, now: int) -> RootStep {
        self.resumed().notified(plain_notice(message, Tone::Red, now)).shown()
    }

    #[verifier::opaque]
    pub open spec fn on_new_session_failed(self, message: Seq<char>, now: int) -> RootStep {
        self.resumed().notified(
            plain_notice("Could not start a new session: "@ + message, Tone::Red, now),
        ).shown()
    }

    #[verifier::opaque]
    pub open spec fn on_restored(self, index: int, text: Seq<char>) -> RootStep {
        if trimmed(text).len() == 0 {
            self.shown()
        } else if !self.is_engaged() {
            Root { turns: 1, ..self }.asking(RootRequest::Submit(plain(text)))
        } else {
            Root { queue: self.queue.restored(index, text), ..self }.shown()
        }
    }

    #[verifier::opaque]
    pub open spec fn on_queue(self, event: Event) -> RootStep {
        let step = self.queue.on_event(event);
        Root { queue: step.line, ..self }.answer(
            match step.effect {
                Some(QueueRequest::Edit { index, text }) => seq![
                    RootRequest::OpenQueueEditor { index, text },
                ],
                Some(QueueRequest::Steer { id, prompt }) => seq![
                    RootRequest::Steer { id, prompt },
                ],
                _ => Seq::empty(),
            },
            step.render,
        )
    }

    /// The focus moves between the queue and the composer.
    #[verifier::opaque]
    pub open spec fn refocused(self) -> RootStep {
        let focused = !self.queue.focused && self.queue.items.len() > 0;
        let blurred = self.transcript.on_event(TranscriptEvent::BlurTools);
        Root {
            queue: Line { focused, ..self.queue },
            transcript: blurred.story,
            ..self
        }.answer(
            Seq::empty(),
            if focused || blurred.render != RenderRequest::Idle {
                RenderRequest::Immediate
            } else {
                RenderRequest::Idle
            },
        )
    }

    /// The escape key: pressed twice in time, it interrupts.
    #[verifier::opaque]
    pub open spec fn chord(self, now: int) -> RootStep {
        if self.escape_deadline matches Some(deadline) && now <= deadline {
            Root { escape_deadline: None, ..self }.answer(
                seq![RootRequest::CancelTurns],
                RenderRequest::Idle,
            )
        } else {
            Root {
                escape_deadline: Some(due(now, ESCAPE_CHORD_TIMEOUT_MS as int)),
                ..self
            }.idle()
        }
    }

    #[verifier::opaque]
    pub open spec fn effort_opened(self) -> RootStep {
        self.under(Cover::Effort(EffortSelector { selected: self.composer.effort })).shown()
    }

    #[verifier::opaque]
    pub open spec fn forked(self) -> RootStep {
        if self.fork_available {
            self.uncovered().asking(RootRequest::Fork)
        } else {
            self.idle()
        }
    }

    /// No turn and no command runs, and no prompt waits.
    pub open spec fn is_free(self) -> bool {
        self.turns == 0 && self.shells == 0 && self.queue.items.len() == 0
    }

    #[verifier::opaque]
    pub open spec fn renewed(self) -> RootStep {
        if self.is_free() {
            self.waiting("Starting new session…"@).asking(RootRequest::NewSession)
        } else {
            self.idle()
        }
    }

    pub open spec fn with_fast_mode(self, fast: bool) -> Root {
        Root { composer: ComposerModel { fast, ..self.composer }, ..self }
    }

    #[verifier::opaque]
    pub open spec fn triggered(self, action: Action, render: RenderRequest) -> RootStep {
        match action {
            Action::Subagents => self.under(Cover::Subagents(SubagentOverlay::Tree)).answer(
                Seq::empty(),
                render,
            ),
            Action::Effort => self.effort_opened(),
            Action::FastMode => {
                let fast = !self.composer.fast;
                self.uncovered().with_fast_mode(fast).asking(RootRequest::SetFastMode(fast))
            },
            Action::Theme => self.under(
                Cover::Theme(ThemeSelector { selected: self.theme_mode }),
            ).answer(Seq::empty(), render),
            Action::NewSession => self.renewed(),
            Action::ResumeSession => self.sessions_wanted(),
            Action::Fork => self.forked(),
            Action::Keybindings => self.under(Cover::Keybindings).answer(Seq::empty(), render),
            Action::ReloadConfig => self.uncovered().asking(RootRequest::ReloadConfig),
            Action::EditConfig => self.uncovered().asking(RootRequest::OpenConfigEditor),
        }
    }

    #[verifier::opaque]
    pub open spec fn on_actions(self, menu: MenuModel, event: Event) -> RootStep {
        let step = menu.on_event(ActionsEvent::Terminal(event));
        let next = self.under(Cover::Actions(step.menu));
        match step.effect {
            None => next.answer(Seq::empty(), step.render),
            Some(ActionsEffect::Dismiss) => next.uncovered().answer(Seq::empty(), step.render),
            Some(ActionsEffect::Trigger(action)) => next.triggered(action, step.render),
        }
    }

    #[verifier::opaque]
    pub open spec fn on_effort(self, selector: EffortSelector, event: Event) -> RootStep {
        let (after, choice) = selector.on_event(event);
        match choice.effect {
            None => self.under(Cover::Effort(after)).answer(Seq::empty(), choice.render),
            Some(EffortEffect::Dismiss) => self.uncovered().shown(),
            Some(EffortEffect::Apply(effort)) => Root {
                transcript: Story { effort, ..self.transcript },
                subagents: self.subagents.with_effort(effort),
                composer: ComposerModel { effort, ..self.composer },
                ..self.uncovered()
            }.asking(RootRequest::SetEffort(effort)),
        }
    }

    #[verifier::opaque]
    pub open spec fn on_theme(self, selector: ThemeSelector, event: Event) -> RootStep {
        let (after, choice) = selector.on_event(event);
        match choice.effect {
            None => self.under(Cover::Theme(after)).answer(Seq::empty(), choice.render),
            Some(ThemeSelectorEffect::Dismiss) => self.uncovered().shown(),
            Some(ThemeSelectorEffect::Apply(mode)) => self.uncovered().asking(
                RootRequest::SetTheme(mode),
            ),
        }
    }

    #[verifier::opaque]
    pub open spec fn on_help(self, event: Event) -> RootStep {
        if closes(KeybindingsEvent::Terminal(event)) {
            self.uncovered().shown()
        } else {
            self.idle()
        }
    }

    #[verifier::opaque]
    pub open spec fn on_sessions(self, picker: PickerModel, event: Event) -> RootStep {
        let step = picker.on_event(SessionPickerEvent::Terminal(event));
        match step.effect {
            None => self.under(Cover::Sessions(step.picker)).answer(Seq::empty(), step.render),
            Some(PickerRequest::Dismiss) => self.uncovered().shown(),
            Some(PickerRequest::Resume(id)) => self.waiting("Resuming session…"@).asking(
                RootRequest::ResumeSession(id),
            ),
        }
    }

    #[verifier::opaque]
    pub open spec fn on_subagents(self, request: Option<SubagentRequest>) -> RootStep {
        match request {
            None => self.shown(),
            Some(SubagentRequest::Dismiss) => self.uncovered().shown(),
            Some(SubagentRequest::Inspect(id)) => self.under(
                Cover::Subagents(SubagentOverlay::Transcript(id)),
            ).shown(),
            Some(SubagentRequest::Back) => self.under(
                Cover::Subagents(SubagentOverlay::Tree),
            ).shown(),
            Some(SubagentRequest::OpenLink(link)) => self.answer(
                seq![RootRequest::OpenLink(link)],
                RenderRequest::Idle,
            ),
            Some(SubagentRequest::SetMaxSubagents(limit)) => self.asking(
                RootRequest::SetMaxSubagents(limit),
            ),
        }
    }

    /// The query of a file mention that starts at an offset of the draft: what stands between its
    /// `@` and the cursor.
    #[verifier::opaque]
    pub open spec fn mention_query(self, start: int) -> Option<Seq<char>> {
        let text = self.composer.edit.text;
        let cursor = self.composer.edit.cursor;
        if start <= cursor && is_offset(text, start) && is_offset(text, cursor) {
            let part = between(text, start, cursor);
            if part.len() > 0 && part[0] == '@' {
                Some(part.skip(1))
            } else {
                None
            }
        } else {
            None
        }
    }

    #[verifier::opaque]
    pub open spec fn on_finder(self, finder: FinderModel, start: int, event: Event) -> RootStep {
        let typed = self.typed(ComposerEvent::Terminal(event), RenderRequest::Immediate);
        if edits_mention(event) {
            let query = if continues_query(event) {
                typed.root.mention_query(start)
            } else {
                None
            };
            match query {
                None => RootStep { root: typed.root.uncovered(), ..typed },
                Some(query) => RootStep {
                    root: typed.root.under(
                        Cover::FileFinder { finder: finder.after(finder.searching(query)), start },
                    ),
                    ..typed
                },
            }
        } else if !navigates_files(event) {
            RootStep { root: typed.root.uncovered(), ..typed }
        } else {
            let step = finder.on_event(FileFinderEvent::Terminal(event));
            match step.effect {
                None => self.under(
                    Cover::FileFinder { finder: finder.after(step), start },
                ).answer(Seq::empty(), step.render),
                Some(FinderRequest::Dismiss) => self.uncovered().shown(),
                Some(FinderRequest::Insert(path)) => self.uncovered().exchanged(
                    start,
                    self.composer.edit.cursor,
                    "@"@ + path + " "@,
                ),
            }
        }
    }

    #[verifier::opaque]
    pub open spec fn on_overlay(self, event: Event) -> RootStep {
        match self.overlay {
            None => self.idle(),
            Some(Cover::Actions(menu)) => self.uncovered().on_actions(menu, event),
            Some(Cover::Effort(selector)) => self.uncovered().on_effort(selector, event),
            Some(Cover::Theme(selector)) => self.uncovered().on_theme(selector, event),
            Some(Cover::FileFinder { finder, start }) => self.uncovered().on_finder(
                finder,
                start,
                event,
            ),
            Some(Cover::Keybindings) => self.on_help(event),
            Some(Cover::Sessions(picker)) => self.uncovered().on_sessions(picker, event),
            Some(Cover::Subagents(SubagentOverlay::Tree)) => {
                let (subagents, request) = self.subagents.on_tree(event);
                Root { subagents, ..self }.on_subagents(request)
            },
            Some(Cover::Subagents(SubagentOverlay::Transcript(id))) => {
                let (subagents, request) = self.subagents.on_transcript(id, event);
                Root { subagents, ..self }.on_subagents(request)
            },
        }
    }

    /// The surface at a cell.
    pub open spec fn surface_at(self, position: Position) -> Option<(Surface, Rect)> {
        if self.content_area.covers(position) {
            Some((Surface::Composer, self.content_area))
        } else if self.transcript_area.covers(position) {
            Some((Surface::Transcript, self.transcript_area))
        } else {
            None
        }
    }

    /// The area of the selection.
    pub open spec fn selection_area(self) -> Option<Rect> {
        match self.selection.place() {
            None => None,
            Some(Surface::Transcript) => Some(self.transcript_area),
            Some(Surface::Composer) => Some(self.content_area),
        }
    }

    /// The left button goes down: a selection begins.
    #[verifier::opaque]
    pub open spec fn on_press(self, mouse: MouseEvent) -> MouseOutcome {
        let position = Position { x: mouse.column, y: mouse.row };
        match self.surface_at(position) {
            None => MouseOutcome::Go(self, Event::Mouse(mouse)),
            Some((surface, area)) => MouseOutcome::Done(
                Root {
                    selection: Selection::begun(surface, nearest(position, area)),
                    ..self
                }.shown(),
            ),
        }
    }

    /// The mouse moves with the button down: the selection reaches further.
    #[verifier::opaque]
    pub open spec fn on_drag(self, mouse: MouseEvent) -> MouseOutcome {
        let position = Position { x: mouse.column, y: mouse.row };
        match self.selection_area() {
            None => MouseOutcome::Go(self, Event::Mouse(mouse)),
            Some(area) => MouseOutcome::Done(
                Root { selection: self.selection.dragged(position, area), ..self }.shown(),
            ),
        }
    }

    /// The button goes up: the selected text is copied. A click that selects nothing goes on as a
    /// click.
    #[verifier::opaque]
    pub open spec fn on_release(self, mouse: MouseEvent) -> MouseOutcome {
        let position = Position { x: mouse.column, y: mouse.row };
        match self.selection_area() {
            None => MouseOutcome::Go(self, Event::Mouse(mouse)),
            Some(area) => {
                let selection = self.selection.finished(position, area);
                if self.selection.selects(position, area) {
                    MouseOutcome::Done(
                        Root { selection: selection.emptied(), ..self }.answer(
                            match selection.chosen_text() {
                                Some(text) => seq![RootRequest::Copy(text)],
                                None => Seq::empty(),
                            },
                            RenderRequest::Immediate,
                        ),
                    )
                } else {
                    MouseOutcome::Go(
                        Root { selection, ..self },
                        Event::Mouse(
                            MouseEvent { kind: MouseKind::Down(MouseButton::Left), ..mouse },
                        ),
                    )
                }
            },
        }
    }

    /// What a click or a drag comes to.
    #[verifier::opaque]
    pub open spec fn on_mouse(self, event: Event) -> MouseOutcome {
        match event {
            Event::Mouse(mouse) => match mouse.kind {
                MouseKind::Down(MouseButton::Left) => self.on_press(mouse),
                MouseKind::Drag(MouseButton::Left) => self.on_drag(mouse),
                MouseKind::Up(MouseButton::Left) => self.on_release(mouse),
                _ => MouseOutcome::Go(self, event),
            },
            _ => MouseOutcome::Go(self, event),
        }
    }

    /// The part of the composer's border that a click meets.
    pub open spec fn target_at(self, position: Position) -> Option<ComposerChromeTarget> {
        if self.subagent_area matches Some(area) && area.covers(position) {
            Some(ComposerChromeTarget::Subagents)
        } else if self.effort_area matches Some(area) && area.covers(position) {
            Some(ComposerChromeTarget::Effort)
        } else {
            None
        }
    }

    /// The part of the composer's border that an event clicks on.
    #[verifier::opaque]
    pub open spec fn clicked(self, event: Event) -> Option<ComposerChromeTarget> {
        match event {
            Event::Mouse(mouse) => if mouse.kind == MouseKind::Down(MouseButton::Left) {
                self.target_at(Position { x: mouse.column, y: mouse.row })
            } else {
                None
            },
            _ => None,
        }
    }

    #[verifier::opaque]
    pub open spec fn on_escape(self, event: Event, now: int) -> RootStep {
        if self.selection.stirs() {
            Root { selection: self.selection.cleared(), ..self }.shown()
        } else {
            let calm = Root { selection: self.selection.cleared(), ..self };
            if self.queue.focused {
                calm.on_queue(event)
            } else if self.transcript.tools_focused {
                Root { escape_deadline: None, ..calm }.heard(TranscriptEvent::BlurTools)
            } else {
                calm.chord(now)
            }
        }
    }

    /// The actions menu opens.
    #[verifier::opaque]
    pub open spec fn menu_opened(self) -> RootStep {
        self.under(
            Cover::Actions(
                MenuModel {
                    query: Seq::empty(),
                    focus: Focus::Search,
                    selected: 0,
                    matches: found(Seq::empty(), ACTION_COUNT as int),
                    availability: ActionAvailability {
                        new_session: self.is_free(),
                        fork: self.fork_available,
                    },
                },
            ),
        ).shown()
    }

    /// The file finder opens, and the mention stays in the draft.
    #[verifier::opaque]
    pub open spec fn mention_opened(self, event: Event, files: Seq<Seq<char>>) -> RootStep {
        let typed = self.typed(ComposerEvent::Terminal(event), RenderRequest::Immediate);
        RootStep {
            root: typed.root.under(
                Cover::FileFinder {
                    finder: FinderModel::opened(files),
                    start: self.composer.edit.cursor,
                },
            ),
            ..typed
        }
    }

    /// An event that is neither a command nor part of a selection.
    #[verifier::opaque]
    pub open spec fn on_input(self, event: Event, files: Seq<Seq<char>>) -> RootStep {
        if clicks_in(event, self.queue_area) {
            Root {
                queue: self.queue.row_focused(event->Mouse_0.row as int, self.queue_area),
                transcript: self.transcript.on_event(TranscriptEvent::BlurTools).story,
                ..self
            }.shown()
        } else if clicks_in(event, self.composer_area) && (self.transcript.tools_focused
            || self.queue.focused) {
            let calm = Root { queue: Line { focused: false, ..self.queue }, ..self };
            if self.transcript.tools_focused {
                calm.heard(TranscriptEvent::BlurTools)
            } else {
                calm.shown()
            }
        } else {
            match self.transcript.commanding(event) {
                Some(command) => Root {
                    queue: Line { focused: false, ..self.queue },
                    ..self
                }.heard(TranscriptEvent::Tool(command)),
                None => self.on_keyboard(event, files),
            }
        }
    }

    /// An event that goes to the queue, the menus, the transcript or the composer.
    #[verifier::opaque]
    pub open spec fn on_keyboard(self, event: Event, files: Seq<Seq<char>>) -> RootStep {
        let blank = self.composer.edit.text.len() == 0;
        if self.queue.focused {
            self.on_queue(event)
        } else if self.turns > 0 && blank && self.queue.items.len() > 0 && !self.queue.steers()
            && presses(event, KeyCode::Enter) {
            self.on_queue(event)
        } else if types(event, '@') && self.composer.edit.at_token_boundary() {
            self.mention_opened(event, files)
        } else if blank && types(event, '/') {
            self.menu_opened()
        } else {
            match self.transcript.scrolling(event) {
                Some(command) => {
                    let step = self.transcript.on_event(TranscriptEvent::Scroll(command));
                    Root { transcript: step.story, ..self }.answer(Seq::empty(), step.render)
                },
                None => if self.transcript.tools_focused {
                    self.idle()
                } else {
                    self.typed(ComposerEvent::Terminal(event), RenderRequest::Immediate)
                },
            }
        }
    }

    /// An event that is no command, once the mouse had its say.
    #[verifier::opaque]
    pub open spec fn on_rest(self, event: Event, files: Seq<Seq<char>>) -> RootStep {
        match self.transcript.link(event) {
            Some(link) => self.answer(seq![RootRequest::OpenLink(link)], RenderRequest::Idle),
            None => match self.clicked(event) {
                Some(ComposerChromeTarget::Effort) => self.effort_opened(),
                Some(ComposerChromeTarget::Subagents) => self.under(
                    Cover::Subagents(SubagentOverlay::Tree),
                ).shown(),
                None => {
                    let calm = Root { escape_deadline: None, ..self };
                    if toggles_focus(event) {
                        calm.refocused()
                    } else {
                        calm.on_input(event, files)
                    }
                },
            },
        }
    }

    /// Control-c clears the draft that has the focus, and otherwise ends the program.
    #[verifier::opaque]
    pub open spec fn on_control_c(self) -> RootStep {
        if self.overlay is None && !self.queue.focused && !self.transcript.tools_focused
            && self.composer.edit.text.len() > 0 {
            self.blanked()
        } else {
            self.answer(seq![RootRequest::Shutdown], RenderRequest::Idle)
        }
    }

    /// An event of the terminal.
    #[verifier::opaque]
    pub open spec fn on_terminal(self, event: Event, files: Seq<Seq<char>>, now: int) -> RootStep {
        if event is Resize {
            Root { selection: self.selection.cleared(), ..self }.shown()
        } else if commands(event, 'c') {
            self.on_control_c()
        } else if !self.interactive {
            self.idle()
        } else if self.overlay is Some {
            self.on_covered(event)
        } else if commands(event, 'o') {
            self.heard(TranscriptEvent::ToggleExpandAll)
        } else if commands(event, 's') {
            self.effort_opened()
        } else if commands(event, 'f') || commands(event, 't') {
            self.forked()
        } else if presses(event, KeyCode::Esc) {
            self.on_escape(event, now)
        } else {
            match self.on_mouse(event) {
                MouseOutcome::Done(step) => step,
                MouseOutcome::Go(root, next) => root.on_rest(next, files),
            }
        }
    }

    /// An event while something lies over the session.
    #[verifier::opaque]
    pub open spec fn on_covered(self, event: Event) -> RootStep {
        match self.overlay {
            Some(Cover::Subagents(SubagentOverlay::Transcript(id))) => if commands(event, 'o') {
                let i = crate::subagents::twig_index(self.subagents.nodes, id, 0);
                if i < self.subagents.nodes.len() {
                    Root {
                        subagents: self.subagents.told(i, TranscriptEvent::ToggleExpandAll),
                        ..self
                    }.shown()
                } else {
                    self.idle()
                }
            } else {
                self.on_overlay(event)
            },
            _ => self.on_overlay(event),
        }
    }

    /// How soon the effort selector wants to be drawn: it does while it is open.
    pub open spec fn effort_frame(self, waves: Waves) -> RenderRequest {
        match self.overlay {
            Some(Cover::Effort(_)) => waves.effort,
            _ => RenderRequest::Idle,
        }
    }

    /// A frame of the animations.
    #[verifier::opaque]
    pub open spec fn on_frame(self, waves: Waves, now: u64) -> RootStep {
        let calm = Root {
            escape_deadline: if self.escape_deadline matches Some(deadline) && now >= deadline {
                None
            } else {
                self.escape_deadline
            },
            ..self
        };
        let told = calm.heard(TranscriptEvent::AnimationFrame(now));
        let reacted = told.root.typed(
            ComposerEvent::AnimationFrame {
                activity: waves.activity,
                subagents: waves.subagents,
            },
            RenderRequest::Streaming,
        );
        let passed = reacted.root.elapsed(now);
        passed.root.answer(
            reacted.effects,
            self.effort_frame(waves).or(told.render).or(reacted.render).or(waves.queue).or(passed.render),
        )
    }

    /// The transcripts of the subagents show their next frame, and an old notification goes away.
    #[verifier::opaque]
    pub open spec fn elapsed(self, now: u64) -> RootStep {
        let moved = self.subagents.moves(now as int, self.subagents.nodes.len() as int);
        let expired = self.notification matches Some(notice) && now >= notice.deadline;
        Root {
            subagents: self.subagents.advanced(now as int),
            notification: if expired {
                None
            } else {
                self.notification
            },
            ..self
        }.answer(
            Seq::empty(),
            if expired {
                RenderRequest::Immediate
            } else if moved {
                RenderRequest::Streaming
            } else {
                RenderRequest::Idle
            },
        )
    }

    /// A subagent's update.
    #[verifier::opaque]
    pub open spec fn on_subagent(self, update: AgentUpdate, now: int) -> RootStep {
        let (subagents, known) = self.subagents.applied(update, now);
        if !known {
            self.idle()
        } else {
            let next = Root { subagents, ..self };
            let lost = match self.overlay {
                Some(Cover::Subagents(SubagentOverlay::Transcript(id))) =>
                    crate::subagents::twig_index(subagents.nodes, id, 0) >= subagents.nodes.len(),
                _ => false,
            };
            let seen = if lost {
                next.under(Cover::Subagents(SubagentOverlay::Tree))
            } else {
                next
            };
            Root {
                composer: if subagents.active() == self.subagents.active() {
                    self.composer
                } else {
                    ComposerModel { subagents: subagents.active(), ..self.composer }
                },
                ..seen
            }.shown()
        }
    }

    /// The session after the first `n` records of one that is resumed.
    pub open spec fn replayed(self, records: Seq<RestoredRecord>, n: int) -> Root
        decreases n,
    {
        if n <= 0 {
            self
        } else {
            let root = self.replayed(records, n - 1);
            let record = records[n - 1];
            Root {
                composer: match tokens_told(record.record) {
                    Some(tokens) => ComposerModel { tokens: tokens as int, ..root.composer },
                    None => root.composer,
                },
                transcript: root.transcript.on_record(record.change).story,
                ..root
            }
        }
    }

    /// The session that is resumed.
    pub open spec fn revived(
        self,
        records: Seq<RestoredRecord>,
        effort: ReasoningEffort,
        fast: bool,
        now: int,
    ) -> Root {
        Root {
            thread: ThreadState::Started,
            ..self.reset(self.workspace, effort, now).with_fast_mode(fast).replayed(
                records,
                records.len() as int,
            )
        }
    }

    /// A session's record, and the prompt that it says was applied.
    #[verifier::opaque]
    pub open spec fn on_record(self, change: Change, steered: bool) -> RootStep {
        let told = self.heard(TranscriptEvent::Record(change));
        if steered {
            let applied = told.root.on_applied();
            applied.root.answer(told.effects + applied.effects, told.render.or(applied.render))
        } else {
            told
        }
    }

    #[verifier::opaque]
    pub open spec fn on_event(self, event: RootEvent, at: u64) -> RootStep {
        let now = at as int;
        match event {
            RootEvent::Terminal { event, files } => self.on_terminal(event, texts(files@), now),
            RootEvent::PasteImage(data_url) => if self.overlay is Some || self.queue.focused {
                self.idle()
            } else {
                self.typed(ComposerEvent::PasteImage(data_url), RenderRequest::Immediate)
            },
            RootEvent::ContextTokens(tokens) => self.typed(
                ComposerEvent::ContextTokens(tokens),
                RenderRequest::Streaming,
            ),
            RootEvent::Transcript { record, change } => self.on_record(
                change,
                record.kind@ == "run.steered"@,
            ),
            RootEvent::AgentStreamClosed(change) => self.heard(
                TranscriptEvent::AgentStreamClosed(change),
            ),
            RootEvent::Subagent(update) => self.on_subagent(update, now),
            RootEvent::ReplaceDraft(draft) => self.typed(
                ComposerEvent::ReplaceDraft(draft),
                RenderRequest::Immediate,
            ),
            RootEvent::RestoreQueued { index, text } => self.on_restored(index as int, text@),
            RootEvent::WorkerTurnFinished => self.on_turn_finished(),
            RootEvent::ShellFinished => Root { shells: one_less(self.shells), ..self }.idle(),
            RootEvent::TurnsCancelled => self.on_turns_cancelled(),
            RootEvent::ForkReady => self.resumed().shown(),
            RootEvent::NewSessionFailed(message) => self.on_new_session_failed(message@, now),
            RootEvent::SessionsLoaded(sessions) => self.sessions_offered(sessions@),
            RootEvent::SessionLoadFailed(message) => self.on_load_failed(message@, now),
            RootEvent::SessionRestored { records, effort, fast_mode } => self.revived(
                records@,
                effort,
                fast_mode,
                now,
            ).shown(),
            RootEvent::NotifyError(message) => self.notified(
                plain_notice(message@, Tone::Red, now),
            ).shown(),
            RootEvent::NotifySuccess(message) => self.notified(
                plain_notice(message@, Tone::Green, now),
            ).shown(),
            RootEvent::UpdateAvailable(version) => self.notified(
                update_notice(version@, now),
            ).shown(),
            RootEvent::SteerAdmitted(id) => self.on_admitted(id),
            RootEvent::SteerPromoted(id) => self.on_promoted(id),
            RootEvent::SteerFailed { id } => self.on_failed(id),
            RootEvent::AnimationFrame(waves) => self.on_frame(waves, at),
        }
    }
}

impl Root {
    /// A fork of the session, which takes over some content.
    #[verifier::opaque]
    pub open spec fn branched(
        self,
        workspace: Seq<char>,
        thinking: ReasoningEffort,
        content: Record,
        now: int,
    ) -> Root {
        Root {
            transcript: Story { content, ..Story::fresh(self.transcript.effort, now) },
            composer: ComposerModel {
                tokens: self.composer.tokens,
                fast: self.composer.fast,
                status: Some("Forking session…"@),
                ..ComposerModel::fresh(thinking)
            },
            subagents: self.subagents.same_limit(thinking),
            thread: ThreadState::Started,
            fork_available: false,
            theme_mode: self.theme_mode,
            interactive: false,
            ..Root::fresh(workspace, self.home, thinking, now)
        }
    }
}

impl RootNode {
    /// The mouse led to an answer, or to an event that goes on.
    pub open spec fn goes(self, step: MouseStep, outcome: MouseOutcome) -> bool {
        match outcome {
            MouseOutcome::Done(done) => step matches MouseStep::Done(update) && self.steps(
                update,
                done,
            ),
            MouseOutcome::Go(root, event) => step == MouseStep::Go(event) && self@ == root
                && self.wf(),
        }
    }

    pub open spec fn wf(self) -> bool {
        &&& self@.wf()
        &&& self.composer.wf()
        &&& self.composer.workspace@ == shortened(self.workspace@, option_view(self.home))
    }

    /// The session took a step and gave its answer.
    pub open spec fn steps(self, update: ComponentUpdate<RootEffect>, step: RootStep) -> bool {
        &&& self.wf()
        &&& self@ == step.root
        &&& root_answers(update, step)
    }
}

} // verus!
