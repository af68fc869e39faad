//! The decisions of the program's main loop: what each event of the outside leads to, and what each
//! request of a session leads to.

use crate::composer::option_view;
use crate::pane_runtime::{
    command_view, following, LocalEvent, LocalRecord, PaneRuntime, PaneState, RuntimeError,
    WorkerCommand,
};
use crate::panes::{AppEffect, AppRequest};
use crate::paths::{is_web, is_web_link, link_file, local_link_path};
use crate::prompt::{PromptModel, Submission};
use crate::root::{RootEffect, RootRequest};
use crate::settings::{PaneId, ReasoningEffort, ThemeMode};
use vstd::prelude::*;

verus! {

/// What the external editor is opened on. `T` is the type of texts.
#[derive(Debug)]
pub enum EditorTarget<T> {
    Draft { pane: PaneId, draft: T },
    Queue { pane: PaneId, index: usize, text: T },
    Config,
    File(T),
}

/// What a session is told.
#[derive(Debug)]
pub enum Notice<T> {
    TurnFinished(PaneId),
    ShellFinished(PaneId),
    TurnsCancelled(PaneId),
    SteerAdmitted { pane: PaneId, id: u64 },
    SteerPromoted { pane: PaneId, id: u64 },
    SteerFailed { pane: PaneId, id: u64 },
    StreamClosed(PaneId),
    ForkReady(PaneId),
    ForkFailed { pane: PaneId, error: T },
    EditorDraft { pane: PaneId, draft: T },
    QueueEditorFinished { pane: PaneId, index: usize, text: T },
    NewSessionReady { pane: PaneId, effort: ReasoningEffort },
    NewSessionFailed { pane: PaneId, error: T },
    SessionsLoaded(PaneId),
    SessionLoadFailed { pane: PaneId, error: T },
    SessionRestored { pane: PaneId, effort: ReasoningEffort },
    NotifyError { pane: PaneId, error: T },
    NotifySuccess { pane: PaneId, message: T },
}

/// What the program has to do. `apply` says that what the sessions then ask for is to be done too;
/// otherwise only their frame is drawn.
#[derive(Debug)]
pub enum Action<T, P> {
    /// Writes a record and hands it to its session.
    Record { pane: PaneId, record: LocalRecord<T>, apply: bool },
    /// Writes the first record of a new journal.
    Open { pane: PaneId, record: LocalRecord<T> },
    /// Writes the last record of a journal and closes it.
    Close { pane: PaneId, record: LocalRecord<T> },
    Tell { notice: Notice<T>, apply: bool },
    Send(WorkerCommand<P>),
    CancelSubagents(PaneId),
    RunShell { pane: PaneId, id: u64, command: T },
    OpenBrowser { pane: PaneId, link: T },
    /// Leaves the terminal to an editor.
    Edit(EditorTarget<T>),
    PersistEffort { pane: PaneId, effort: ReasoningEffort },
    ApplyEffort(ReasoningEffort),
    ReloadConfig(PaneId),
    StartSession(PaneId),
    ListSessions { pane: PaneId, active: T },
    ResumeSession { pane: PaneId, session: T },
    Copy { pane: PaneId, text: T },
    /// Copies by way of the terminal; `error` is why the system's clipboard refused.
    CopyToTerminal { pane: PaneId, text: T, error: T },
    PersistFastMode { pane: PaneId, enabled: bool },
    LimitSubagents { pane: PaneId, limit: usize },
    PersistTheme(ThemeMode),
    SaveCheckpoint { pane: PaneId, session: T },
    Shutdown,
}

impl View for EditorTarget<String> {
    type V = EditorTarget<Seq<char>>;

    open spec fn view(&self) -> EditorTarget<Seq<char>> {
        match self {
            EditorTarget::Draft { pane, draft } => EditorTarget::Draft {
                pane: *pane,
                draft: draft@,
            },
            EditorTarget::Queue { pane, index, text } => EditorTarget::Queue {
                pane: *pane,
                index: *index,
                text: text@,
            },
            EditorTarget::Config => EditorTarget::Config,
            EditorTarget::File(path) => EditorTarget::File(path@),
        }
    }
}

impl View for Notice<String> {
    type V = Notice<Seq<char>>;

    open spec fn view(&self) -> Notice<Seq<char>> {
        match self {
            Notice::TurnFinished(pane) => Notice::TurnFinished(*pane),
            Notice::ShellFinished(pane) => Notice::ShellFinished(*pane),
            Notice::TurnsCancelled(pane) => Notice::TurnsCancelled(*pane),
            Notice::SteerAdmitted { pane, id } => Notice::SteerAdmitted { pane: *pane, id: *id },
            Notice::SteerPromoted { pane, id } => Notice::SteerPromoted { pane: *pane, id: *id },
            Notice::SteerFailed { pane, id } => Notice::SteerFailed { pane: *pane, id: *id },
            Notice::StreamClosed(pane) => Notice::StreamClosed(*pane),
            Notice::ForkReady(pane) => Notice::ForkReady(*pane),
            Notice::ForkFailed { pane, error } => Notice::ForkFailed {
                pane: *pane,
                error: error@,
            },
            Notice::EditorDraft { pane, draft } => Notice::EditorDraft {
                pane: *pane,
                draft: draft@,
            },
            Notice::QueueEditorFinished { pane, index, text } => Notice::QueueEditorFinished {
                pane: *pane,
                index: *index,
                text: text@,
            },
            Notice::NewSessionReady { pane, effort } => Notice::NewSessionReady {
                pane: *pane,
                effort: *effort,
            },
            Notice::NewSessionFailed { pane, error } => Notice::NewSessionFailed {
                pane: *pane,
                error: error@,
            },
            Notice::SessionsLoaded(pane) => Notice::SessionsLoaded(*pane),
            Notice::SessionLoadFailed { pane, error } => Notice::SessionLoadFailed {
                pane: *pane,
                error: error@,
            },
            Notice::SessionRestored { pane, effort } => Notice::SessionRestored {
                pane: *pane,
                effort: *effort,
            },
            Notice::NotifyError { pane, error } => Notice::NotifyError {
                pane: *pane,
                error: error@,
            },
            Notice::NotifySuccess { pane, message } => Notice::NotifySuccess {
                pane: *pane,
                message: message@,
            },
        }
    }
}

impl View for Action<String, Submission> {
    type V = Action<Seq<char>, PromptModel>;

    open spec fn view(&self) -> Action<Seq<char>, PromptModel> {
        match self {
            Action::Record { pane, record, apply } => Action::Record {
                pane: *pane,
                record: record@,
                apply: *apply,
            },
            Action::Open { pane, record } => Action::Open { pane: *pane, record: record@ },
            Action::Close { pane, record } => Action::Close { pane: *pane, record: record@ },
            Action::Tell { notice, apply } => Action::Tell { notice: notice@, apply: *apply },
            Action::Send(command) => Action::Send(command@),
            Action::CancelSubagents(pane) => Action::CancelSubagents(*pane),
            Action::RunShell { pane, id, command } => Action::RunShell {
                pane: *pane,
                id: *id,
                command: command@,
            },
            Action::OpenBrowser { pane, link } => Action::OpenBrowser { pane: *pane, link: link@ },
            Action::Edit(target) => Action::Edit(target@),
            Action::PersistEffort { pane, effort } => Action::PersistEffort {
                pane: *pane,
                effort: *effort,
            },
            Action::ApplyEffort(effort) => Action::ApplyEffort(*effort),
            Action::ReloadConfig(pane) => Action::ReloadConfig(*pane),
            Action::StartSession(pane) => Action::StartSession(*pane),
            Action::ListSessions { pane, active } => Action::ListSessions {
                pane: *pane,
                active: active@,
            },
            Action::ResumeSession { pane, session } => Action::ResumeSession {
                pane: *pane,
                session: session@,
            },
            Action::Copy { pane, text } => Action::Copy { pane: *pane, text: text@ },
            Action::CopyToTerminal { pane, text, error } => Action::CopyToTerminal {
                pane: *pane,
                text: text@,
                error: error@,
            },
            Action::LimitSubagents { pane, limit } => Action::LimitSubagents {
                pane: *pane,
                limit: *limit,
            },
            Action::PersistFastMode { pane, enabled } => Action::PersistFastMode {
                pane: *pane,
                enabled: *enabled,
            },
            Action::PersistTheme(mode) => Action::PersistTheme(*mode),
            Action::SaveCheckpoint { pane, session } => Action::SaveCheckpoint {
                pane: *pane,
                session: session@,
            },
            Action::Shutdown => Action::Shutdown,
        }
    }
}

pub open spec fn acts(actions: Seq<Action<String, Submission>>) -> Seq<
    Action<Seq<char>, PromptModel>,
> {
    actions.map_values(|action: Action<String, Submission>| action@)
}

/// The state of the main loop.
#[derive(Debug)]
pub struct Runtime {
    pub panes: Vec<PaneRuntime>,
    pub workspace: String,
    pub stopping: bool,
    pub worker_stopped: bool,
    pub worker_error: Option<String>,
    pub writer_failed: bool,
    pub writers_open: usize,
    /// The terminal's input is read.
    pub input: bool,
    pub editor_open: bool,
    pub effort_task: bool,
    pub new_session_task: bool,
    pub session_list_task: bool,
    pub resume_session_task: bool,
    pub shell_tasks: usize,
}

/// The state of the main loop as mathematical values.
pub struct Loop {
    pub panes: Seq<PaneState>,
    pub workspace: Seq<char>,
    pub stopping: bool,
    pub worker_stopped: bool,
    pub worker_error: Option<Seq<char>>,
    pub writer_failed: bool,
    pub writers: int,
    pub input: bool,
    pub editor: bool,
    pub effort_task: bool,
    pub new_session_task: bool,
    pub session_list_task: bool,
    pub resume_session_task: bool,
    pub shell_tasks: int,
}

pub open spec fn states(panes: Seq<PaneRuntime>) -> Seq<PaneState> {
    panes.map_values(|pane: PaneRuntime| pane@)
}

impl View for Runtime {
    type V = Loop;

    open spec fn view(&self) -> Loop {
        Loop {
            panes: states(self.panes@),
            workspace: self.workspace@,
            stopping: self.stopping,
            worker_stopped: self.worker_stopped,
            worker_error: option_view(self.worker_error),
            writer_failed: self.writer_failed,
            writers: self.writers_open as int,
            input: self.input,
            editor: self.editor_open,
            effort_task: self.effort_task,
            new_session_task: self.new_session_task,
            session_list_task: self.session_list_task,
            resume_session_task: self.resume_session_task,
            shell_tasks: self.shell_tasks as int,
        }
    }
}

/// The place of a pane from place `from` on, or the number of panes.
pub open spec fn pane_index(panes: Seq<PaneState>, pane: PaneId, from: int) -> int
    decreases panes.len() - from,
{
    if from >= panes.len() {
        panes.len() as int
    } else if panes[from].pane == pane {
        from
    } else {
        pane_index(panes, pane, from + 1)
    }
}

/// The loop after an event, and what is to be done.
pub struct RunStep {
    pub run: Loop,
    pub actions: Seq<Action<Seq<char>, PromptModel>>,
}

/// The place of the first pane with a closed journal, from place `from` on, or the number of panes.
pub open spec fn first_closed(panes: Seq<PaneState>, from: int) -> int
    decreases panes.len() - from,
{
    if from >= panes.len() {
        panes.len() as int
    } else if panes[from].journal is None {
        from
    } else {
        first_closed(panes, from + 1)
    }
}

/// The text of a writer that stopped.
pub open spec fn is_stopped_writer(error: RuntimeError, path: Seq<char>) -> bool {
    error matches RuntimeError::WriterStopped(found) && found@ == path
}

/// No pane occurs twice.
#[verifier::opaque]
pub open spec fn are_distinct(panes: Seq<PaneState>) -> bool {
    forall|i: int, j: int|
        0 <= i < j < panes.len() ==> (#[trigger] panes[i]).pane != (#[trigger] panes[j]).pane
}

/// Panes that keep their names are as distinct as before.
pub proof fn lemma_distinct(a: Seq<PaneState>, b: Seq<PaneState>)
    requires
        are_distinct(a),
        a.len() == b.len(),
        forall|i: int| 0 <= i < a.len() ==> (#[trigger] b[i]).pane == a[i].pane,
    ensures
        are_distinct(b),
{
    reveal(are_distinct);
}

impl Loop {
    /// No pane occurs twice.
    pub open spec fn distinct(self) -> bool {
        are_distinct(self.panes)
    }

    pub open spec fn at(self, pane: PaneId) -> int {
        pane_index(self.panes, pane, 0)
    }

    pub open spec fn has(self, pane: PaneId) -> bool {
        self.at(pane) < self.panes.len()
    }

    pub open spec fn pane(self, pane: PaneId) -> PaneState {
        self.panes[self.at(pane)]
    }

    pub open spec fn with(self, pane: PaneId, state: PaneState) -> Loop {
        Loop { panes: self.panes.update(self.at(pane), state), ..self }
    }

    pub open spec fn step(self, actions: Seq<Action<Seq<char>, PromptModel>>) -> RunStep {
        RunStep { run: self, actions }
    }

    /// A pane's journal gets a record, which goes to its session.
    pub open spec fn noted(self, pane: PaneId, event: LocalEvent<Seq<char>>, apply: bool) -> RunStep {
        let state = self.pane(pane);
        self.with(pane, state.wrote()).step(
            seq![Action::Record { pane, record: state.record(event), apply }],
        )
    }

    /// An event belongs to the session that a pane runs.
    pub open spec fn knows(self, pane: PaneId, session_id: Seq<char>, generation: u64) -> bool {
        self.has(pane) && self.pane(pane).is(session_id, generation)
    }

    /// A prompt is submitted.
    #[verifier::opaque]
    pub open spec fn on_submit(self, pane: PaneId, prompt: PromptModel) -> RunStep {
        let (state, record, command) = self.pane(pane).submitted(prompt);
        self.with(pane, state).step(
            seq![Action::Record { pane, record, apply: false }] + sent(command),
        )
    }

    /// A shell command is run.
    #[verifier::opaque]
    pub open spec fn on_shell(self, pane: PaneId, command: Seq<char>) -> RunStep {
        let (state, record) = self.pane(pane).shell_started(command, self.workspace);
        Loop {
            shell_tasks: crate::root::one_more(self.shell_tasks),
            ..self.with(pane, state)
        }.step(
            seq![
                Action::Record { pane, record, apply: false },
                Action::RunShell { pane, id: self.pane(pane).next_shell, command },
            ],
        )
    }

    /// A prompt is sent into the turn.
    #[verifier::opaque]
    pub open spec fn on_steer(self, pane: PaneId, id: u64, prompt: PromptModel) -> RunStep {
        let state = self.pane(pane);
        self.with(pane, PaneState { next_turn: following(state.next_turn), ..state }).step(
            seq![
                Action::Send(
                    WorkerCommand::Steer {
                        pane: state.pane,
                        queue_id: id,
                        fallback_id: state.next_turn,
                        prompt,
                    },
                ),
            ],
        )
    }

    /// A session asks for something.
    pub open spec fn on_effect(self, pane: PaneId, request: RootRequest, draft: Seq<char>) -> RunStep {
        match request {
            RootRequest::Submit(prompt) => self.on_submit(pane, prompt),
            RootRequest::RunShell(command) => self.on_shell(pane, command),
            RootRequest::OpenLink(link) => if is_web(link) {
                self.step(seq![Action::OpenBrowser { pane, link }])
            } else {
                self.editing(EditorTarget::File(link_file(link, self.workspace)))
            },
            RootRequest::OpenDraftEditor => self.editing(EditorTarget::Draft { pane, draft }),
            RootRequest::OpenQueueEditor { index, text } => self.editing(
                EditorTarget::Queue { pane, index: index as usize, text },
            ),
            RootRequest::OpenConfigEditor => self.editing(EditorTarget::Config),
            RootRequest::SetEffort(effort) => Loop {
                input: false,
                effort_task: true,
                ..self
            }.step(seq![Action::PersistEffort { pane, effort }]),
            RootRequest::SetFastMode(enabled) => self.step(
                seq![Action::PersistFastMode { pane, enabled }],
            ),
            RootRequest::SetMaxSubagents(limit) => self.step(
                seq![Action::LimitSubagents { pane, limit }],
            ),
            RootRequest::ReloadConfig => self.step(seq![Action::ReloadConfig(pane)]),
            RootRequest::NewSession => Loop {
                input: false,
                new_session_task: true,
                ..self
            }.step(seq![Action::StartSession(pane)]),
            RootRequest::LoadSessions => Loop {
                input: false,
                session_list_task: true,
                ..self
            }.step(
                seq![Action::ListSessions { pane, active: self.pane(pane).session_id }],
            ),
            RootRequest::ResumeSession(session) => Loop {
                input: false,
                resume_session_task: true,
                ..self
            }.step(seq![Action::ResumeSession { pane, session }]),
            RootRequest::Copy(text) => self.step(seq![Action::Copy { pane, text }]),
            RootRequest::Steer { id, prompt } => self.on_steer(pane, id, prompt),
            RootRequest::PersistSteer(text) => self.noted(
                pane,
                LocalEvent::UserSteered { text },
                false,
            ),
            RootRequest::CancelTurns => self.step(
                seq![
                    Action::CancelSubagents(pane),
                    Action::Send(WorkerCommand::CancelAll(pane)),
                ],
            ),
            RootRequest::Fork | RootRequest::SetTheme(_) | RootRequest::Shutdown => self.step(
                Seq::empty(),
            ),
        }
    }

    /// What a request leaves that could not be written down.
    pub open spec fn left_by(self, pane: PaneId, request: RootRequest) -> Loop {
        match request {
            RootRequest::Submit(_) => self.with(pane, self.pane(pane).submit_refused()),
            RootRequest::RunShell(_) => self.with(pane, self.pane(pane).shell_refused()),
            _ => self,
        }
    }

    /// The terminal is left to an editor.
    pub open spec fn editing(self, target: EditorTarget<Seq<char>>) -> RunStep {
        Loop { input: false, editor: true, ..self }.step(seq![Action::Edit(target)])
    }

    /// The request needs the pane's journal.
    pub open spec fn needs_journal(request: RootRequest) -> bool {
        request is Submit || request is RunShell || request is PersistSteer
    }

    /// The request needs the pane's state.
    pub open spec fn needs_pane(request: RootRequest) -> bool {
        Self::needs_journal(request) || request is LoadSessions || request is Steer || request
            is CancelTurns
    }
}

/// The command, if there is one.
pub open spec fn sent(command: Option<WorkerCommand<PromptModel>>) -> Seq<
    Action<Seq<char>, PromptModel>,
> {
    match command {
        Some(command) => seq![Action::Send(command)],
        None => Seq::empty(),
    }
}

pub(crate) fn one(action: Action<String, Submission>) -> (actions: Vec<Action<String, Submission>>)
    ensures
        acts(actions@) == seq![action@],
{
    let mut actions: Vec<Action<String, Submission>> = Vec::new();
    actions.push(action);
    assert(acts(actions@) =~= seq![action@]);
    actions
}

pub(crate) fn two(first: Action<String, Submission>, second: Action<String, Submission>) -> (actions: Vec<
    Action<String, Submission>,
>)
    ensures
        acts(actions@) == seq![first@, second@],
{
    let mut actions: Vec<Action<String, Submission>> = Vec::new();
    actions.push(first);
    actions.push(second);
    assert(acts(actions@) =~= seq![first@, second@]);
    actions
}

pub(crate) fn recorded(
    pane: PaneId,
    record: LocalRecord<String>,
    apply: bool,
    command: Option<WorkerCommand<Submission>>,
) -> (actions: Vec<Action<String, Submission>>)
    ensures
        acts(actions@) == seq![Action::Record { pane, record: record@, apply }] + sent(
            command_view(command),
        ),
{
    let mut actions: Vec<Action<String, Submission>> = Vec::new();
    let first = Action::Record { pane, record, apply };
    actions.push(first);
    match command {
        Some(command) => {
            let second = Action::Send(command);
            actions.push(second);
            assert(acts(actions@) =~= seq![first@] + seq![second@]);
        },
        None => {
            assert(acts(actions@) =~= seq![first@] + Seq::empty());
        },
    }
    actions
}

impl Runtime {
    /// The loop took a step.
    pub open spec fn took(self, actions: Vec<Action<String, Submission>>, step: RunStep) -> bool {
        self@ == step.run && acts(actions@) == step.actions
    }

    pub(crate) fn index_of(&self, pane: PaneId) -> (index: usize)
        ensures
            index == self@.at(pane),
            index <= self.panes@.len(),
    {
        let mut i: usize = 0;
        while i < self.panes.len() && self.panes[i].pane != pane
            invariant
                i <= self.panes@.len(),
                pane_index(self@.panes, pane, i as int) == pane_index(self@.panes, pane, 0),
            decreases self.panes@.len() - i,
        {
            assert(self@.panes[i as int] == self.panes@[i as int]@);
            i = i + 1;
        }
        proof {
            if i < self.panes@.len() {
                assert(self@.panes[i as int] == self.panes@[i as int]@);
            }
        }
        i
    }

    /// Whether an event belongs to the session that a pane runs. Others are dropped.
    pub fn is_current(&self, pane: PaneId, session_id: &str, generation: u64) -> (yes: bool)
        ensures
            yes == self@.knows(pane, session_id@, generation),
    {
        let i: usize = self.index_of(pane);
        if i == self.panes.len() {
            return false;
        }
        assert(self@.panes[i as int] == self.panes@[i as int]@);
        self.panes[i].is_current(session_id, generation)
    }
}

impl Runtime {
    /// The pane's journal is closed, and the loop is left in some state.
    pub open spec fn refused(self, after: Runtime, pane: PaneId, left: Loop, error: RuntimeError) -> bool {
        &&& self@.pane(pane).journal is None
        &&& after@ == left
        &&& is_stopped_writer(error, self@.pane(pane).writer_path)
    }

    fn note(&mut self, pane: PaneId, event: LocalEvent<String>, apply: bool) -> (actions: Result<
        Vec<Action<String, Submission>>,
        RuntimeError,
    >)
        requires
            old(self)@.distinct(),
            old(self)@.has(pane),
        ensures
            final(self)@.distinct(),
            match actions {
                Ok(actions) => old(self)@.pane(pane).journal is Some && final(self).took(
                    actions,
                    old(self)@.noted(pane, event@, apply),
                ),
                Err(error) => old(self).refused(*final(self), pane, old(self)@, error),
            },
    {
        let i: usize = self.index_of(pane);
        let ghost before = self@;
        assert(before.panes[i as int] == self.panes@[i as int]@);
        match self.panes[i].write(event) {
            Ok(record) => {
                assert(self@.panes =~= before.panes.update(i as int, before.pane(pane).wrote()));
                proof {
                    lemma_distinct(before.panes, self@.panes);
                }
                Ok(one(Action::Record { pane, record, apply }))
            },
            Err(error) => {
                assert(self@.panes =~= before.panes);
                Err(error)
            },
        }
    }

    fn submit(&mut self, pane: PaneId, prompt: Submission) -> (actions: Result<
        Vec<Action<String, Submission>>,
        RuntimeError,
    >)
        requires
            old(self)@.distinct(),
            old(self)@.has(pane),
        ensures
            final(self)@.distinct(),
            match actions {
                Ok(actions) => old(self)@.pane(pane).journal is Some && final(self).took(
                    actions,
                    old(self)@.on_submit(pane, prompt@),
                ),
                Err(error) => old(self).refused(
                    *final(self),
                    pane,
                    old(self)@.with(pane, old(self)@.pane(pane).submit_refused()),
                    error,
                ),
            },
    {
        proof {
            reveal(Loop::on_submit);
        }
        let i: usize = self.index_of(pane);
        let ghost before = self@;
        assert(before.panes[i as int] == self.panes@[i as int]@);
        match self.panes[i].submit(prompt) {
            Ok((record, command)) => {
                assert(self@.panes =~= before.panes.update(
                    i as int,
                    before.pane(pane).submitted(prompt@).0,
                ));
                proof {
                    lemma_distinct(before.panes, self@.panes);
                }
                Ok(recorded(pane, record, false, command))
            },
            Err(error) => {
                assert(self@.panes =~= before.panes.update(
                    i as int,
                    before.pane(pane).submit_refused(),
                ));
                proof {
                    lemma_distinct(before.panes, self@.panes);
                }
                Err(error)
            },
        }
    }

    fn run_shell(&mut self, pane: PaneId, command: String) -> (actions: Result<
        Vec<Action<String, Submission>>,
        RuntimeError,
    >)
        requires
            old(self)@.distinct(),
            old(self)@.has(pane),
        ensures
            final(self)@.distinct(),
            match actions {
                Ok(actions) => old(self)@.pane(pane).journal is Some && final(self).took(
                    actions,
                    old(self)@.on_shell(pane, command@),
                ),
                Err(error) => old(self).refused(
                    *final(self),
                    pane,
                    old(self)@.with(pane, old(self)@.pane(pane).shell_refused()),
                    error,
                ),
            },
    {
        proof {
            reveal(Loop::on_shell);
        }
        let i: usize = self.index_of(pane);
        let ghost before = self@;
        assert(before.panes[i as int] == self.panes@[i as int]@);
        let workspace: String = self.workspace.clone();
        match self.panes[i].start_shell(command.clone(), workspace) {
            Ok((record, id)) => {
                self.shell_tasks = self.shell_tasks.saturating_add(1);
                assert(self@.panes =~= before.panes.update(
                    i as int,
                    before.pane(pane).shell_started(command@, before.workspace).0,
                ));
                proof {
                    lemma_distinct(before.panes, self@.panes);
                }
                Ok(
                    two(
                        Action::Record { pane, record, apply: false },
                        Action::RunShell { pane, id, command },
                    ),
                )
            },
            Err(error) => {
                assert(self@.panes =~= before.panes.update(
                    i as int,
                    before.pane(pane).shell_refused(),
                ));
                proof {
                    lemma_distinct(before.panes, self@.panes);
                }
                Err(error)
            },
        }
    }

    fn steer(&mut self, pane: PaneId, id: u64, prompt: Submission) -> (actions: Vec<
        Action<String, Submission>,
    >)
        requires
            old(self)@.distinct(),
            old(self)@.has(pane),
        ensures
            final(self)@.distinct(),
            final(self).took(actions, old(self)@.on_steer(pane, id, prompt@)),
    {
        proof {
            reveal(Loop::on_steer);
        }
        let i: usize = self.index_of(pane);
        let ghost before = self@;
        assert(before.panes[i as int] == self.panes@[i as int]@);
        let command = self.panes[i].steer(id, prompt);
        assert(self@.panes =~= before.panes.update(
            i as int,
            PaneState {
                next_turn: following(before.pane(pane).next_turn),
                ..before.pane(pane)
            },
        ));
        proof {
            lemma_distinct(before.panes, self@.panes);
        }
        one(Action::Send(command))
    }

    fn edit(&mut self, target: EditorTarget<String>) -> (actions: Vec<Action<String, Submission>>)
        requires
            old(self)@.distinct(),
        ensures
            final(self)@.distinct(),
            final(self).took(actions, old(self)@.editing(target@)),
    {
        self.input = false;
        self.editor_open = true;
        one(Action::Edit(target))
    }

    /// Decides what a request of a session leads to. `draft` is the text in the session's composer.
    #[verifier::rlimit(40)]
    pub fn apply_pane_effect(&mut self, pane: PaneId, effect: RootEffect, draft: &str) -> (actions:
        Result<Vec<Action<String, Submission>>, RuntimeError>)
        requires
            old(self)@.distinct(),
            Loop::needs_pane(effect@) ==> old(self)@.has(pane),
            !(effect is Fork || effect is SetTheme || effect is Shutdown),
        ensures
            final(self)@.distinct(),
            match actions {
                Ok(actions) => final(self).took(
                    actions,
                    old(self)@.on_effect(pane, effect@, draft@),
                ) && (Loop::needs_journal(effect@) ==> old(self)@.pane(pane).journal is Some),
                Err(error) => Loop::needs_journal(effect@) && old(self).refused(
                    *final(self),
                    pane,
                    old(self)@.left_by(pane, effect@),
                    error,
                ),
            },
    {
        match effect {
            RootEffect::Submit(prompt) => self.submit(pane, prompt),
            RootEffect::RunShell(command) => self.run_shell(pane, command),
            RootEffect::OpenLink(destination) => {
                if is_web_link(destination.as_str()) {
                    return Ok(one(Action::OpenBrowser { pane, link: destination }));
                }
                let path = local_link_path(destination.as_str(), self.workspace.as_str());
                Ok(self.edit(EditorTarget::File(path)))
            },
            RootEffect::OpenDraftEditor => Ok(
                self.edit(EditorTarget::Draft { pane, draft: draft.to_owned() }),
            ),
            RootEffect::OpenQueueEditor { index, text } => Ok(
                self.edit(EditorTarget::Queue { pane, index, text }),
            ),
            RootEffect::OpenConfigEditor => Ok(self.edit(EditorTarget::Config)),
            RootEffect::SetEffort(effort) => {
                self.input = false;
                self.effort_task = true;
                Ok(one(Action::PersistEffort { pane, effort }))
            },
            RootEffect::SetFastMode(enabled) => Ok(one(Action::PersistFastMode { pane, enabled })),
            RootEffect::SetMaxSubagents(limit) => Ok(one(Action::LimitSubagents { pane, limit })),
            RootEffect::ReloadConfig => Ok(one(Action::ReloadConfig(pane))),
            RootEffect::NewSession => {
                self.input = false;
                self.new_session_task = true;
                Ok(one(Action::StartSession(pane)))
            },
            RootEffect::LoadSessions => {
                let i: usize = self.index_of(pane);
                assert(self@.panes[i as int] == self.panes@[i as int]@);
                let active: String = self.panes[i].session_id.clone();
                self.input = false;
                self.session_list_task = true;
                Ok(one(Action::ListSessions { pane, active }))
            },
            RootEffect::ResumeSession(session) => {
                self.input = false;
                self.resume_session_task = true;
                Ok(one(Action::ResumeSession { pane, session }))
            },
            RootEffect::Copy(text) => Ok(one(Action::Copy { pane, text })),
            RootEffect::Steer { id, prompt } => Ok(self.steer(pane, id, prompt)),
            RootEffect::PersistSteer(text) => self.note(
                pane,
                LocalEvent::UserSteered { text },
                false,
            ),
            RootEffect::CancelTurns => Ok(
                two(
                    Action::CancelSubagents(pane),
                    Action::Send(WorkerCommand::CancelAll(pane)),
                ),
            ),
            RootEffect::Fork | RootEffect::SetTheme(_) | RootEffect::Shutdown => Ok(nothing()),
        }
    }

    /// Decides what a request of the program leads to. `draft` is the text in the composer of the
    /// session that asks.
    pub fn apply_effect(&mut self, effect: AppEffect, draft: &str) -> (actions: Result<
        Vec<Action<String, Submission>>,
        RuntimeError,
    >)
        requires
            old(self)@.distinct(),
            effect@ matches AppRequest::Pane { pane, request } ==> (Loop::needs_pane(request)
                ==> old(self)@.has(pane)) && !(request is Fork || request is SetTheme || request
                is Shutdown),
        ensures
            final(self)@.distinct(),
            match effect@ {
                AppRequest::Pane { pane, request } => match actions {
                    Ok(actions) => final(self).took(
                        actions,
                        old(self)@.on_effect(pane, request, draft@),
                    ) && (Loop::needs_journal(request) ==> old(self)@.pane(pane).journal is Some),
                    Err(error) => Loop::needs_journal(request) && old(self).refused(
                        *final(self),
                        pane,
                        old(self)@.left_by(pane, request),
                        error,
                    ),
                },
                AppRequest::OpenFork(pane) => actions matches Ok(actions) && final(self).took(
                    actions,
                    old(self)@.step(seq![Action::Send(WorkerCommand::OpenFork(pane))]),
                ),
                AppRequest::ClosePane(pane) => actions matches Ok(actions) && final(self).took(
                    actions,
                    old(self)@.step(seq![Action::Send(WorkerCommand::ClosePane(pane))]),
                ),
                AppRequest::SetTheme(mode) => actions matches Ok(actions) && final(self).took(
                    actions,
                    old(self)@.step(seq![Action::PersistTheme(mode)]),
                ),
                AppRequest::Shutdown => actions matches Ok(actions) && final(self).took(
                    actions,
                    old(self)@.step(seq![Action::Shutdown]),
                ),
            },
    {
        match effect {
            AppEffect::OpenFork(pane) => Ok(one(Action::Send(WorkerCommand::OpenFork(pane)))),
            AppEffect::ClosePane(pane) => Ok(one(Action::Send(WorkerCommand::ClosePane(pane)))),
            AppEffect::SetTheme(mode) => Ok(one(Action::PersistTheme(mode))),
            AppEffect::Shutdown => Ok(one(Action::Shutdown)),
            AppEffect::Pane { pane, effect } => self.apply_pane_effect(pane, effect, draft),
        }
    }
}

/// What the agent's worker tells.
#[derive(Debug)]
pub enum WorkerEvent {
    Stopped { reason: Option<String> },
    TurnAccepted { pane: PaneId, id: u64 },
    /// A turn ended; `checkpoint` says that there is a state to resume from.
    TurnFinished { pane: PaneId, id: u64, failure: Option<String>, checkpoint: bool },
    SteerAdmitted { pane: PaneId, queue_id: u64 },
    SteerPromoted { pane: PaneId, queue_id: u64, id: u64, prompt: Submission },
    SteerFailed { pane: PaneId, queue_id: u64, error: String },
    TurnsCancelled { pane: PaneId, count: usize, failure: Option<String> },
    ForkFailed { pane: PaneId, error: String },
    ThinkingUpdated { pane: PaneId, effort: ReasoningEffort },
}

impl WorkerEvent {
    /// The pane whose journal the event is written into.
    pub open spec fn pane(self) -> Option<PaneId> {
        match self {
            WorkerEvent::TurnAccepted { pane, .. } => Some(pane),
            WorkerEvent::TurnFinished { pane, .. } => Some(pane),
            WorkerEvent::SteerPromoted { pane, .. } => Some(pane),
            WorkerEvent::SteerFailed { pane, .. } => Some(pane),
            WorkerEvent::TurnsCancelled { pane, .. } => Some(pane),
            WorkerEvent::ThinkingUpdated { pane, .. } => Some(pane),
            _ => None,
        }
    }
}

impl Loop {
    /// The panes after the worker's end was written into the first `n` journals.
    pub open spec fn ended_panes(self, reason: Option<Seq<char>>, n: int) -> Seq<PaneState> {
        Seq::new(
            self.panes.len(),
            |i: int|
                if i < n {
                    self.panes[i].wrote()
                } else {
                    self.panes[i]
                },
        )
    }

    /// The records of the worker's end in the first `n` journals.
    pub open spec fn ended_records(self, reason: Option<Seq<char>>, n: int) -> Seq<
        Action<Seq<char>, PromptModel>,
    > {
        Seq::new(
            n as nat,
            |i: int|
                Action::Record {
                    pane: self.panes[i].pane,
                    record: self.panes[i].record(LocalEvent::WorkerStopped { reason }),
                    apply: false,
                },
        )
    }

    /// The records of an event, and what its session is told after them.
    pub open spec fn noted_then(
        self,
        pane: PaneId,
        event: LocalEvent<Seq<char>>,
        notice: Notice<Seq<char>>,
        apply: bool,
    ) -> RunStep {
        let step = self.noted(pane, event, false);
        RunStep { actions: step.actions.push(Action::Tell { notice, apply }), ..step }
    }

    /// The state that a finished turn left is saved, if there is one.
    pub open spec fn saved(self, pane: PaneId, checkpoint: bool) -> Seq<
        Action<Seq<char>, PromptModel>,
    > {
        if checkpoint {
            seq![Action::SaveCheckpoint { pane, session: self.pane(pane).session_id }]
        } else {
            Seq::empty()
        }
    }

    /// The journals that an event of the worker is written into are open.
    pub open spec fn takes(self, event: WorkerEvent) -> bool {
        match event {
            WorkerEvent::Stopped { .. } => first_closed(self.panes, 0) == self.panes.len(),
            WorkerEvent::SteerAdmitted { .. } | WorkerEvent::ForkFailed { .. } => true,
            _ => event.pane() matches Some(pane) && (self.has(pane) ==> self.pane(pane).journal
                is Some),
        }
    }

    /// What an event of the worker leads to before a journal turns out to be closed. The worker's end
    /// is written for the panes in front of that one, and a turn's state is saved.
    pub open spec fn on_refusal(self, event: WorkerEvent) -> RunStep {
        match event {
            WorkerEvent::Stopped { reason } => {
                let n = first_closed(self.panes, 0);
                Loop { panes: self.ended_panes(option_view(reason), n), ..self }.step(
                    self.ended_records(option_view(reason), n),
                )
            },
            WorkerEvent::TurnFinished { pane, checkpoint, .. } => self.step(
                self.saved(pane, checkpoint),
            ),
            _ => self.step(Seq::empty()),
        }
    }

    /// The path of the journal that turns out to be closed.
    pub open spec fn closed_path(self, event: WorkerEvent) -> Seq<char> {
        match event.pane() {
            Some(pane) => self.pane(pane).writer_path,
            None => self.panes[first_closed(self.panes, 0)].writer_path,
        }
    }

    /// The worker tells something. Where the pane is gone, nothing happens.
    pub open spec fn on_worker(self, event: WorkerEvent) -> RunStep {
        match event {
            WorkerEvent::Stopped { reason } => {
                let count = self.panes.len() as int;
                Loop {
                    panes: self.ended_panes(option_view(reason), count),
                    worker_stopped: true,
                    worker_error: option_view(reason),
                    ..self
                }.step(self.ended_records(option_view(reason), count))
            },
            WorkerEvent::TurnAccepted { pane, id } => self.noted(
                pane,
                LocalEvent::WorkerTurnAccepted { id },
                false,
            ),
            WorkerEvent::TurnFinished { pane, id, failure, checkpoint } => if self.has(pane) {
                let step = self.noted_then(
                    pane,
                    LocalEvent::WorkerTurnFinished { id, failure: option_view(failure) },
                    Notice::TurnFinished(pane),
                    true,
                );
                RunStep { actions: self.saved(pane, checkpoint) + step.actions, ..step }
            } else {
                self.step(Seq::empty())
            },
            WorkerEvent::SteerAdmitted { pane, queue_id } => self.step(
                seq![
                    Action::Tell {
                        notice: Notice::SteerAdmitted { pane, id: queue_id },
                        apply: true,
                    },
                ],
            ),
            WorkerEvent::SteerPromoted { pane, queue_id, id, prompt } => if self.has(pane) {
                self.noted_then(
                    pane,
                    LocalEvent::UserSubmitted { id, text: prompt@.text },
                    Notice::SteerPromoted { pane, id: queue_id },
                    false,
                )
            } else {
                self.step(Seq::empty())
            },
            WorkerEvent::SteerFailed { pane, queue_id, error } => if self.has(pane) {
                self.noted_then(
                    pane,
                    LocalEvent::WorkerSteerFailed { error: error@ },
                    Notice::SteerFailed { pane, id: queue_id },
                    true,
                )
            } else {
                self.step(Seq::empty())
            },
            WorkerEvent::TurnsCancelled { pane, count, failure } => if self.has(pane) {
                self.noted_then(
                    pane,
                    LocalEvent::WorkerTurnsInterrupted { count, failure: option_view(failure) },
                    Notice::TurnsCancelled(pane),
                    false,
                )
            } else {
                self.step(Seq::empty())
            },
            WorkerEvent::ForkFailed { pane, error } => self.step(
                seq![
                    Action::Tell {
                        notice: Notice::ForkFailed { pane, error: error@ },
                        apply: true,
                    },
                ],
            ),
            WorkerEvent::ThinkingUpdated { pane, effort } => {
                let state = self.pane(pane);
                Loop {
                    input: true,
                    ..self.with(pane, PaneState { effort, ..state.wrote() })
                }.step(
                    seq![
                        Action::Record {
                            pane,
                            record: state.record(
                                LocalEvent::EffortChanged { from: state.effort, to: effort },
                            ),
                            apply: false,
                        },
                        Action::ApplyEffort(effort),
                    ],
                )
            },
        }
    }
}

/// A journal turned out to be closed, which ends the program: what was to be done before that, and
/// the error.
#[derive(Debug)]
pub struct Refusal {
    pub actions: Vec<Action<String, Submission>>,
    pub error: RuntimeError,
}

impl Runtime {
    /// An event of the worker led to some actions, or a journal is closed.
    pub open spec fn hears(
        self,
        after: Runtime,
        event: WorkerEvent,
        actions: Result<Vec<Action<String, Submission>>, Refusal>,
    ) -> bool {
        match actions {
            Ok(actions) => self@.takes(event) && after.took(actions, self@.on_worker(event)),
            Err(refusal) => !self@.takes(event) && after.took(
                refusal.actions,
                self@.on_refusal(event),
            ) && is_stopped_writer(refusal.error, self@.closed_path(event)),
        }
    }

    fn note_then(
        &mut self,
        pane: PaneId,
        event: LocalEvent<String>,
        notice: Notice<String>,
        apply: bool,
    ) -> (actions: Result<Vec<Action<String, Submission>>, RuntimeError>)
        requires
            old(self)@.distinct(),
            old(self)@.has(pane),
        ensures
            final(self)@.distinct(),
            match actions {
                Ok(actions) => old(self)@.pane(pane).journal is Some && final(self).took(
                    actions,
                    old(self)@.noted_then(pane, event@, notice@, apply),
                ),
                Err(error) => old(self).refused(*final(self), pane, old(self)@, error),
            },
    {
        match self.note(pane, event, false) {
            Ok(actions) => {
                let mut actions = actions;
                let ghost sofar = acts(actions@);
                let tell = Action::Tell { notice, apply };
                actions.push(tell);
                assert(acts(actions@) =~= sofar.push(tell@));
                Ok(actions)
            },
            Err(error) => Err(error),
        }
    }

    pub(crate) fn has_pane(&self, pane: PaneId) -> (yes: bool)
        ensures
            yes == self@.has(pane),
    {
        self.index_of(pane) < self.panes.len()
    }

    fn end_worker(&mut self, reason: Option<String>) -> (actions: Result<
        Vec<Action<String, Submission>>,
        Refusal,
    >)
        requires
            old(self)@.distinct(),
        ensures
            final(self)@.distinct(),
            old(self).hears(*final(self), WorkerEvent::Stopped { reason }, actions),
    {
        let ghost before = self@;
        let ghost text = option_view(reason);
        let mut actions: Vec<Action<String, Submission>> = Vec::new();
        let mut i: usize = 0;
        let total: usize = self.panes.len();
        assert(self@.panes =~= before.ended_panes(text, 0));
        assert(acts(actions@) =~= before.ended_records(text, 0));
        while i < total
            invariant
                total == self.panes@.len(),
                before.panes.len() == total,
                i <= total,
                before == old(self)@,
                before.distinct(),
                text == option_view(reason),
                self@ == (Loop { panes: before.ended_panes(text, i as int), ..before }),
                acts(actions@) == before.ended_records(text, i as int),
                first_closed(before.panes, i as int) == first_closed(before.panes, 0),
            decreases total - i,
        {
            let ghost sofar = acts(actions@);
            let ghost states_before = self@.panes;
            assert(self@.panes[i as int] == self.panes@[i as int]@);
            assert(self@.panes[i as int] == before.panes[i as int]);
            let pane = self.panes[i].pane;
            let copy: Option<String> = match &reason {
                Some(text) => Some(text.clone()),
                None => None,
            };
            match self.panes[i].worker_stopped(copy) {
                Ok(record) => {
                    let action = Action::Record { pane, record, apply: false };
                    actions.push(action);
                    assert(acts(actions@) =~= sofar.push(action@));
                },
                Err(error) => {
                    assert(self@.panes =~= states_before);
                    proof {
                        lemma_distinct(before.panes, self@.panes);
                    }
                    return Err(Refusal { actions, error });
                },
            }
            assert(self@.panes =~= states_before.update(i as int, before.panes[i as int].wrote()));
            i = i + 1;
            assert(self@.panes =~= before.ended_panes(text, i as int));
            assert(acts(actions@) =~= before.ended_records(text, i as int));
        }
        proof {
            lemma_distinct(before.panes, self@.panes);
        }
        self.worker_stopped = true;
        self.worker_error = reason;
        Ok(actions)
    }

    fn update_effort(&mut self, pane: PaneId, effort: ReasoningEffort) -> (actions: Result<
        Vec<Action<String, Submission>>,
        RuntimeError,
    >)
        requires
            old(self)@.distinct(),
            old(self)@.has(pane),
        ensures
            final(self)@.distinct(),
            match actions {
                Ok(actions) => old(self)@.pane(pane).journal is Some && final(self).took(
                    actions,
                    old(self)@.on_worker(WorkerEvent::ThinkingUpdated { pane, effort }),
                ),
                Err(error) => old(self).refused(*final(self), pane, old(self)@, error),
            },
    {
        let i: usize = self.index_of(pane);
        let ghost before = self@;
        assert(before.panes[i as int] == self.panes@[i as int]@);
        match self.panes[i].change_effort(effort) {
            Ok(record) => {
                self.input = true;
                assert(self@.panes =~= before.panes.update(
                    i as int,
                    PaneState { effort, ..before.pane(pane).wrote() },
                ));
                proof {
                    lemma_distinct(before.panes, self@.panes);
                }
                Ok(
                    two(
                        Action::Record { pane, record, apply: false },
                        Action::ApplyEffort(effort),
                    ),
                )
            },
            Err(error) => {
                assert(self@.panes =~= before.panes);
                Err(error)
            },
        }
    }

    fn finish_turn(&mut self, pane: PaneId, id: u64, failure: Option<String>, checkpoint: bool) -> (
    actions: Result<Vec<Action<String, Submission>>, Refusal>)
        requires
            old(self)@.distinct(),
            old(self)@.has(pane),
        ensures
            final(self)@.distinct(),
            old(self).hears(
                *final(self),
                WorkerEvent::TurnFinished { pane, id, failure, checkpoint },
                actions,
            ),
    {
        let i: usize = self.index_of(pane);
        assert(self@.panes[i as int] == self.panes@[i as int]@);
        let mut actions = if checkpoint {
            one(Action::SaveCheckpoint { pane, session: self.panes[i].session_id.clone() })
        } else {
            nothing()
        };
        let told = self.note_then(
            pane,
            LocalEvent::WorkerTurnFinished { id, failure },
            Notice::TurnFinished(pane),
            true,
        );
        match told {
            Ok(rest) => {
                let mut rest = rest;
                let ghost front = actions@;
                let ghost tail = rest@;
                actions.append(&mut rest);
                assert(acts(actions@) =~= acts(front) + acts(tail));
                Ok(actions)
            },
            Err(error) => Err(Refusal { actions, error }),
        }
    }

    /// Decides what an event of the worker leads to.
    pub fn handle_worker(&mut self, event: WorkerEvent) -> (actions: Result<
        Vec<Action<String, Submission>>,
        Refusal,
    >)
        requires
            old(self)@.distinct(),
            event matches WorkerEvent::TurnAccepted { pane, .. } ==> old(self)@.has(pane),
            event matches WorkerEvent::ThinkingUpdated { pane, .. } ==> old(self)@.has(pane),
        ensures
            final(self)@.distinct(),
            old(self).hears(*final(self), event, actions),
    {
        match event {
            WorkerEvent::Stopped { reason } => self.end_worker(reason),
            WorkerEvent::TurnAccepted { pane, id } => bare(
                self.note(pane, LocalEvent::WorkerTurnAccepted { id }, false),
            ),
            WorkerEvent::TurnFinished { pane, id, failure, checkpoint } => {
                if !self.has_pane(pane) {
                    return Ok(nothing());
                }
                self.finish_turn(pane, id, failure, checkpoint)
            },
            WorkerEvent::SteerAdmitted { pane, queue_id } => Ok(
                one(
                    Action::Tell {
                        notice: Notice::SteerAdmitted { pane, id: queue_id },
                        apply: true,
                    },
                ),
            ),
            WorkerEvent::SteerPromoted { pane, queue_id, id, prompt } => {
                if !self.has_pane(pane) {
                    return Ok(nothing());
                }
                let text: String = prompt.display_text().to_owned();
                bare(
                    self.note_then(
                        pane,
                        LocalEvent::UserSubmitted { id, text },
                        Notice::SteerPromoted { pane, id: queue_id },
                        false,
                    ),
                )
            },
            WorkerEvent::SteerFailed { pane, queue_id, error } => {
                if !self.has_pane(pane) {
                    return Ok(nothing());
                }
                bare(
                    self.note_then(
                        pane,
                        LocalEvent::WorkerSteerFailed { error },
                        Notice::SteerFailed { pane, id: queue_id },
                        true,
                    ),
                )
            },
            WorkerEvent::TurnsCancelled { pane, count, failure } => {
                if !self.has_pane(pane) {
                    return Ok(nothing());
                }
                bare(
                    self.note_then(
                        pane,
                        LocalEvent::WorkerTurnsInterrupted { count, failure },
                        Notice::TurnsCancelled(pane),
                        false,
                    ),
                )
            },
            WorkerEvent::ForkFailed { pane, error } => Ok(
                one(Action::Tell { notice: Notice::ForkFailed { pane, error }, apply: true }),
            ),
            WorkerEvent::ThinkingUpdated { pane, effort } => bare(
                self.update_effort(pane, effort),
            ),
        }
    }
}

/// The answer of a step before which nothing was to be done.
fn bare(answer: Result<Vec<Action<String, Submission>>, RuntimeError>) -> (actions: Result<
    Vec<Action<String, Submission>>,
    Refusal,
>)
    ensures
        match (answer, actions) {
            (Ok(given), Ok(actions)) => actions == given,
            (Err(error), Err(refusal)) => refusal.error == error && acts(refusal.actions@)
                == Seq::<Action<Seq<char>, PromptModel>>::empty(),
            _ => false,
        },
{
    match answer {
        Ok(actions) => Ok(actions),
        Err(error) => Err(Refusal { actions: nothing(), error }),
    }
}

pub(crate) fn nothing() -> (actions: Vec<Action<String, Submission>>)
    ensures
        acts(actions@) == Seq::<Action<Seq<char>, PromptModel>>::empty(),
{
    let actions: Vec<Action<String, Submission>> = Vec::new();
    assert(acts(actions@) =~= Seq::<Action<Seq<char>, PromptModel>>::empty());
    actions
}

/// The state of every turn that ends with one is saved, whether its end can be written down or not,
/// and before that is tried.
pub proof fn law_turns_are_checkpointed(run: Loop, pane: PaneId, id: u64, failure: Option<String>)
    requires
        run.has(pane),
    ensures
        ({
            let event = WorkerEvent::TurnFinished { pane, id, failure, checkpoint: true };
            let save: Action<Seq<char>, PromptModel> = Action::SaveCheckpoint {
                pane,
                session: run.pane(pane).session_id,
            };
            &&& run.on_worker(event).actions[0] == save
            &&& run.on_refusal(event).actions == seq![save]
            &&& run.on_refusal(event).run == run
        }),
{
}

} // verus!
