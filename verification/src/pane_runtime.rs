//! What the program keeps of a pane's session: its journal, its turns and its shell commands.

use crate::composer::option_view;
use crate::order::{join_texts, texts};
use crate::prompt::{appended, plain, PromptModel, Submission};
use crate::settings::{PaneId, ReasoningEffort};
use crate::text::{joined_with, same};
use vstd::prelude::*;

verus! {

/// How a session ended.
#[derive(Clone, Copy, Debug, PartialEq, Eq, Structural)]
pub enum SessionOutcome {
    Closed,
    Cancelled,
    Failed,
}

/// What this program writes into a journal. `T` is the type of texts.
#[derive(Debug)]
pub enum LocalEvent<T> {
    SessionStarted {
        session_id: T,
        parent_session_id: Option<T>,
        model: T,
        effort: ReasoningEffort,
        workspace: T,
        application_version: T,
    },
    SessionEnded { outcome: SessionOutcome, failure: Option<T> },
    UserSubmitted { id: u64, text: T },
    UserSteered { text: T },
    ShellStarted { id: u64, command: T, workspace: T },
    ShellFinished(ShellExecution<T>),
    WorkerStopped { reason: Option<T> },
    WorkerTurnAccepted { id: u64 },
    WorkerTurnFinished { id: u64, failure: Option<T> },
    WorkerSteerFailed { error: T },
    WorkerTurnsInterrupted { count: usize, failure: Option<T> },
    EffortChanged { from: ReasoningEffort, to: ReasoningEffort },
}

/// A shell command that ended, and what the model is told of it.
#[derive(Debug)]
pub struct ShellExecution<T> {
    pub id: u64,
    pub output: T,
    pub exit_code: Option<i32>,
    pub duration_ns: u64,
    pub truncated: bool,
    pub error: Option<T>,
}

impl View for ShellExecution<String> {
    type V = ShellExecution<Seq<char>>;

    open spec fn view(&self) -> ShellExecution<Seq<char>> {
        ShellExecution {
            id: self.id,
            output: self.output@,
            exit_code: self.exit_code,
            duration_ns: self.duration_ns,
            truncated: self.truncated,
            error: option_view(self.error),
        }
    }
}

impl View for LocalEvent<String> {
    type V = LocalEvent<Seq<char>>;

    open spec fn view(&self) -> LocalEvent<Seq<char>> {
        match self {
            LocalEvent::SessionStarted {
                session_id,
                parent_session_id,
                model,
                effort,
                workspace,
                application_version,
            } => LocalEvent::SessionStarted {
                session_id: session_id@,
                parent_session_id: option_view(*parent_session_id),
                model: model@,
                effort: *effort,
                workspace: workspace@,
                application_version: application_version@,
            },
            LocalEvent::SessionEnded { outcome, failure } => LocalEvent::SessionEnded {
                outcome: *outcome,
                failure: option_view(*failure),
            },
            LocalEvent::UserSubmitted { id, text } => LocalEvent::UserSubmitted {
                id: *id,
                text: text@,
            },
            LocalEvent::UserSteered { text } => LocalEvent::UserSteered { text: text@ },
            LocalEvent::ShellStarted { id, command, workspace } => LocalEvent::ShellStarted {
                id: *id,
                command: command@,
                workspace: workspace@,
            },
            LocalEvent::ShellFinished(execution) => LocalEvent::ShellFinished(execution@),
            LocalEvent::WorkerStopped { reason } => LocalEvent::WorkerStopped {
                reason: option_view(*reason),
            },
            LocalEvent::WorkerTurnAccepted { id } => LocalEvent::WorkerTurnAccepted { id: *id },
            LocalEvent::WorkerTurnFinished { id, failure } => LocalEvent::WorkerTurnFinished {
                id: *id,
                failure: option_view(*failure),
            },
            LocalEvent::WorkerSteerFailed { error } => LocalEvent::WorkerSteerFailed {
                error: error@,
            },
            LocalEvent::WorkerTurnsInterrupted { count, failure } =>
                LocalEvent::WorkerTurnsInterrupted {
                count: *count,
                failure: option_view(*failure),
            },
            LocalEvent::EffortChanged { from, to } => LocalEvent::EffortChanged {
                from: *from,
                to: *to,
            },
        }
    }
}

/// A record of this program, with its place in the journal.
#[derive(Debug)]
pub struct LocalRecord<T> {
    pub sequence: u64,
    pub event: LocalEvent<T>,
}

impl View for LocalRecord<String> {
    type V = LocalRecord<Seq<char>>;

    open spec fn view(&self) -> LocalRecord<Seq<char>> {
        LocalRecord { sequence: self.sequence, event: self.event@ }
    }
}

/// A record with its place in the journal.
pub fn local_record(sequence: u64, event: LocalEvent<String>) -> (record: LocalRecord<String>)
    ensures
        record@ == (LocalRecord { sequence, event: event@ }),
{
    LocalRecord { sequence, event }
}

/// What the agent's worker is told. `P` is the type of prompts.
#[derive(Debug)]
pub enum WorkerCommand<P> {
    Submit { pane: PaneId, id: u64, prompt: P },
    Steer { pane: PaneId, queue_id: u64, fallback_id: u64, prompt: P },
    CancelAll(PaneId),
    OpenFork(PaneId),
    ClosePane(PaneId),
    SetThinking { pane: PaneId, effort: ReasoningEffort },
    ReplaceAgent(PaneId),
}

impl View for WorkerCommand<Submission> {
    type V = WorkerCommand<PromptModel>;

    open spec fn view(&self) -> WorkerCommand<PromptModel> {
        match self {
            WorkerCommand::Submit { pane, id, prompt } => WorkerCommand::Submit {
                pane: *pane,
                id: *id,
                prompt: prompt@,
            },
            WorkerCommand::Steer { pane, queue_id, fallback_id, prompt } => WorkerCommand::Steer {
                pane: *pane,
                queue_id: *queue_id,
                fallback_id: *fallback_id,
                prompt: prompt@,
            },
            WorkerCommand::CancelAll(pane) => WorkerCommand::CancelAll(*pane),
            WorkerCommand::OpenFork(pane) => WorkerCommand::OpenFork(*pane),
            WorkerCommand::ClosePane(pane) => WorkerCommand::ClosePane(*pane),
            WorkerCommand::SetThinking { pane, effort } => WorkerCommand::SetThinking {
                pane: *pane,
                effort: *effort,
            },
            WorkerCommand::ReplaceAgent(pane) => WorkerCommand::ReplaceAgent(*pane),
        }
    }
}

/// Why the program ends.
#[derive(Debug)]
pub enum RuntimeError {
    /// The input or the output is no terminal.
    InteractiveTerminal,
    /// The journal of that file is closed.
    WriterStopped(String),
}

impl RuntimeError {
    /// What the user is told.
    pub fn message(&self) -> (text: String)
        ensures
            match self {
                RuntimeError::InteractiveTerminal => text@
                    == "interactive mode requires terminal stdin and stdout; use `tact run <PROMPT>` for JSONL output"@,
                RuntimeError::WriterStopped(path) => text@
                    == "the transcript writer for "@ + path@ + " stopped"@,
            },
    {
        match self {
            RuntimeError::InteractiveTerminal =>
                "interactive mode requires terminal stdin and stdout; use `tact run <PROMPT>` for JSONL output".to_owned(),
            RuntimeError::WriterStopped(path) => {
                let mut text = crate::text::concat("the transcript writer for ", path.as_str());
                text.push_str(" stopped");
                text
            },
        }
    }
}

/// The program needs a terminal on both sides.
pub fn validate_interactive(stdin: bool, stdout: bool) -> (checked: Result<(), RuntimeError>)
    ensures
        match checked {
            Ok(()) => stdin && stdout,
            Err(error) => !(stdin && stdout) && error == RuntimeError::InteractiveTerminal,
        },
{
    if stdin && stdout {
        return Ok(());
    }
    Err(RuntimeError::InteractiveTerminal)
}

/// A prompt that waits for shell commands.
#[derive(Debug)]
pub struct PendingSubmission {
    pub id: u64,
    pub prompt: Submission,
}

/// A prompt that waits, as mathematical values.
pub struct Pending {
    pub id: u64,
    pub prompt: PromptModel,
}

/// An open journal: the number of its next record.
#[derive(Clone, Copy, Debug, PartialEq, Eq, Structural)]
pub struct Journal {
    pub next_sequence: u64,
}

impl Journal {
    pub open spec fn after(self) -> Journal {
        Journal {
            next_sequence: if self.next_sequence == u64::MAX {
                u64::MAX
            } else {
                (self.next_sequence + 1) as u64
            },
        }
    }

    /// The number of the next record.
    pub fn number(&mut self) -> (number: u64)
        ensures
            number == old(self).next_sequence,
            *final(self) == old(self).after(),
    {
        let number: u64 = self.next_sequence;
        self.next_sequence = self.next_sequence.saturating_add(1);
        number
    }

    /// Gives a record its place.
    pub fn append_local(&mut self, event: LocalEvent<String>) -> (record: LocalRecord<String>)
        ensures
            record@ == (LocalRecord { sequence: old(self).next_sequence, event: event@ }),
            *final(self) == old(self).after(),
    {
        let sequence: u64 = self.number();
        local_record(sequence, event)
    }
}

/// A pane's session as the program runs it.
#[derive(Debug)]
pub struct PaneRuntime {
    pub pane: PaneId,
    pub session_id: String,
    pub journal: Option<Journal>,
    pub writer_path: String,
    pub event_streams_open: usize,
    pub next_turn: u64,
    pub next_shell: u64,
    pub pending_shell_context: Vec<String>,
    pub pending_submission: Option<PendingSubmission>,
    pub current_effort: ReasoningEffort,
    pub active_shells: usize,
    pub generation: u64,
}

/// A pane's session as mathematical values.
pub struct PaneState {
    pub pane: PaneId,
    pub session_id: Seq<char>,
    pub journal: Option<Journal>,
    pub writer_path: Seq<char>,
    pub streams: int,
    pub next_turn: u64,
    pub next_shell: u64,
    pub contexts: Seq<Seq<char>>,
    pub pending: Option<Pending>,
    pub effort: ReasoningEffort,
    pub shells: int,
    pub generation: u64,
}

pub open spec fn pending_view(pending: Option<PendingSubmission>) -> Option<Pending> {
    match pending {
        Some(waiting) => Some(Pending { id: waiting.id, prompt: waiting.prompt@ }),
        None => None,
    }
}

impl View for PaneRuntime {
    type V = PaneState;

    open spec fn view(&self) -> PaneState {
        PaneState {
            pane: self.pane,
            session_id: self.session_id@,
            journal: self.journal,
            writer_path: self.writer_path@,
            streams: self.event_streams_open as int,
            next_turn: self.next_turn,
            next_shell: self.next_shell,
            contexts: texts(self.pending_shell_context@),
            pending: pending_view(self.pending_submission),
            effort: self.current_effort,
            shells: self.active_shells as int,
            generation: self.generation,
        }
    }
}

pub open spec fn following(n: u64) -> u64 {
    if n == u64::MAX {
        n
    } else {
        (n + 1) as u64
    }
}

/// A prompt behind what shell commands printed.
pub open spec fn informed(contexts: Seq<Seq<char>>, prompt: PromptModel) -> PromptModel {
    if contexts.len() == 0 {
        prompt
    } else {
        appended(plain(joined_with(contexts, "\n\n"@)), prompt)
    }
}

/// Puts what shell commands printed before a prompt, and forgets it.
pub fn inject_shell_context(contexts: &mut Vec<String>, prompt: Submission) -> (informed_prompt:
    Submission)
    ensures
        informed_prompt@ == informed(texts(old(contexts)@), prompt@),
        final(contexts)@.len() == 0,
{
    if contexts.len() == 0 {
        return prompt;
    }
    let context: String = join_texts(contexts, "\n\n");
    contexts.clear();
    prompt.prepend_text(context)
}

/// The command that submits a prompt, with what shell commands printed before it.
pub fn send_submission(
    pane: PaneId,
    shell_context: &mut Vec<String>,
    submission: PendingSubmission,
) -> (command: WorkerCommand<Submission>)
    ensures
        command@ == (WorkerCommand::Submit {
            pane,
            id: submission.id,
            prompt: informed(texts(old(shell_context)@), submission.prompt@),
        }),
        final(shell_context)@.len() == 0,
{
    let id: u64 = submission.id;
    let prompt = inject_shell_context(shell_context, submission.prompt);
    WorkerCommand::Submit { pane, id, prompt }
}

impl PaneState {
    /// The state with a record more in its journal.
    pub open spec fn wrote(self) -> PaneState {
        PaneState { journal: Some(self.journal->0.after()), ..self }
    }

    /// The record that an event becomes.
    pub open spec fn record(self, event: LocalEvent<Seq<char>>) -> LocalRecord<Seq<char>> {
        LocalRecord { sequence: self.journal->0.next_sequence, event }
    }

    /// The session is the one that an event belongs to.
    pub open spec fn is(self, session_id: Seq<char>, generation: u64) -> bool {
        self.session_id == session_id && self.generation == generation
    }

    /// A prompt is submitted: it is sent, or waits until no shell command runs.
    pub open spec fn submitted(self, prompt: PromptModel) -> (
        PaneState,
        LocalRecord<Seq<char>>,
        Option<WorkerCommand<PromptModel>>,
    ) {
        let id = self.next_turn;
        let record = self.record(LocalEvent::UserSubmitted { id, text: prompt.text });
        let next = PaneState { next_turn: following(id), ..self.wrote() };
        if self.shells == 0 {
            (
                PaneState { contexts: Seq::empty(), ..next },
                record,
                Some(
                    WorkerCommand::Submit {
                        pane: self.pane,
                        id,
                        prompt: informed(self.contexts, prompt),
                    },
                ),
            )
        } else {
            (PaneState { pending: Some(Pending { id, prompt }), ..next }, record, None)
        }
    }

    /// A shell command starts.
    pub open spec fn shell_started(self, command: Seq<char>, workspace: Seq<char>) -> (
        PaneState,
        LocalRecord<Seq<char>>,
    ) {
        let id = self.next_shell;
        (
            PaneState {
                next_shell: following(id),
                shells: crate::root::one_more(self.shells),
                ..self.wrote()
            },
            self.record(LocalEvent::ShellStarted { id, command, workspace }),
        )
    }

    /// A shell command ended. With the last one, a prompt that waits is sent.
    pub open spec fn shell_finished(
        self,
        execution: ShellExecution<Seq<char>>,
        context: Seq<char>,
    ) -> (PaneState, LocalRecord<Seq<char>>, Option<WorkerCommand<PromptModel>>) {
        let shells = crate::root::one_less(self.shells);
        let contexts = self.contexts.push(context);
        let record = self.record(LocalEvent::ShellFinished(execution));
        let next = PaneState { shells, contexts, ..self.wrote() };
        match self.pending {
            Some(pending) => if shells == 0 {
                (
                    PaneState { pending: None, contexts: Seq::empty(), ..next },
                    record,
                    Some(
                        WorkerCommand::Submit {
                            pane: self.pane,
                            id: pending.id,
                            prompt: informed(contexts, pending.prompt),
                        },
                    ),
                )
            } else {
                (next, record, None)
            },
            None => (next, record, None),
        }
    }

    /// A prompt could not be written down: its number is used up.
    pub open spec fn submit_refused(self) -> PaneState {
        PaneState { next_turn: following(self.next_turn), ..self }
    }

    /// The start of a shell command could not be written down: its number is used up, and it counts.
    pub open spec fn shell_refused(self) -> PaneState {
        PaneState {
            next_shell: following(self.next_shell),
            shells: crate::root::one_more(self.shells),
            ..self
        }
    }

    /// The end of a shell command could not be written down: it counts no more, and what it printed is
    /// kept.
    pub open spec fn finish_refused(self, context: Seq<char>) -> PaneState {
        PaneState {
            shells: crate::root::one_less(self.shells),
            contexts: self.contexts.push(context),
            ..self
        }
    }

    /// A stream of the agent's events closed; whether it was the last one.
    pub open spec fn stream_closed(self, session_id: Seq<char>, generation: u64) -> (
        PaneState,
        bool,
    ) {
        if self.is(session_id, generation) {
            let streams = crate::root::one_less(self.streams);
            (PaneState { streams, ..self }, streams == 0)
        } else {
            (self, false)
        }
    }

    /// The journal was closed.
    pub open spec fn writer_stopped(self, session_id: Seq<char>, generation: u64) -> PaneState {
        if self.is(session_id, generation) {
            PaneState { journal: None, ..self }
        } else {
            self
        }
    }
}

impl PaneRuntime {
    /// The pane of a new session, and the first record of its journal.
    pub fn open(
        pane: PaneId,
        generation: u64,
        session_id: String,
        parent_session_id: Option<String>,
        model: String,
        effort: ReasoningEffort,
        workspace: String,
        application_version: String,
        writer_path: String,
    ) -> (opened: (PaneRuntime, LocalRecord<String>))
        ensures
            opened.0@ == (PaneState {
                pane,
                session_id: session_id@,
                journal: Some(Journal { next_sequence: 2 }),
                writer_path: writer_path@,
                streams: 1,
                next_turn: 1,
                next_shell: 1,
                contexts: Seq::empty(),
                pending: None,
                effort,
                shells: 0,
                generation,
            }),
            opened.1@ == (LocalRecord {
                sequence: 1,
                event: LocalEvent::SessionStarted {
                    session_id: session_id@,
                    parent_session_id: option_view(parent_session_id),
                    model: model@,
                    effort,
                    workspace: workspace@,
                    application_version: application_version@,
                },
            }),
    {
        let mut journal = Journal { next_sequence: 1 };
        let record = journal.append_local(
            LocalEvent::SessionStarted {
                session_id: session_id.clone(),
                parent_session_id,
                model,
                effort,
                workspace,
                application_version,
            },
        );
        let runtime = PaneRuntime {
            pane,
            session_id,
            journal: Some(journal),
            writer_path,
            event_streams_open: 1,
            next_turn: 1,
            next_shell: 1,
            pending_shell_context: Vec::new(),
            pending_submission: None,
            current_effort: effort,
            active_shells: 0,
            generation,
        };
        assert(runtime@.contexts =~= Seq::<Seq<char>>::empty());
        (runtime, record)
    }

    /// Whether an event belongs to the session.
    pub fn is_current(&self, session_id: &str, generation: u64) -> (yes: bool)
        ensures
            yes == self@.is(session_id@, generation),
    {
        same(self.session_id.as_str(), session_id) && self.generation == generation
    }

    /// The journal, which has to be open.
    pub fn journal_mut(&mut self) -> (journal: Result<&mut Journal, RuntimeError>)
        ensures
            match journal {
                Ok(journal) => old(self).journal == Some(*journal) && *final(self) == (PaneRuntime {
                    journal: Some(*final(journal)),
                    ..*old(self)
                }),
                Err(error) => old(self).journal is None && *final(self) == *old(self) && (
                error matches RuntimeError::WriterStopped(path) && path@ == old(self)@.writer_path),
            },
    {
        match &mut self.journal {
            Some(journal) => Ok(journal),
            None => Err(RuntimeError::WriterStopped(self.writer_path.clone())),
        }
    }
}

/// A command as a specification names it.
pub open spec fn command_view(command: Option<WorkerCommand<Submission>>) -> Option<
    WorkerCommand<PromptModel>,
> {
    match command {
        Some(command) => Some(command@),
        None => None,
    }
}

impl PaneRuntime {
    /// The journal is closed, and the session is left in some state.
    pub open spec fn refused(self, after: PaneRuntime, left: PaneState, error: RuntimeError) -> bool {
        &&& self@.journal is None
        &&& after@ == left
        &&& error matches RuntimeError::WriterStopped(path) && path@ == self@.writer_path
    }

    /// An event was written into the journal, if it is open.
    pub open spec fn noted(
        self,
        after: PaneRuntime,
        record: Result<LocalRecord<String>, RuntimeError>,
        event: LocalEvent<Seq<char>>,
    ) -> bool {
        match record {
            Ok(record) => self@.journal is Some && record@ == self@.record(event) && after@
                == self@.wrote(),
            Err(error) => self.refused(after, self@, error),
        }
    }

    /// Writes an event into the journal.
    pub fn write(&mut self, event: LocalEvent<String>) -> (record: Result<
        LocalRecord<String>,
        RuntimeError,
    >)
        ensures
            old(self).noted(*final(self), record, event@),
    {
        match self.journal_mut() {
            Ok(journal) => Ok(journal.append_local(event)),
            Err(error) => Err(error),
        }
    }

    /// The number of a record that the agent's event becomes.
    pub fn number_record(&mut self) -> (number: Result<u64, RuntimeError>)
        ensures
            match number {
                Ok(number) => old(self)@.journal == Some(Journal { next_sequence: number })
                    && final(self)@ == old(self)@.wrote(),
                Err(error) => old(self).refused(*final(self), old(self)@, error),
            },
    {
        match self.journal_mut() {
            Ok(journal) => Ok(journal.number()),
            Err(error) => Err(error),
        }
    }

    /// Submits a prompt: the record, and the command unless the prompt has to wait.
    pub fn submit(&mut self, prompt: Submission) -> (answer: Result<
        (LocalRecord<String>, Option<WorkerCommand<Submission>>),
        RuntimeError,
    >)
        ensures
            match answer {
                Ok((record, command)) => old(self)@.journal is Some && (
                    final(self)@,
                    record@,
                    command_view(command),
                ) == old(self)@.submitted(prompt@),
                Err(error) => old(self).refused(*final(self), old(self)@.submit_refused(), error),
            },
    {
        let id: u64 = self.next_turn;
        self.next_turn = self.next_turn.saturating_add(1);
        let text: String = prompt.display_text().to_owned();
        let record = match self.write(LocalEvent::UserSubmitted { id, text }) {
            Ok(record) => record,
            Err(error) => return Err(error),
        };
        let submission = PendingSubmission { id, prompt };
        if self.active_shells == 0 {
            let command = send_submission(
                self.pane,
                &mut self.pending_shell_context,
                submission,
            );
            assert(self@.contexts =~= Seq::<Seq<char>>::empty());
            return Ok((record, Some(command)));
        }
        self.pending_submission = Some(submission);
        Ok((record, None))
    }

    /// Starts a shell command: its record, and its number.
    pub fn start_shell(&mut self, command: String, workspace: String) -> (answer: Result<
        (LocalRecord<String>, u64),
        RuntimeError,
    >)
        ensures
            match answer {
                Ok((record, id)) => old(self)@.journal is Some && (final(self)@, record@) == old(
                    self,
                )@.shell_started(command@, workspace@) && id == old(self)@.next_shell,
                Err(error) => old(self).refused(*final(self), old(self)@.shell_refused(), error),
            },
    {
        let id: u64 = self.next_shell;
        self.next_shell = self.next_shell.saturating_add(1);
        self.active_shells = self.active_shells.saturating_add(1);
        let record = match self.write(LocalEvent::ShellStarted { id, command, workspace }) {
            Ok(record) => record,
            Err(error) => return Err(error),
        };
        Ok((record, id))
    }

    /// Takes in that a shell command ended; `context` is what the model is told of it.
    pub fn finish_shell(&mut self, execution: ShellExecution<String>, context: String) -> (answer:
        Result<(LocalRecord<String>, Option<WorkerCommand<Submission>>), RuntimeError>)
        ensures
            match answer {
                Ok((record, command)) => old(self)@.journal is Some && (
                    final(self)@,
                    record@,
                    command_view(command),
                ) == old(self)@.shell_finished(execution@, context@),
                Err(error) => old(self).refused(
                    *final(self),
                    old(self)@.finish_refused(context@),
                    error,
                ),
            },
    {
        let ghost before = self@;
        self.active_shells = self.active_shells.saturating_sub(1);
        self.pending_shell_context.push(context);
        assert(self@.contexts =~= before.contexts.push(context@));
        let record = match self.write(LocalEvent::ShellFinished(execution)) {
            Ok(record) => record,
            Err(error) => return Err(error),
        };
        if self.active_shells > 0 {
            return Ok((record, None));
        }
        match self.pending_submission.take() {
            Some(submission) => {
                let command = send_submission(
                    self.pane,
                    &mut self.pending_shell_context,
                    submission,
                );
                assert(self@.contexts =~= Seq::<Seq<char>>::empty());
                Ok((record, Some(command)))
            },
            None => Ok((record, None)),
        }
    }

    /// The command that sends a prompt into the turn. It has a turn's number, should it become one.
    pub fn steer(&mut self, queue_id: u64, prompt: Submission) -> (command: WorkerCommand<
        Submission,
    >)
        ensures
            final(self)@ == (PaneState {
                next_turn: following(old(self)@.next_turn),
                ..old(self)@
            }),
            command@ == (WorkerCommand::Steer {
                pane: old(self)@.pane,
                queue_id,
                fallback_id: old(self)@.next_turn,
                prompt: prompt@,
            }),
    {
        let fallback_id: u64 = self.next_turn;
        self.next_turn = self.next_turn.saturating_add(1);
        WorkerCommand::Steer { pane: self.pane, queue_id, fallback_id, prompt }
    }

    /// The worker stopped.
    pub fn worker_stopped(&mut self, reason: Option<String>) -> (record: Result<LocalRecord<String>, RuntimeError>)
        ensures
            old(self).noted(*final(self), record, LocalEvent::WorkerStopped { reason: option_view(reason) }),
    {
        self.write(LocalEvent::WorkerStopped { reason })
    }

    /// The effort changed.
    pub fn change_effort(&mut self, effort: ReasoningEffort) -> (record: Result<
        LocalRecord<String>,
        RuntimeError,
    >)
        ensures
            match record {
                Ok(record) => old(self)@.journal is Some && record@ == old(self)@.record(
                    LocalEvent::EffortChanged { from: old(self)@.effort, to: effort },
                ) && final(self)@ == (PaneState { effort, ..old(self)@.wrote() }),
                Err(error) => old(self).refused(*final(self), old(self)@, error),
            },
    {
        let from = self.current_effort;
        let record = match self.write(LocalEvent::EffortChanged { from, to: effort }) {
            Ok(record) => record,
            Err(error) => return Err(error),
        };
        self.current_effort = effort;
        Ok(record)
    }

    /// A stream of the agent's events closed; whether it was the last one of the session.
    pub fn close_stream(&mut self, session_id: &str, generation: u64) -> (closed: bool)
        ensures
            (final(self)@, closed) == old(self)@.stream_closed(session_id@, generation),
    {
        if !self.is_current(session_id, generation) {
            return false;
        }
        self.event_streams_open = self.event_streams_open.saturating_sub(1);
        self.event_streams_open == 0
    }

    /// Every stream of the agent's events closed; whether one was open.
    pub fn close_streams(&mut self) -> (closed: bool)
        ensures
            closed == (old(self)@.streams > 0),
            final(self)@ == (PaneState { streams: 0, ..old(self)@ }),
    {
        let closed: bool = self.event_streams_open > 0;
        self.event_streams_open = 0;
        closed
    }

    /// The journal's writer ended.
    pub fn stop_writer(&mut self, session_id: &str, generation: u64)
        ensures
            final(self)@ == old(self)@.writer_stopped(session_id@, generation),
    {
        if self.is_current(session_id, generation) {
            self.journal = None;
        }
    }
}

/// Closes a pane's journal: its last record, unless it is closed already.
pub fn close_pane_journal(
    runtime: &mut PaneRuntime,
    outcome: SessionOutcome,
    failure: Option<String>,
) -> (record: Option<LocalRecord<String>>)
    ensures
        final(runtime)@ == (PaneState { journal: None, ..old(runtime)@ }),
        match record {
            Some(record) => old(runtime)@.journal is Some && record@ == old(runtime)@.record(
                LocalEvent::SessionEnded { outcome, failure: option_view(failure) },
            ),
            None => old(runtime)@.journal is None,
        },
{
    match runtime.journal.take() {
        Some(journal) => {
            let mut journal = journal;
            Some(journal.append_local(LocalEvent::SessionEnded { outcome, failure }))
        },
        None => None,
    }
}

/// While a shell command runs, a prompt waits; the last command that ends sends it, behind all that
/// the commands printed.
pub proof fn law_prompts_wait_for_shells(
    state: PaneState,
    prompt: PromptModel,
    execution: ShellExecution<Seq<char>>,
    context: Seq<char>,
)
    requires
        state.shells == 1,
    ensures
        state.submitted(prompt).2 is None,
        state.submitted(prompt).0.shell_finished(execution, context).2 == Some(
            WorkerCommand::Submit {
                pane: state.pane,
                id: state.next_turn,
                prompt: informed(state.contexts.push(context), prompt),
            },
        ),
        state.submitted(prompt).0.shell_finished(execution, context).0.contexts.len() == 0,
{
}

/// No two turns of a pane have the same number, as long as the numbers last.
pub proof fn law_turns_have_their_own_numbers(state: PaneState, prompt: PromptModel)
    requires
        state.next_turn < u64::MAX,
    ensures
        state.submitted(prompt).0.next_turn > state.next_turn,
        state.submitted(prompt).1.event == (LocalEvent::UserSubmitted {
            id: state.next_turn,
            text: prompt.text,
        }),
{
}

/// Events of a session that was replaced change nothing.
pub proof fn law_stale_events_change_nothing(
    state: PaneState,
    session_id: Seq<char>,
    generation: u64,
)
    requires
        session_id != state.session_id || generation != state.generation,
    ensures
        state.stream_closed(session_id, generation) == (state, false),
        state.writer_stopped(session_id, generation) == state,
{
}

} // verus!
