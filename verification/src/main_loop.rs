//! When the main loop goes on with what, and when it ends.

use crate::composer::option_view;
use crate::pane_runtime::{
    close_pane_journal, LocalEvent, LocalRecord, Journal, PaneRuntime, PaneState, RuntimeError,
    SessionOutcome, ShellExecution, WorkerCommand,
};
use crate::prompt::{PromptModel, Submission};
use crate::root::{one_less, one_more};
use crate::runtime::{
    acts, are_distinct, lemma_distinct, nothing, one, pane_index, sent, two, Action, Loop, Notice,
    RunStep, Runtime,
};
use crate::settings::{PaneId, ReasoningEffort};
use crate::text::concat;
use vstd::prelude::*;

verus! {

/// Which events the loop waits for.
#[derive(Clone, Copy, Debug, PartialEq, Eq, Structural)]
pub struct Branches {
    pub shutdown: bool,
    pub input: bool,
    pub system_theme: bool,
    pub agent_events: bool,
    pub subagent_events: bool,
    pub worker: bool,
    pub shells: bool,
    pub editor: bool,
    pub effort: bool,
    pub new_session: bool,
    pub session_list: bool,
    pub resume_session: bool,
    pub writers: bool,
    pub animation: bool,
    pub frame: bool,
}

impl Loop {
    /// A stream of the agent's events is open.
    pub open spec fn streams(self) -> bool {
        exists|i: int| 0 <= i < self.panes.len() && (#[trigger] self.panes[i]).streams > 0
    }

    /// Which events the loop waits for; `animation` and `frame` say that there is a time for them.
    pub open spec fn branches(self, animation: bool, frame: bool) -> Branches {
        let runs = !self.stopping;
        Branches {
            shutdown: runs,
            input: self.input && runs,
            system_theme: runs,
            agent_events: self.streams(),
            subagent_events: runs,
            worker: !self.worker_stopped,
            shells: self.shell_tasks > 0,
            editor: self.editor && runs,
            effort: self.effort_task && runs,
            new_session: self.new_session_task && runs,
            session_list: self.session_list_task && runs,
            resume_session: self.resume_session_task && runs,
            writers: self.writers > 0,
            animation: animation && !self.editor && runs,
            frame: frame && !self.editor && runs,
        }
    }

    /// Nothing is left but to close the journals.
    pub open spec fn is_drained(self) -> bool {
        self.stopping && self.worker_stopped && !self.streams() && self.shell_tasks == 0
    }

    /// The program is asked to end.
    pub open spec fn stopped(self) -> Loop {
        Loop {
            stopping: true,
            input: false,
            editor: false,
            effort_task: false,
            new_session_task: false,
            ..self
        }
    }

    /// How the sessions end.
    pub open spec fn outcome(self) -> SessionOutcome {
        if self.worker_error is Some {
            SessionOutcome::Failed
        } else {
            SessionOutcome::Cancelled
        }
    }

    /// The panes after the first `n` journals were closed.
    pub open spec fn closed_panes(self, n: int) -> Seq<PaneState> {
        Seq::new(
            self.panes.len(),
            |i: int|
                if i < n {
                    PaneState { journal: None, ..self.panes[i] }
                } else {
                    self.panes[i]
                },
        )
    }

    /// The last records of the first `n` journals, where these are open.
    pub open spec fn last_records(self, n: int) -> Seq<Action<Seq<char>, PromptModel>>
        decreases n,
    {
        if n <= 0 {
            Seq::empty()
        } else {
            let rest = self.last_records(n - 1);
            let state = self.panes[n - 1];
            if state.journal is Some {
                rest.push(
                    Action::Close {
                        pane: state.pane,
                        record: state.record(
                            LocalEvent::SessionEnded {
                                outcome: self.outcome(),
                                failure: self.worker_error,
                            },
                        ),
                    },
                )
            } else {
                rest
            }
        }
    }

    /// Every journal is closed.
    pub open spec fn closed(self) -> RunStep {
        let count = self.panes.len() as int;
        Loop { panes: self.closed_panes(count), ..self }.step(self.last_records(count))
    }

    /// The panes after the first `n` lost their streams.
    pub open spec fn silent_panes(self, n: int) -> Seq<PaneState> {
        Seq::new(
            self.panes.len(),
            |i: int|
                if i < n {
                    PaneState { streams: 0, ..self.panes[i] }
                } else {
                    self.panes[i]
                },
        )
    }

    /// What the sessions of the first `n` panes are told of their streams.
    pub open spec fn silences(self, n: int) -> Seq<Action<Seq<char>, PromptModel>>
        decreases n,
    {
        if n <= 0 {
            Seq::empty()
        } else {
            let rest = self.silences(n - 1);
            if self.panes[n - 1].streams > 0 {
                rest.push(
                    Action::Tell {
                        notice: Notice::StreamClosed(self.panes[n - 1].pane),
                        apply: false,
                    },
                )
            } else {
                rest
            }
        }
    }

    /// A stream of a pane's agent closed.
    pub open spec fn on_stream_closed(
        self,
        pane: PaneId,
        session_id: Seq<char>,
        generation: u64,
    ) -> RunStep {
        if self.has(pane) {
            let (state, last) = self.pane(pane).stream_closed(session_id, generation);
            self.with(pane, state).step(
                if last {
                    seq![Action::Tell { notice: Notice::StreamClosed(pane), apply: false }]
                } else {
                    Seq::empty()
                },
            )
        } else {
            self.step(Seq::empty())
        }
    }

    /// A shell command ended.
    pub open spec fn on_shell_finished(
        self,
        pane: PaneId,
        execution: ShellExecution<Seq<char>>,
        context: Seq<char>,
    ) -> RunStep {
        let waiting = Loop { shell_tasks: one_less(self.shell_tasks), ..self };
        if self.has(pane) {
            let (state, record, command) = self.pane(pane).shell_finished(execution, context);
            waiting.with(pane, state).step(
                seq![
                    Action::Record { pane, record, apply: true },
                    Action::Tell { notice: Notice::ShellFinished(pane), apply: false },
                ] + sent(command),
            )
        } else {
            waiting.step(Seq::empty())
        }
    }

    /// What the end of a shell command leaves that could not be written down.
    pub open spec fn left_by_shell(self, pane: PaneId, context: Seq<char>) -> Loop {
        Loop { shell_tasks: one_less(self.shell_tasks), ..self }.with(
            pane,
            self.pane(pane).finish_refused(context),
        )
    }

    /// The writer of a journal ended. If it failed, the program ends.
    pub open spec fn on_writer_finished(
        self,
        pane: PaneId,
        session_id: Seq<char>,
        generation: u64,
        failed: bool,
    ) -> RunStep {
        let next = Loop {
            writers: one_less(self.writers),
            writer_failed: self.writer_failed || failed,
            stopping: self.stopping || failed,
            input: self.input && !failed,
            ..self
        };
        let after = if self.has(pane) {
            next.with(pane, self.pane(pane).writer_stopped(session_id, generation))
        } else {
            next
        };
        after.step(
            if failed {
                seq![Action::Shutdown]
            } else {
                Seq::empty()
            },
        )
    }

    /// The panes with a pane more, or with another session in a pane.
    pub open spec fn inserted(self, state: PaneState) -> Loop {
        Loop {
            panes: if self.has(state.pane) {
                self.panes.update(self.at(state.pane), state)
            } else {
                self.panes.push(state)
            },
            writers: one_more(self.writers),
            ..self
        }
    }
}

/// What a new session is called and where it is written.
#[derive(Debug)]
pub struct NewSession<T> {
    pub session_id: T,
    pub model: T,
    pub effort: ReasoningEffort,
    pub application_version: T,
    pub writer_path: T,
}

impl View for NewSession<String> {
    type V = NewSession<Seq<char>>;

    open spec fn view(&self) -> NewSession<Seq<char>> {
        NewSession {
            session_id: self.session_id@,
            model: self.model@,
            effort: self.effort,
            application_version: self.application_version@,
            writer_path: self.writer_path@,
        }
    }
}

impl NewSession<Seq<char>> {
    /// The state of a pane that runs the session.
    pub open spec fn state(self, pane: PaneId, generation: u64) -> PaneState {
        PaneState {
            pane,
            session_id: self.session_id,
            journal: Some(Journal { next_sequence: 2 }),
            writer_path: self.writer_path,
            streams: 1,
            next_turn: 1,
            next_shell: 1,
            contexts: Seq::empty(),
            pending: None,
            effort: self.effort,
            shells: 0,
            generation,
        }
    }

    /// The first record of the session's journal.
    pub open spec fn record(self, parent: Option<Seq<char>>, workspace: Seq<char>) -> LocalRecord<
        Seq<char>,
    > {
        LocalRecord {
            sequence: 1,
            event: LocalEvent::SessionStarted {
                session_id: self.session_id,
                parent_session_id: parent,
                model: self.model,
                effort: self.effort,
                workspace,
                application_version: self.application_version,
            },
        }
    }
}

impl Loop {
    /// A pane's session is replaced: its journal is closed, and the new one's is opened.
    pub open spec fn replaced(
        self,
        pane: PaneId,
        session: NewSession<Seq<char>>,
        notice: Notice<Seq<char>>,
    ) -> RunStep {
        let old_state = self.pane(pane);
        let generation = crate::pane_runtime::following(old_state.generation);
        let closing: Seq<Action<Seq<char>, PromptModel>> = if old_state.journal is Some {
            seq![
                Action::Close {
                    pane,
                    record: old_state.record(
                        LocalEvent::SessionEnded {
                            outcome: SessionOutcome::Closed,
                            failure: None,
                        },
                    ),
                },
            ]
        } else {
            Seq::empty()
        };
        Loop { input: true, ..self.inserted(session.state(pane, generation)) }.step(
            closing + seq![
                Action::Open { pane, record: session.record(None, self.workspace) },
                Action::Send(WorkerCommand::ReplaceAgent(pane)),
                Action::Tell { notice, apply: false },
            ],
        )
    }

    /// A fork opens; its parent is the primary session.
    pub open spec fn fork_opened(self, pane: PaneId, session: NewSession<Seq<char>>) -> RunStep {
        let parent = if self.has(PaneId::Main) {
            Some(self.pane(PaneId::Main).session_id)
        } else {
            None
        };
        self.inserted(session.state(pane, 0)).step(
            seq![
                Action::Open { pane, record: session.record(parent, self.workspace) },
                Action::Tell { notice: Notice::ForkReady(pane), apply: true },
            ],
        )
    }
}

impl Runtime {
    /// The loop of a program with one session.
    pub fn new(workspace: String, main: PaneRuntime) -> (runtime: Self)
        ensures
            runtime@.distinct(),
            runtime@ == (Loop {
                panes: seq![main@],
                workspace: workspace@,
                stopping: false,
                worker_stopped: false,
                worker_error: None,
                writer_failed: false,
                writers: 1,
                input: true,
                editor: false,
                effort_task: false,
                new_session_task: false,
                session_list_task: false,
                resume_session_task: false,
                shell_tasks: 0,
            }),
    {
        let mut panes: Vec<PaneRuntime> = Vec::new();
        panes.push(main);
        let runtime = Runtime {
            panes,
            workspace,
            stopping: false,
            worker_stopped: false,
            worker_error: None,
            writer_failed: false,
            writers_open: 1,
            input: true,
            editor_open: false,
            effort_task: false,
            new_session_task: false,
            session_list_task: false,
            resume_session_task: false,
            shell_tasks: 0,
        };
        assert(runtime@.panes =~= seq![main@]);
        proof {
            reveal(are_distinct);
        }
        runtime
    }

    /// Whether a stream of the agent's events is open.
    pub fn has_streams(&self) -> (yes: bool)
        ensures
            yes == self@.streams(),
    {
        let mut i: usize = 0;
        while i < self.panes.len()
            invariant
                i <= self.panes@.len(),
                forall|k: int| 0 <= k < i ==> (#[trigger] self@.panes[k]).streams <= 0,
            decreases self.panes@.len() - i,
        {
            assert(self@.panes[i as int] == self.panes@[i as int]@);
            if self.panes[i].event_streams_open > 0 {
                return true;
            }
            i = i + 1;
        }
        false
    }

    /// Which events the loop waits for.
    pub fn branches(&self, animation: bool, frame: bool) -> (branches: Branches)
        ensures
            branches == self@.branches(animation, frame),
    {
        let runs: bool = !self.stopping;
        Branches {
            shutdown: runs,
            input: self.input && runs,
            system_theme: runs,
            agent_events: self.has_streams(),
            subagent_events: runs,
            worker: !self.worker_stopped,
            shells: self.shell_tasks > 0,
            editor: self.editor_open && runs,
            effort: self.effort_task && runs,
            new_session: self.new_session_task && runs,
            session_list: self.session_list_task && runs,
            resume_session: self.resume_session_task && runs,
            writers: self.writers_open > 0,
            animation: animation && !self.editor_open && runs,
            frame: frame && !self.editor_open && runs,
        }
    }

    /// Whether a frame that is due is drawn: not while an editor has the terminal, nor at the end.
    pub fn draws(&self, due: bool) -> (yes: bool)
        ensures
            yes == (!self@.editor && !self@.stopping && due),
    {
        !self.editor_open && !self.stopping && due
    }

    /// Whether nothing is left but to close the journals.
    pub fn is_drained(&self) -> (yes: bool)
        ensures
            yes == self@.is_drained(),
    {
        self.stopping && self.worker_stopped && !self.has_streams() && self.shell_tasks == 0
    }

    /// Whether the loop ends.
    pub fn is_finished(&self) -> (yes: bool)
        ensures
            yes == (self@.is_drained() && self@.writers == 0),
    {
        self.is_drained() && self.writers_open == 0
    }

    /// The program is asked to end.
    pub fn stop(&mut self)
        requires
            old(self)@.distinct(),
        ensures
            final(self)@.distinct(),
            final(self)@ == old(self)@.stopped(),
    {
        self.stopping = true;
        self.input = false;
        self.editor_open = false;
        self.effort_task = false;
        self.new_session_task = false;
    }

    /// The worker's events ended.
    pub fn worker_gone(&mut self)
        requires
            old(self)@.distinct(),
        ensures
            final(self)@.distinct(),
            final(self)@ == (Loop { worker_stopped: true, ..old(self)@ }),
    {
        self.worker_stopped = true;
    }

    /// Closes every journal.
    pub fn close_journals(&mut self) -> (actions: Vec<Action<String, Submission>>)
        requires
            old(self)@.distinct(),
        ensures
            final(self)@.distinct(),
            final(self).took(actions, old(self)@.closed()),
    {
        let ghost before = self@;
        let outcome = if self.worker_error.is_some() {
            SessionOutcome::Failed
        } else {
            SessionOutcome::Cancelled
        };
        let mut actions: Vec<Action<String, Submission>> = nothing();
        let mut i: usize = 0;
        let total: usize = self.panes.len();
        assert(self@.panes =~= before.closed_panes(0));
        while i < total
            invariant
                total == self.panes@.len(),
                before.panes.len() == total,
                i <= total,
                outcome == before.outcome(),
                self@ == (Loop { panes: before.closed_panes(i as int), ..before }),
                acts(actions@) == before.last_records(i as int),
            decreases total - i,
        {
            let ghost sofar = acts(actions@);
            let ghost states_before = self@.panes;
            assert(self@.panes[i as int] == self.panes@[i as int]@);
            assert(self@.panes[i as int] == before.panes[i as int]);
            let pane = self.panes[i].pane;
            let failure: Option<String> = match &self.worker_error {
                Some(text) => Some(text.clone()),
                None => None,
            };
            assert(option_view(failure) == before.worker_error);
            match close_pane_journal(&mut self.panes[i], outcome, failure) {
                Some(record) => {
                    let action = Action::Close { pane, record };
                    actions.push(action);
                    assert(acts(actions@) =~= sofar.push(action@));
                },
                None => {},
            }
            assert(self@.panes =~= states_before.update(
                i as int,
                PaneState { journal: None, ..before.panes[i as int] },
            ));
            i = i + 1;
            assert(self@.panes =~= before.closed_panes(i as int));
        }
        proof {
            lemma_distinct(before.panes, self@.panes);
        }
        actions
    }

    /// The number that the record of an agent's event gets. Only events of the session that its pane
    /// runs are written.
    pub fn number_agent_event(&mut self, pane: PaneId, session_id: &str, generation: u64) -> (number:
        Result<Option<u64>, RuntimeError>)
        requires
            old(self)@.distinct(),
        ensures
            final(self)@.distinct(),
            match number {
                Ok(Some(number)) => {
                    &&& old(self)@.knows(pane, session_id@, generation)
                    &&& old(self)@.pane(pane).journal == Some(Journal { next_sequence: number })
                    &&& final(self)@ == old(self)@.with(pane, old(self)@.pane(pane).wrote())
                },
                Ok(None) => !old(self)@.knows(pane, session_id@, generation) && final(self)@ == old(
                    self)@,
                Err(error) => old(self)@.knows(pane, session_id@, generation) && old(self).refused(
                    *final(self),
                    pane,
                    old(self)@,
                    error,
                ),
            },
    {
        if !self.is_current(pane, session_id, generation) {
            return Ok(None);
        }
        let i: usize = self.index_of(pane);
        let ghost before = self@;
        assert(before.panes[i as int] == self.panes@[i as int]@);
        match self.panes[i].number_record() {
            Ok(number) => {
                assert(self@.panes =~= before.panes.update(i as int, before.pane(pane).wrote()));
                proof {
                    lemma_distinct(before.panes, self@.panes);
                }
                Ok(Some(number))
            },
            Err(error) => {
                assert(self@.panes =~= before.panes);
                Err(error)
            },
        }
    }

    /// The agents' events ended.
    pub fn agent_events_ended(&mut self) -> (actions: Vec<Action<String, Submission>>)
        requires
            old(self)@.distinct(),
        ensures
            final(self)@.distinct(),
            final(self).took(
                actions,
                Loop {
                    panes: old(self)@.silent_panes(old(self)@.panes.len() as int),
                    ..old(self)@
                }.step(old(self)@.silences(old(self)@.panes.len() as int)),
            ),
    {
        let ghost before = self@;
        let mut actions: Vec<Action<String, Submission>> = nothing();
        let mut i: usize = 0;
        let total: usize = self.panes.len();
        assert(self@.panes =~= before.silent_panes(0));
        while i < total
            invariant
                total == self.panes@.len(),
                before.panes.len() == total,
                i <= total,
                self@ == (Loop { panes: before.silent_panes(i as int), ..before }),
                acts(actions@) == before.silences(i as int),
            decreases total - i,
        {
            let ghost sofar = acts(actions@);
            let ghost states_before = self@.panes;
            assert(self@.panes[i as int] == self.panes@[i as int]@);
            assert(self@.panes[i as int] == before.panes[i as int]);
            let pane = self.panes[i].pane;
            if self.panes[i].close_streams() {
                let action = Action::Tell { notice: Notice::StreamClosed(pane), apply: false };
                actions.push(action);
                assert(acts(actions@) =~= sofar.push(action@));
            }
            assert(self@.panes =~= states_before.update(
                i as int,
                PaneState { streams: 0, ..before.panes[i as int] },
            ));
            i = i + 1;
            assert(self@.panes =~= before.silent_panes(i as int));
        }
        proof {
            lemma_distinct(before.panes, self@.panes);
        }
        actions
    }

    /// A stream of a pane's agent closed.
    pub fn agent_stream_closed(&mut self, pane: PaneId, session_id: &str, generation: u64) -> (
    actions: Vec<Action<String, Submission>>)
        requires
            old(self)@.distinct(),
        ensures
            final(self)@.distinct(),
            final(self).took(
                actions,
                old(self)@.on_stream_closed(pane, session_id@, generation),
            ),
    {
        let ghost before = self@;
        let i: usize = self.index_of(pane);
        if i == self.panes.len() {
            return nothing();
        }
        assert(before.panes[i as int] == self.panes@[i as int]@);
        let last: bool = self.panes[i].close_stream(session_id, generation);
        assert(self@.panes =~= before.panes.update(
            i as int,
            before.pane(pane).stream_closed(session_id@, generation).0,
        ));
        proof {
            lemma_distinct(before.panes, self@.panes);
        }
        if last {
            one(Action::Tell { notice: Notice::StreamClosed(pane), apply: false })
        } else {
            nothing()
        }
    }

    /// A shell command ended; `context` is what the model is told of it.
    pub fn shell_finished(
        &mut self,
        pane: PaneId,
        execution: ShellExecution<String>,
        context: String,
    ) -> (actions: Result<Vec<Action<String, Submission>>, RuntimeError>)
        requires
            old(self)@.distinct(),
        ensures
            final(self)@.distinct(),
            match actions {
                Ok(actions) => (old(self)@.has(pane) ==> old(self)@.pane(pane).journal is Some)
                    && final(self).took(
                    actions,
                    old(self)@.on_shell_finished(pane, execution@, context@),
                ),
                Err(error) => old(self)@.has(pane) && old(self).refused(
                    *final(self),
                    pane,
                    old(self)@.left_by_shell(pane, context@),
                    error,
                ),
            },
    {
        let ghost before = self@;
        self.shell_tasks = self.shell_tasks.saturating_sub(1);
        let i: usize = self.index_of(pane);
        if i == self.panes.len() {
            return Ok(nothing());
        }
        assert(before.panes[i as int] == self.panes@[i as int]@);
        match self.panes[i].finish_shell(execution, context) {
            Ok((record, command)) => {
                assert(self@.panes =~= before.panes.update(
                    i as int,
                    before.pane(pane).shell_finished(execution@, context@).0,
                ));
                proof {
                    lemma_distinct(before.panes, self@.panes);
                }
                let mut actions = two(
                    Action::Record { pane, record, apply: true },
                    Action::Tell { notice: Notice::ShellFinished(pane), apply: false },
                );
                let ghost front = acts(actions@);
                match command {
                    Some(command) => {
                        let send = Action::Send(command);
                        actions.push(send);
                        assert(acts(actions@) =~= front + seq![send@]);
                    },
                    None => {
                        assert(acts(actions@) =~= front + Seq::empty());
                    },
                }
                Ok(actions)
            },
            Err(error) => {
                assert(self@.panes =~= before.panes.update(
                    i as int,
                    before.pane(pane).finish_refused(context@),
                ));
                proof {
                    lemma_distinct(before.panes, self@.panes);
                }
                Err(error)
            },
        }
    }

    /// A shell command was given up before it ended, or its task failed.
    pub fn shell_lost(&mut self)
        requires
            old(self)@.distinct(),
        ensures
            final(self)@.distinct(),
            final(self)@ == (Loop { shell_tasks: one_less(old(self)@.shell_tasks), ..old(self)@ }),
    {
        self.shell_tasks = self.shell_tasks.saturating_sub(1);
    }

    /// The writer of a journal ended.
    pub fn writer_finished(
        &mut self,
        pane: PaneId,
        session_id: &str,
        generation: u64,
        failed: bool,
    ) -> (actions: Vec<Action<String, Submission>>)
        requires
            old(self)@.distinct(),
        ensures
            final(self)@.distinct(),
            final(self).took(
                actions,
                old(self)@.on_writer_finished(pane, session_id@, generation, failed),
            ),
    {
        let ghost before = self@;
        self.writers_open = self.writers_open.saturating_sub(1);
        if failed {
            self.writer_failed = true;
            self.stopping = true;
            self.input = false;
        }
        let i: usize = self.index_of(pane);
        if i < self.panes.len() {
            assert(before.panes[i as int] == self.panes@[i as int]@);
            self.panes[i].stop_writer(session_id, generation);
            assert(self@.panes =~= before.panes.update(
                i as int,
                before.pane(pane).writer_stopped(session_id@, generation),
            ));
            proof {
                lemma_distinct(before.panes, self@.panes);
            }
        }
        if failed {
            one(Action::Shutdown)
        } else {
            nothing()
        }
    }

    /// Every writer ended.
    pub fn writers_gone(&mut self)
        requires
            old(self)@.distinct(),
        ensures
            final(self)@.distinct(),
            final(self)@ == (Loop { writers: 0, ..old(self)@ }),
    {
        self.writers_open = 0;
    }

    fn insert(&mut self, state: PaneRuntime)
        requires
            old(self)@.distinct(),
        ensures
            final(self)@.distinct(),
            final(self)@ == old(self)@.inserted(state@),
    {
        let ghost before = self@;
        let i: usize = self.index_of(state.pane);
        if i < self.panes.len() {
            self.panes.set(i, state);
            assert(self@.panes =~= before.panes.update(i as int, state@));
            proof {
                lemma_found_pane(before.panes, state@.pane, 0);
                lemma_distinct(before.panes, self@.panes);
            }
        } else {
            self.panes.push(state);
            assert(self@.panes =~= before.panes.push(state@));
            proof {
                lemma_found_pane(before.panes, state@.pane, 0);
                reveal(are_distinct);
            }
        }
        self.writers_open = self.writers_open.saturating_add(1);
    }

    /// Replaces a pane's session by another one, which its session is told by `notice`.
    pub fn replace_session(
        &mut self,
        pane: PaneId,
        session: NewSession<String>,
        notice: Notice<String>,
    ) -> (actions: Vec<Action<String, Submission>>)
        requires
            old(self)@.distinct(),
            old(self)@.has(pane),
        ensures
            final(self)@.distinct(),
            final(self).took(actions, old(self)@.replaced(pane, session@, notice@)),
    {
        let ghost before = self@;
        let i: usize = self.index_of(pane);
        assert(before.panes[i as int] == self.panes@[i as int]@);
        let generation: u64 = self.panes[i].generation.saturating_add(1);
        let mut actions: Vec<Action<String, Submission>> = match close_pane_journal(
            &mut self.panes[i],
            SessionOutcome::Closed,
            None,
        ) {
            Some(record) => one(Action::Close { pane, record }),
            None => nothing(),
        };
        let ghost closing = acts(actions@);
        proof {
            lemma_same_places(before.panes, self@.panes, pane, 0);
            lemma_distinct(before.panes, self@.panes);
        }
        let (state, record) = PaneRuntime::open(
            pane,
            generation,
            session.session_id,
            None,
            session.model,
            session.effort,
            self.workspace.clone(),
            session.application_version,
            session.writer_path,
        );
        let ghost opened = state@;
        self.insert(state);
        assert(self@.panes =~= before.panes.update(i as int, opened));
        self.input = true;
        let ghost front = actions@;
        let open = Action::Open { pane, record };
        let send = Action::Send(WorkerCommand::ReplaceAgent(pane));
        let tell = Action::Tell { notice, apply: false };
        actions.push(open);
        actions.push(send);
        actions.push(tell);
        assert(acts(actions@) =~= acts(front) + seq![open@, send@, tell@]);
        actions
    }

    /// A fork opens.
    pub fn open_fork(&mut self, pane: PaneId, session: NewSession<String>) -> (actions: Vec<
        Action<String, Submission>,
    >)
        requires
            old(self)@.distinct(),
        ensures
            final(self)@.distinct(),
            final(self).took(actions, old(self)@.fork_opened(pane, session@)),
    {
        let main: usize = self.index_of(PaneId::Main);
        let parent: Option<String> = if main < self.panes.len() {
            assert(self@.panes[main as int] == self.panes@[main as int]@);
            Some(self.panes[main].session_id.clone())
        } else {
            None
        };
        let (state, record) = PaneRuntime::open(
            pane,
            0,
            session.session_id,
            parent,
            session.model,
            session.effort,
            self.workspace.clone(),
            session.application_version,
            session.writer_path,
        );
        self.insert(state);
        two(
            Action::Open { pane, record },
            Action::Tell { notice: Notice::ForkReady(pane), apply: true },
        )
    }
}

/// A pane stands at its place, and nowhere where it has none.
proof fn lemma_found_pane(panes: Seq<PaneState>, pane: PaneId, from: int)
    requires
        0 <= from <= panes.len(),
    ensures
        from <= pane_index(panes, pane, from) <= panes.len(),
        pane_index(panes, pane, from) < panes.len() ==> panes[pane_index(panes, pane, from)].pane
            == pane,
        forall|i: int|
            from <= i < pane_index(panes, pane, from) ==> (#[trigger] panes[i]).pane != pane,
    decreases panes.len() - from,
{
    if from < panes.len() && panes[from].pane != pane {
        lemma_found_pane(panes, pane, from + 1);
    }
}

/// Panes that keep their names keep their places.
pub proof fn lemma_same_places(a: Seq<PaneState>, b: Seq<PaneState>, pane: PaneId, from: int)
    requires
        0 <= from,
        a.len() == b.len(),
        forall|i: int| 0 <= i < a.len() ==> (#[trigger] a[i]).pane == b[i].pane,
    ensures
        pane_index(a, pane, from) == pane_index(b, pane, from),
    decreases a.len() - from,
{
    if from < a.len() {
        assert(a[from].pane == b[from].pane);
        lemma_same_places(a, b, pane, from + 1);
    }
}

/// What the editor left.
#[derive(Debug)]
pub enum EditorCompletion<T> {
    /// A draft; none where it is unchanged.
    Draft { pane: PaneId, updated: Option<T> },
    /// A prompt of the queue; none where it is unchanged.
    Queue { pane: PaneId, index: usize, original: T, edited: Option<T> },
    Config,
    File,
}

/// What a session is told of the editor. A prompt of the queue goes back in any case.
pub open spec fn editor_notice(completion: EditorCompletion<String>) -> Option<Notice<Seq<char>>> {
    match completion {
        EditorCompletion::Draft { pane, updated } => match updated {
            Some(draft) => Some(Notice::EditorDraft { pane, draft: draft@ }),
            None => None,
        },
        EditorCompletion::Queue { pane, index, original, edited } => Some(
            Notice::QueueEditorFinished {
                pane,
                index,
                text: match edited {
                    Some(text) => text@,
                    None => original@,
                },
            },
        ),
        EditorCompletion::Config => None,
        EditorCompletion::File => None,
    }
}

/// What is done with a notice.
pub open spec fn told(notice: Option<Notice<Seq<char>>>) -> Seq<Action<Seq<char>, PromptModel>> {
    match notice {
        Some(notice) => seq![Action::Tell { notice, apply: false }],
        None => Seq::empty(),
    }
}

impl Runtime {
    /// The editor ended, and the terminal is read again.
    pub fn editor_finished(&mut self, completion: EditorCompletion<String>) -> (actions: Vec<
        Action<String, Submission>,
    >)
        requires
            old(self)@.distinct(),
        ensures
            final(self)@.distinct(),
            final(self).took(
                actions,
                Loop { editor: false, input: true, ..old(self)@ }.step(
                    told(editor_notice(completion)),
                ),
            ),
    {
        self.editor_open = false;
        self.input = true;
        match completion {
            EditorCompletion::Draft { pane, updated } => match updated {
                Some(draft) => one(
                    Action::Tell { notice: Notice::EditorDraft { pane, draft }, apply: false },
                ),
                None => nothing(),
            },
            EditorCompletion::Queue { pane, index, original, edited } => {
                let text: String = match edited {
                    Some(text) => text,
                    None => original,
                };
                one(
                    Action::Tell {
                        notice: Notice::QueueEditorFinished { pane, index, text },
                        apply: false,
                    },
                )
            },
            EditorCompletion::Config => nothing(),
            EditorCompletion::File => nothing(),
        }
    }

    /// An effort was stored: the worker is told.
    pub fn effort_persisted(&mut self, pane: PaneId, effort: ReasoningEffort) -> (actions: Vec<
        Action<String, Submission>,
    >)
        requires
            old(self)@.distinct(),
        ensures
            final(self)@.distinct(),
            final(self).took(
                actions,
                Loop { effort_task: false, ..old(self)@ }.step(
                    seq![Action::Send(WorkerCommand::SetThinking { pane, effort })],
                ),
            ),
    {
        self.effort_task = false;
        one(Action::Send(WorkerCommand::SetThinking { pane, effort }))
    }

    /// A new session was made, or could not be.
    pub fn new_session_finished(
        &mut self,
        pane: PaneId,
        made: Result<NewSession<String>, String>,
    ) -> (actions: Vec<Action<String, Submission>>)
        requires
            old(self)@.distinct(),
            made is Ok ==> old(self)@.has(pane),
        ensures
            final(self)@.distinct(),
            final(self).took(
                actions,
                ({
                    let next = Loop { new_session_task: false, input: true, ..old(self)@ };
                    match made {
                        Ok(session) => next.replaced(
                            pane,
                            session@,
                            Notice::NewSessionReady { pane, effort: session.effort },
                        ),
                        Err(error) => next.step(
                            told(Some(Notice::NewSessionFailed { pane, error: error@ })),
                        ),
                    }
                }),
            ),
    {
        self.new_session_task = false;
        self.input = true;
        match made {
            Ok(session) => {
                let effort = session.effort;
                self.replace_session(pane, session, Notice::NewSessionReady { pane, effort })
            },
            Err(error) => one(
                Action::Tell { notice: Notice::NewSessionFailed { pane, error }, apply: false },
            ),
        }
    }

    /// The sessions that can be resumed were listed, or could not be.
    pub fn sessions_listed(&mut self, pane: PaneId, failure: Option<String>) -> (actions: Vec<
        Action<String, Submission>,
    >)
        requires
            old(self)@.distinct(),
        ensures
            final(self)@.distinct(),
            final(self).took(
                actions,
                Loop { session_list_task: false, input: true, ..old(self)@ }.step(
                    told(
                        Some(
                            match failure {
                                None => Notice::SessionsLoaded(pane),
                                Some(error) => Notice::SessionLoadFailed {
                                    pane,
                                    error: "Could not load sessions: "@ + error@,
                                },
                            },
                        ),
                    ),
                ),
            ),
    {
        self.session_list_task = false;
        self.input = true;
        match failure {
            None => one(Action::Tell { notice: Notice::SessionsLoaded(pane), apply: false }),
            Some(error) => {
                let error: String = concat("Could not load sessions: ", error.as_str());
                one(Action::Tell { notice: Notice::SessionLoadFailed { pane, error }, apply: false })
            },
        }
    }

    /// A session was resumed, or could not be.
    pub fn session_resumed(
        &mut self,
        pane: PaneId,
        resumed: Result<NewSession<String>, String>,
    ) -> (actions: Vec<Action<String, Submission>>)
        requires
            old(self)@.distinct(),
            resumed is Ok ==> old(self)@.has(pane),
        ensures
            final(self)@.distinct(),
            final(self).took(
                actions,
                ({
                    let next = Loop { resume_session_task: false, input: true, ..old(self)@ };
                    match resumed {
                        Ok(session) => next.replaced(
                            pane,
                            session@,
                            Notice::SessionRestored { pane, effort: session.effort },
                        ),
                        Err(error) => next.step(
                            told(
                                Some(
                                    Notice::SessionLoadFailed {
                                        pane,
                                        error: "Could not resume session: "@ + error@,
                                    },
                                ),
                            ),
                        ),
                    }
                }),
            ),
    {
        self.resume_session_task = false;
        self.input = true;
        match resumed {
            Ok(session) => {
                let effort = session.effort;
                self.replace_session(pane, session, Notice::SessionRestored { pane, effort })
            },
            Err(error) => {
                let error: String = concat("Could not resume session: ", error.as_str());
                one(Action::Tell { notice: Notice::SessionLoadFailed { pane, error }, apply: false })
            },
        }
    }
}

/// A loop that is asked to end waits for no more input, and once nothing is left it can end.
pub proof fn law_the_loop_winds_down(run: Loop, animation: bool, frame: bool)
    ensures
        ({
            let branches = run.stopped().branches(animation, frame);
            !branches.input && !branches.editor && !branches.animation && !branches.frame
        }),
        run.is_drained() ==> run.closed().run.is_drained(),
{
    if run.is_drained() {
        let after = run.closed().run;
        assert forall|i: int| 0 <= i < after.panes.len() implies (#[trigger] after.panes[i]).streams
            <= 0 by {
            assert(after.panes[i].streams == run.panes[i].streams);
            assert(!(run.panes[i].streams > 0));
        }
    }
}

/// What a replaced session still sends is dropped: its generation is over.
pub proof fn law_replaced_sessions_are_not_heard(
    run: Loop,
    pane: PaneId,
    session: NewSession<Seq<char>>,
    notice: Notice<Seq<char>>,
)
    requires
        run.has(pane),
        run.pane(pane).pane == pane,
        run.pane(pane).generation < u64::MAX,
    ensures
        ({
            let after = run.replaced(pane, session, notice).run;
            after.has(pane) ==> !after.knows(
                pane,
                run.pane(pane).session_id,
                run.pane(pane).generation,
            )
        }),
{
    let after = run.replaced(pane, session, notice).run;
    lemma_index_bounds(run.panes, pane, 0);
    assert(after.panes == run.panes.update(
        run.at(pane),
        session.state(pane, crate::pane_runtime::following(run.pane(pane).generation)),
    ));
    assert forall|i: int| 0 <= i < run.panes.len() implies (#[trigger] run.panes[i]).pane
        == after.panes[i].pane by {
    }
    lemma_same_places(run.panes, after.panes, pane, 0);
}

/// The place of a pane is no negative number.
pub proof fn lemma_index_bounds(panes: Seq<PaneState>, pane: PaneId, from: int)
    requires
        0 <= from <= panes.len(),
    ensures
        from <= pane_index(panes, pane, from) <= panes.len(),
    decreases panes.len() - from,
{
    if from < panes.len() && panes[from].pane != pane {
        lemma_index_bounds(panes, pane, from + 1);
    }
}

} // verus!
