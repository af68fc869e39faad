//! What holds of the panes, of what runs behind them and of the loop.

use crate::errands::{after_native_copy, after_terminal_copy, reloaded_text};
use crate::event::{Event, MouseEvent};
use crate::geometry::Position;
use crate::input::commands;
use crate::main_loop::{editor_notice, EditorCompletion, NewSession};
use crate::node::RenderRequest;
use crate::pane_runtime::{
    informed, LocalEvent, PaneState, SessionOutcome, ShellExecution, WorkerCommand,
};
use crate::panes::{App, AppEvent, AppRequest, AppStep};
use crate::paths::is_web;
use crate::prompt::{PromptModel, Submission};
use crate::root::{Root, RootRequest};
use crate::runtime::{sent, Action, EditorTarget, Loop, Notice, WorkerEvent};
use crate::settings::{PaneId, ReasoningEffort, ThemeMode};
use crate::theme::ColorScheme;
use crate::transcript::Record;
use vstd::prelude::*;

verus! {

/// Something that is to be done, as mathematical values.
pub type Act = Action<Seq<char>, PromptModel>;

/// Something that is written down, as mathematical values.
pub type Told = LocalEvent<Seq<char>>;

/// A pane is found under its own name, and what is put in its place is found there; the other pane
/// stays.
pub proof fn law_panes_are_told_apart(app: App, root: Root, id: u64, other: u64)
    ensures
        app.with_session(PaneId::Main, root).session(PaneId::Main) == Some(root),
        app.with_session(PaneId::Main, root).session(PaneId::Fork(id)) == app.session(
            PaneId::Fork(id),
        ),
        app.with_session(PaneId::Fork(id), root).session(PaneId::Fork(id)) == Some(root),
        app.with_session(PaneId::Fork(id), root).session(PaneId::Main) == app.session(PaneId::Main),
        id != other ==> app.with_session(PaneId::Fork(id), root).session(PaneId::Fork(other)) is None,
{
}

/// A press of a mouse button takes the focus to the pane that it hits, and nothing else does: no
/// other event of the mouse, and no press elsewhere.
pub proof fn law_the_clicked_pane_has_the_focus(app: App, mouse: MouseEvent)
    ensures
        ({
            let p = Position { x: mouse.column, y: mouse.row };
            let next = app.pointed(Event::Mouse(mouse));
            &&& mouse.kind is Down && app.fork_area.covers(p) && app.fork is Some ==> next.focus
                == PaneId::Fork(app.fork->0.id)
            &&& mouse.kind is Down && app.main_area.covers(p) && !app.fork_area.covers(p)
                ==> next.focus == PaneId::Main
            &&& !(mouse.kind is Down) ==> next == app
            &&& !app.main_area.covers(p) && !app.fork_area.covers(p) ==> next == app
            &&& next.main == app.main && next.fork == app.fork
        }),
{
}

/// A theme that is set is that of the program and of every pane.
pub proof fn law_all_panes_share_the_theme(app: App, mode: ThemeMode)
    ensures
        ({
            let next = app.themed(mode);
            &&& next.theme.mode == mode
            &&& next.theme.system == app.theme.system
            &&& next.main is Some <==> app.main is Some
            &&& next.main matches Some(root) ==> root.theme_mode == mode
            &&& next.fork matches Some(fork) ==> fork.root.theme_mode == mode && fork.id
                == app.fork->0.id
            &&& next.focus == app.focus
        }),
{
}

/// What a session asks for goes on in the name of its pane, but for the three that are the
/// program's: to end, to set the theme, and to fork.
pub proof fn law_requests_go_on(
    app: App,
    pane: PaneId,
    request: RootRequest,
    snapshot: Option<Record>,
    now: int,
)
    ensures
        ({
            let (next, asked) = app.requested(pane, request, snapshot, now);
            &&& request is Shutdown ==> asked == seq![AppRequest::Shutdown] && next == app
            &&& request matches RootRequest::SetTheme(mode) ==> asked == seq![
                AppRequest::SetTheme(mode),
            ] && next.theme.mode == mode
            &&& !(request is Shutdown) && !(request is SetTheme) && !(request is Fork) ==> asked
                == seq![AppRequest::Pane { pane, request }] && next == app
            &&& request is Fork && app.fork is Some ==> asked.len() == 0 && next == app
            &&& request is Fork && app.fork is None && app.main is Some && snapshot is Some
                ==> asked == seq![AppRequest::OpenFork(PaneId::Fork(app.next_fork))]
                && next.focus == PaneId::Fork(app.next_fork)
        }),
{
    reveal(App::requested);
    reveal(App::forked);
}

/// No two forks have the same number, as long as the numbers last.
pub proof fn law_forks_have_their_own_numbers(app: App, snapshot: Record, now: int)
    requires
        app.main is Some,
        app.next_fork < u64::MAX,
    ensures
        app.forked(snapshot, now).next_fork > app.next_fork,
        app.forked(snapshot, now).fork matches Some(fork) && fork.id == app.next_fork,
        app.forked(snapshot, now).session(PaneId::Main) is Some,
{
    reveal(App::forked);
}

/// With two panes, the control key with c closes the one that has the focus where it would end the
/// program with one, and the program goes on.
pub proof fn law_control_c_closes_a_pane(
    app: App,
    event: Event,
    files: Seq<Seq<char>>,
    snapshot: Record,
    now: int,
)
    requires
        app.fork is Some,
        commands(event, 'c'),
        app.typed(app.focus, event, files, Some(snapshot), now).effects == seq![
            AppRequest::Shutdown,
        ],
    ensures
        app.on_terminal(event, files, snapshot, now).effects == seq![
            AppRequest::ClosePane(app.focus),
        ],
{
    reveal(App::on_terminal);
    reveal(App::on_close);
}

/// A pane that closes is gone; the other one stays, and has the focus. The primary session offers a
/// fork again once there is none.
pub proof fn law_closed_panes_are_gone(app: App, id: u64)
    requires
        app.main is Some,
        app.fork is Some,
        app.fork->0.id == id,
    ensures
        app.without(PaneId::Main).main is None,
        app.without(PaneId::Main).fork == app.fork,
        app.without(PaneId::Main).focus == PaneId::Fork(id),
        app.without(PaneId::Fork(id)).fork is None,
        app.without(PaneId::Fork(id)).focus == PaneId::Main,
        app.without(PaneId::Fork(id)).main matches Some(root) && root.fork_available,
{
    reveal(App::without);
}

/// A system that turns dark or light is followed by the automatic theme alone, and only then the
/// screen is drawn anew.
pub proof fn law_the_system_is_followed(app: App, scheme: ColorScheme)
    ensures
        ({
            let step = app.on_scheme(scheme);
            &&& step.app.theme.system == scheme
            &&& step.app.theme.mode == app.theme.mode
            &&& app.theme.mode == ThemeMode::Auto ==> step.app.theme.shown() == scheme
            &&& app.theme.mode != ThemeMode::Auto ==> step.app.theme.shown() == app.theme.shown()
                && step.render == RenderRequest::Idle
            &&& step.render == RenderRequest::Immediate <==> step.app.theme.shown()
                != app.theme.shown()
            &&& step.effects.len() == 0
        }),
{
    reveal(App::on_scheme);
}

/// A fork that cannot be made is gone, and the pane that is left says why, in red.
pub proof fn law_failed_forks_are_told(app: App, id: u64, error: String, now: u64)
    requires
        app.main is Some,
        app.fork is Some,
        app.fork->0.id == id,
    ensures
        ({
            let step = app.on_event(AppEvent::ForkFailed { pane: PaneId::Fork(id), error }, now);
            &&& step.app.fork is None
            &&& step.app.focus == PaneId::Main
            &&& step.app.main is Some && step.app.main->0.notification is Some
            &&& step.app.main->0.notification->0.message[0].text == "Could not fork session: "@
                + error@
            &&& step.app.main->0.notification->0.color == crate::draw::Tone::Red
            &&& step.app.main->0.fork_available
        }),
{
    reveal(App::on_event);
    reveal(App::without);
    reveal(App::failed);
}

/// Both requests for a frame are heard where one event reaches two panes, and what each asks for
/// follows in order.
pub proof fn law_two_panes_answer_together(first: AppStep, second: AppStep)
    ensures
        App::joined(first, second).app == second.app,
        App::joined(first, second).effects == first.effects + second.effects,
        App::joined(first, second).render == RenderRequest::Immediate <==> first.render
            == RenderRequest::Immediate || second.render == RenderRequest::Immediate,
        App::joined(first, second).render == RenderRequest::Idle <==> first.render
            == RenderRequest::Idle && second.render == RenderRequest::Idle,
{
}

/// Records of a session are numbered one after the other.
pub proof fn law_records_are_numbered(
    state: PaneState,
    first: LocalEvent<Seq<char>>,
    second: LocalEvent<Seq<char>>,
)
    requires
        state.journal is Some,
        state.journal->0.next_sequence < u64::MAX,
    ensures
        state.wrote().record(second).sequence == state.record(first).sequence + 1,
        state.record(first).event == first,
        state.wrote().journal is Some,
        state.wrote().session_id == state.session_id,
        state.wrote().next_turn == state.next_turn,
{
}

/// A prompt that nothing holds up is sent at once, under its number, behind what the commands before
/// it printed; that is not sent again.
pub proof fn law_prompts_are_sent_with_what_was_printed(state: PaneState, prompt: PromptModel)
    requires
        state.shells == 0,
    ensures
        ({
            let (next, record, command) = state.submitted(prompt);
            &&& command matches Some(WorkerCommand::Submit { pane, id, prompt: asked }) && pane
                == state.pane && id == state.next_turn && asked == informed(state.contexts, prompt)
            &&& next.contexts.len() == 0
            &&& next.pending == state.pending
            &&& record.event == (Told::UserSubmitted {
                id: state.next_turn,
                text: prompt.text,
            })
        }),
        informed(Seq::empty(), prompt) == prompt,
{
}

/// What commands printed stands in front of the prompt, and an empty line between them.
pub proof fn law_output_stands_in_front(context: Seq<char>, prompt: PromptModel)
    ensures
        informed(seq![context], prompt).text == context + "\n\n"@ + prompt.text,
        informed(seq![context], prompt).images.len() == prompt.images.len(),
{
    assert(crate::text::joined_with(seq![context], "\n\n"@) == context);
    assert(informed(seq![context], prompt).images.len() == prompt.images.len());
}

/// A command that is run has a number of its own and is counted until it ends; what it printed is
/// kept for the next prompt.
pub proof fn law_shells_are_counted(
    state: PaneState,
    command: Seq<char>,
    workspace: Seq<char>,
    execution: ShellExecution<Seq<char>>,
    context: Seq<char>,
)
    requires
        0 <= state.shells < usize::MAX,
        state.next_shell < u64::MAX,
        state.pending is None,
    ensures
        ({
            let (started, record) = state.shell_started(command, workspace);
            let (ended, last, sent) = started.shell_finished(execution, context);
            &&& record.event == (Told::ShellStarted {
                id: state.next_shell,
                command,
                workspace,
            })
            &&& started.shells == state.shells + 1
            &&& started.next_shell == state.next_shell + 1
            &&& last.event == Told::ShellFinished(execution)
            &&& ended.shells == state.shells
            &&& ended.contexts == state.contexts.push(context)
            &&& sent is None
        }),
{
}

/// The streams of a session are counted down, and the last one that closes is told.
pub proof fn law_the_last_stream_is_told(state: PaneState)
    requires
        state.streams >= 1,
    ensures
        ({
            let (next, last) = state.stream_closed(state.session_id, state.generation);
            &&& next.streams == state.streams - 1
            &&& last <==> state.streams == 1
            &&& next.journal == state.journal
        }),
        state.writer_stopped(state.session_id, state.generation).journal is None,
{
}

/// Everything that a session asks for is done for its pane, and what it asks for is what is done.
pub proof fn law_requests_are_carried_out(
    run: Loop,
    pane: PaneId,
    draft: Seq<char>,
    text: Seq<char>,
    effort: ReasoningEffort,
    yes: bool,
    limit: usize,
)
    ensures
        run.on_effect(pane, RootRequest::Copy(text), draft).actions == seq![
            Act::Copy { pane, text },
        ],
        run.on_effect(pane, RootRequest::SetFastMode(yes), draft).actions == seq![
            Act::PersistFastMode { pane, enabled: yes },
        ],
        run.on_effect(pane, RootRequest::SetMaxSubagents(limit), draft).actions == seq![
            Act::LimitSubagents { pane, limit },
        ],
        run.on_effect(pane, RootRequest::SetEffort(effort), draft).actions == seq![
            Act::PersistEffort { pane, effort },
        ],
        run.on_effect(pane, RootRequest::ReloadConfig, draft).actions == seq![
            Act::ReloadConfig(pane),
        ],
        run.on_effect(pane, RootRequest::NewSession, draft).actions == seq![
            Act::StartSession(pane),
        ],
        run.on_effect(pane, RootRequest::ResumeSession(text), draft).actions == seq![
            Act::ResumeSession { pane, session: text },
        ],
        run.on_effect(pane, RootRequest::LoadSessions, draft).actions == seq![
            Act::ListSessions { pane, active: run.pane(pane).session_id },
        ],
        run.on_effect(pane, RootRequest::OpenDraftEditor, draft).actions == seq![
            Act::Edit(EditorTarget::Draft { pane, draft }),
        ],
        run.on_effect(pane, RootRequest::OpenConfigEditor, draft).actions == seq![
            Act::Edit(EditorTarget::Config),
        ],
        run.on_effect(pane, RootRequest::CancelTurns, draft).actions == seq![
            Act::CancelSubagents(pane),
            Act::Send(WorkerCommand::CancelAll(pane)),
        ],
        is_web(text) ==> run.on_effect(pane, RootRequest::OpenLink(text), draft).actions == seq![
            Act::OpenBrowser { pane, link: text },
        ],
        !is_web(text) ==> run.on_effect(pane, RootRequest::OpenLink(text), draft).run.editor,
{
}

/// The terminal's input rests while an editor, a new effort or another session is waited for, and
/// for nothing else that a session asks for.
pub proof fn law_input_rests_while_something_is_waited_for(
    run: Loop,
    pane: PaneId,
    request: RootRequest,
    draft: Seq<char>,
)
    requires
        run.input,
    ensures
        ({
            let next = run.on_effect(pane, request, draft).run;
            let waits = request is OpenDraftEditor || request is OpenQueueEditor || request
                is OpenConfigEditor || request is SetEffort || request is NewSession || request
                is LoadSessions || request is ResumeSession || (request matches
                RootRequest::OpenLink(link) && !is_web(link));
            &&& next.input == !waits
            &&& request is SetEffort ==> next.effort_task
            &&& request is NewSession ==> next.new_session_task
            &&& request is LoadSessions ==> next.session_list_task
            &&& request is ResumeSession ==> next.resume_session_task
            &&& request is OpenDraftEditor || request is OpenConfigEditor || request
                is OpenQueueEditor ==> next.editor
            &&& next.stopping == run.stopping
        }),
{
    reveal(Loop::on_submit);
    reveal(Loop::on_shell);
    reveal(Loop::on_steer);
}

/// A loop that goes on waits for its panes, and one that ends waits only for what must be finished:
/// streams, the worker, commands and journals.
pub proof fn law_what_is_waited_for(run: Loop, animation: bool, frame: bool)
    ensures
        ({
            let branches = run.branches(animation, frame);
            &&& run.stopping ==> !branches.shutdown && !branches.input && !branches.system_theme
                && !branches.subagent_events && !branches.editor && !branches.effort
                && !branches.new_session && !branches.session_list && !branches.resume_session
                && !branches.animation && !branches.frame
            &&& !run.stopping ==> branches.shutdown && branches.system_theme
                && branches.subagent_events && branches.input == run.input
            &&& branches.worker == !run.worker_stopped
            &&& branches.shells == (run.shell_tasks > 0)
            &&& branches.writers == (run.writers > 0)
            &&& branches.agent_events == run.streams()
            &&& run.editor ==> !branches.frame && !branches.animation
            &&& !run.editor && !run.stopping ==> branches.frame == frame && branches.animation
                == animation
        }),
{
}

/// A loop can end only once it was asked to, the worker has stopped, every stream is closed and
/// every command has ended.
pub proof fn law_nothing_is_left_behind(run: Loop)
    ensures
        run.is_drained() <==> run.stopping && run.worker_stopped && run.shell_tasks == 0 && forall|
            i: int,
        |
            0 <= i < run.panes.len() ==> (#[trigger] run.panes[i]).streams <= 0,
        run.stopped().stopping,
        run.stopped().panes == run.panes,
        run.stopped().shell_tasks == run.shell_tasks,
{
}

/// Every journal that is open is closed with the session's end: as failed where the worker failed,
/// with the error, and as cancelled otherwise.
pub proof fn law_journals_are_closed(run: Loop, n: int)
    requires
        0 <= n <= run.panes.len(),
    ensures
        run.outcome() == SessionOutcome::Failed <==> run.worker_error is Some,
        run.outcome() == SessionOutcome::Cancelled <==> run.worker_error is None,
        forall|i: int|
            0 <= i < run.panes.len() ==> (#[trigger] run.closed().run.panes[i]).journal is None
                && run.closed().run.panes[i].session_id == run.panes[i].session_id,
        forall|i: int|
            0 <= i < n && (#[trigger] run.panes[i]).journal is Some ==> run.last_records(
                n,
            ).contains(
                Act::Close {
                    pane: run.panes[i].pane,
                    record: run.panes[i].record(
                        Told::SessionEnded {
                            outcome: run.outcome(),
                            failure: run.worker_error,
                        },
                    ),
                },
            ),
        run.last_records(n).len() <= n,
    decreases n,
{
    if n > 0 {
        law_journals_are_closed(run, n - 1);
        let rest = run.last_records(n - 1);
        let all = run.last_records(n);
        assert forall|i: int| 0 <= i < n && (#[trigger] run.panes[i]).journal is Some implies all.contains(
            Act::Close {
                pane: run.panes[i].pane,
                record: run.panes[i].record(
                    Told::SessionEnded {
                        outcome: run.outcome(),
                        failure: run.worker_error,
                    },
                ),
            },
        ) by {
            let last: Act = Act::Close {
                pane: run.panes[i].pane,
                record: run.panes[i].record(
                    Told::SessionEnded {
                        outcome: run.outcome(),
                        failure: run.worker_error,
                    },
                ),
            };
            if i < n - 1 {
                let k = choose|k: int| 0 <= k < rest.len() && rest[k] == last;
                assert(all[k] == last);
            } else {
                assert(all[rest.len() as int] == last);
            }
        }
    }
}

/// A journal that fails ends the program; one that ends as it should does not.
pub proof fn law_failed_journals_end_the_program(
    run: Loop,
    pane: PaneId,
    session_id: Seq<char>,
    generation: u64,
    failed: bool,
)
    requires
        run.writers >= 1,
    ensures
        ({
            let step = run.on_writer_finished(pane, session_id, generation, failed);
            &&& failed ==> step.run.stopping && step.run.writer_failed && !step.run.input
                && step.actions == seq![Act::Shutdown]
            &&& !failed ==> step.run.stopping == run.stopping && step.run.writer_failed
                == run.writer_failed && step.run.input == run.input && step.actions.len() == 0
            &&& step.run.writers == run.writers - 1
        }),
{
}

/// What the worker tells is written down under the number of its turn, and the session learns of it.
pub proof fn law_the_worker_is_heard(
    run: Loop,
    pane: PaneId,
    id: u64,
    queue_id: u64,
    count: usize,
    failure: Option<String>,
    error: String,
    prompt: Submission,
)
    requires
        run.has(pane),
    ensures
        ({
            let accepted = run.on_worker(WorkerEvent::TurnAccepted { pane, id }).actions;
            let finished = run.on_worker(
                WorkerEvent::TurnFinished { pane, id, failure, checkpoint: false },
            ).actions;
            let admitted = run.on_worker(WorkerEvent::SteerAdmitted { pane, queue_id }).actions;
            let promoted = run.on_worker(
                WorkerEvent::SteerPromoted { pane, queue_id, id, prompt },
            ).actions;
            let refused = run.on_worker(
                WorkerEvent::SteerFailed { pane, queue_id, error },
            ).actions;
            let cancelled = run.on_worker(
                WorkerEvent::TurnsCancelled { pane, count, failure },
            ).actions;
            &&& accepted.len() == 1 && accepted[0] is Record && accepted[0]->Record_record.event == (
            Told::WorkerTurnAccepted { id })
            &&& finished.len() == 2 && finished[0]->Record_record.event == (
            Told::WorkerTurnFinished {
                id,
                failure: crate::composer::option_view(failure),
            }) && finished[1] == (Act::Tell { notice: Notice::TurnFinished(pane), apply: true })
            &&& admitted == seq![
                Act::Tell {
                    notice: Notice::SteerAdmitted { pane, id: queue_id },
                    apply: true,
                },
            ]
            &&& promoted.len() == 2 && promoted[0]->Record_record.event == (Told::UserSubmitted {
                id,
                text: prompt@.text,
            }) && promoted[1] == (Act::Tell {
                notice: Notice::SteerPromoted { pane, id: queue_id },
                apply: false,
            })
            &&& refused.len() == 2 && refused[0]->Record_record.event == (Told::WorkerSteerFailed {
                error: error@,
            }) && refused[1] == (Act::Tell {
                notice: Notice::SteerFailed { pane, id: queue_id },
                apply: true,
            })
            &&& cancelled.len() == 2 && cancelled[0]->Record_record.event == (
            Told::WorkerTurnsInterrupted {
                count,
                failure: crate::composer::option_view(failure),
            }) && cancelled[1] == (Act::Tell {
                notice: Notice::TurnsCancelled(pane),
                apply: false,
            })
        }),
{
}

/// An effort that the worker took is that of the pane from then on; the change is written down with
/// the effort before, and the input goes on.
pub proof fn law_the_new_effort_is_kept(run: Loop, pane: PaneId, effort: ReasoningEffort)
    requires
        run.has(pane),
        0 <= run.at(pane),
    ensures
        ({
            let step = run.on_worker(WorkerEvent::ThinkingUpdated { pane, effort });
            &&& step.run.panes[run.at(pane)].effort == effort
            &&& step.run.input
            &&& step.actions.len() == 2
            &&& step.actions[0]->Record_record.event == (Told::EffortChanged {
                from: run.pane(pane).effort,
                to: effort,
            })
            &&& step.actions[1] == Act::ApplyEffort(effort)
        }),
{
}

/// A session that begins has its first record written, with number one, and starts its turns and its
/// commands at one; the next record has number two. A fork names the session that it came from.
pub proof fn law_sessions_begin_at_one(
    session: NewSession<Seq<char>>,
    run: Loop,
    pane: PaneId,
    generation: u64,
    parent: Option<Seq<char>>,
    workspace: Seq<char>,
    event: LocalEvent<Seq<char>>,
)
    ensures
        ({
            let state = session.state(pane, generation);
            let record = session.record(parent, workspace);
            &&& record.sequence == 1
            &&& record.event == (Told::SessionStarted {
                session_id: session.session_id,
                parent_session_id: parent,
                model: session.model,
                effort: session.effort,
                workspace,
                application_version: session.application_version,
            })
            &&& state.record(event).sequence == 2
            &&& state.next_turn == 1 && state.next_shell == 1
            &&& state.shells == 0 && state.contexts.len() == 0 && state.pending is None
            &&& state.session_id == session.session_id && state.effort == session.effort
            &&& state.is(session.session_id, generation)
        }),
        run.has(PaneId::Main) ==> run.fork_opened(pane, session).actions[0] == (Act::Open {
            pane,
            record: session.record(Some(run.pane(PaneId::Main).session_id), run.workspace),
        }),
{
}

/// An editor that is closed brings back the draft if it was changed, and the prompt that waits in
/// any case, edited or as it was; a file and the settings bring back nothing.
pub proof fn law_editors_bring_back_text(
    pane: PaneId,
    index: usize,
    original: String,
    edited: String,
)
    ensures
        editor_notice(EditorCompletion::Draft { pane, updated: Some(edited) }) == Some(
            Notice::EditorDraft { pane, draft: edited@ },
        ),
        editor_notice(EditorCompletion::Draft { pane, updated: None }) is None,
        editor_notice(
            EditorCompletion::Queue { pane, index, original, edited: Some(edited) },
        ) == Some(Notice::QueueEditorFinished { pane, index, text: edited@ }),
        editor_notice(EditorCompletion::Queue { pane, index, original, edited: None }) == Some(
            Notice::QueueEditorFinished { pane, index, text: original@ },
        ),
        editor_notice(EditorCompletion::Config) is None,
        editor_notice(EditorCompletion::File) is None,
{
}

/// A copy that the system refuses is tried by way of the terminal where that is possible; the user
/// learns of success only where one succeeded, and of both reasons where both failed.
pub proof fn law_copies_are_tried_twice(
    pane: PaneId,
    text: Seq<char>,
    first: Seq<char>,
    second: Seq<char>,
)
    ensures
        after_native_copy(pane, text, None, true) is Tell,
        after_native_copy(pane, text, None, true)->notice is NotifySuccess,
        after_native_copy(pane, text, None, false) == after_native_copy(pane, text, None, true),
        after_native_copy(pane, text, Some(first), true) == (Act::CopyToTerminal {
            pane,
            text,
            error: first,
        }),
        after_native_copy(pane, text, Some(first), false) is Tell,
        after_native_copy(pane, text, Some(first), false)->notice == (Notice::NotifyError {
            pane,
            error: "Could not copy selection: "@ + first,
        }),
        after_terminal_copy(pane, first, None) is Tell,
        after_terminal_copy(pane, first, None)->notice is NotifySuccess,
        after_terminal_copy(pane, first, Some(second))->notice == (Notice::NotifyError {
            pane,
            error: "Could not copy selection: "@ + first + "; terminal fallback failed: "@ + second,
        }),
{
}

/// The program ends with the session of its first pane, unless something failed: then with the
/// error, that of the program before that of the worker.
pub proof fn law_the_program_tells_how_it_ended(
    run: Loop,
    failure: Seq<char>,
    error: Seq<char>,
    first: Seq<char>,
)
    ensures
        run.ending(Some(failure), first) == Err::<Seq<char>, Seq<char>>(failure),
        run.worker_error == Some(error) ==> run.ending(None, first) == Err::<Seq<char>, Seq<char>>(
            error,
        ),
        run.worker_error is None && run.has(PaneId::Main) ==> run.ending(None, first) == Ok::<
            Seq<char>,
            Seq<char>,
        >(run.pane(PaneId::Main).session_id),
        run.worker_error is None && !run.has(PaneId::Main) ==> run.ending(None, first) == Ok::<
            Seq<char>,
            Seq<char>,
        >(first),
{
}

/// Settings that were read anew are told of, and that another directory takes a restart.
pub proof fn law_reloading_is_told()
    ensures
        reloaded_text(true) == reloaded_text(false) + " · workspace requires restart"@,
        reloaded_text(true) != reloaded_text(false),
{
    reveal_strlit("");
    reveal_strlit(" · workspace requires restart");
    let base = "Reloaded config · theme applied · agent/auth settings apply to new sessions"@;
    assert(base + ""@ =~= base);
    assert(reloaded_text(true).len() == base.len() + " · workspace requires restart"@.len());
    assert(reloaded_text(false).len() == base.len());
    assert(" · workspace requires restart"@.len() > 0);
}

/// When all streams end at once, every session that had one is told, and no other session; after
/// that no stream is left, and nothing else changed.
pub proof fn law_silence_is_told(run: Loop, n: int)
    requires
        0 <= n <= run.panes.len(),
    ensures
        forall|i: int|
            0 <= i < n && (#[trigger] run.panes[i]).streams > 0 ==> run.silences(n).contains(
                Act::Tell { notice: Notice::StreamClosed(run.panes[i].pane), apply: false },
            ),
        forall|k: int|
            0 <= k < run.silences(n).len() ==> exists|i: int|
                0 <= i < n && (#[trigger] run.panes[i]).streams > 0 && #[trigger] run.silences(n)[k]
                    == (Act::Tell {
                    notice: Notice::StreamClosed(run.panes[i].pane),
                    apply: false,
                }),
        run.silences(n).len() <= n,
        forall|i: int|
            0 <= i < n ==> (#[trigger] run.silent_panes(n)[i]).streams == 0
                && run.silent_panes(n)[i].pane == run.panes[i].pane
                && run.silent_panes(n)[i].journal == run.panes[i].journal
                && run.silent_panes(n)[i].shells == run.panes[i].shells,
        forall|i: int|
            0 <= i < n ==> (#[trigger] run.closed_panes(n)[i]).journal is None
                && run.closed_panes(n)[i].pane == run.panes[i].pane
                && run.closed_panes(n)[i].streams == run.panes[i].streams,
    decreases n,
{
    if n > 0 {
        law_silence_is_told(run, n - 1);
        let rest = run.silences(n - 1);
        let all = run.silences(n);
        assert forall|i: int| 0 <= i < n && (#[trigger] run.panes[i]).streams > 0 implies all.contains(
            Act::Tell { notice: Notice::StreamClosed(run.panes[i].pane), apply: false },
        ) by {
            let told = Act::Tell {
                notice: Notice::StreamClosed(run.panes[i].pane),
                apply: false,
            };
            if i < n - 1 {
                assert(rest.contains(told));
                let k = choose|k: int| 0 <= k < rest.len() && rest[k] == told;
                assert(all[k] == told);
            } else {
                assert(all[all.len() - 1] == told);
            }
        }
        assert forall|k: int| 0 <= k < all.len() implies exists|i: int|
            0 <= i < n && (#[trigger] run.panes[i]).streams > 0 && #[trigger] all[k] == (Act::Tell {
                notice: Notice::StreamClosed(run.panes[i].pane),
                apply: false,
            }) by {
            if k < rest.len() {
                assert(all[k] == rest[k]);
                let i = choose|i: int|
                    0 <= i < n - 1 && (#[trigger] run.panes[i]).streams > 0 && rest[k]
                        == (Act::Tell {
                        notice: Notice::StreamClosed(run.panes[i].pane),
                        apply: false,
                    });
                assert(run.panes[i].streams > 0);
            } else {
                assert(run.panes[n - 1].streams > 0);
            }
        }
    }
}

/// A stream that closes is told only when it was the session's last; a stream of a pane that is gone
/// is passed over.
pub proof fn law_closed_streams_are_counted_down(run: Loop, pane: PaneId)
    ensures
        ({
            let state = run.pane(pane);
            let step = run.on_stream_closed(pane, state.session_id, state.generation);
            &&& run.has(pane) && state.streams > 1 ==> step.actions.len() == 0
            &&& run.has(pane) && state.streams == 1 ==> step.actions == seq![
                Act::Tell { notice: Notice::StreamClosed(pane), apply: false },
            ]
            &&& !run.has(pane) ==> step.actions.len() == 0 && step.run == run
            &&& step.run.panes.len() == run.panes.len()
        }),
{
    crate::main_loop::lemma_index_bounds(run.panes, pane, 0);
}

/// The end of a command is written down before its session is told, and one command less is waited
/// for, even where the pane is gone.
pub proof fn law_ended_commands_are_written_down(
    run: Loop,
    pane: PaneId,
    execution: ShellExecution<Seq<char>>,
    context: Seq<char>,
)
    requires
        run.shell_tasks > 0,
    ensures
        ({
            let step = run.on_shell_finished(pane, execution, context);
            &&& step.run.shell_tasks == run.shell_tasks - 1
            &&& run.left_by_shell(pane, context).shell_tasks == run.shell_tasks - 1
            &&& !run.has(pane) ==> step.actions.len() == 0
            &&& run.has(pane) ==> step.actions.len() >= 2 && step.actions[0] is Record
                && step.actions[0]->Record_pane == pane && step.actions[0]->Record_apply
                && step.actions[0]->Record_record.event == Told::ShellFinished(execution)
                && step.actions[1] == (Act::Tell {
                notice: Notice::ShellFinished(pane),
                apply: false,
            })
        }),
{
}

/// What could not be written down counts as if it had been: the next prompt and the next command get
/// the same numbers, and as many commands run. What a command printed is kept.
pub proof fn law_refusals_use_up_numbers(
    state: PaneState,
    prompt: PromptModel,
    command: Seq<char>,
    workspace: Seq<char>,
    execution: ShellExecution<Seq<char>>,
    context: Seq<char>,
)
    ensures
        state.submit_refused().next_turn == state.submitted(prompt).0.next_turn,
        state.submit_refused().pending == state.pending,
        state.submit_refused().contexts == state.contexts,
        state.shell_refused().next_shell == state.shell_started(command, workspace).0.next_shell,
        state.shell_refused().shells == state.shell_started(command, workspace).0.shells,
        state.finish_refused(context).shells == state.shell_finished(execution, context).0.shells,
        state.finish_refused(context).contexts == state.contexts.push(context),
        state.finish_refused(context).pending == state.pending,
        0 <= state.next_turn < u64::MAX ==> state.submit_refused().next_turn == state.next_turn + 1,
        state.next_shell < u64::MAX ==> state.shell_refused().next_shell == state.next_shell + 1,
{
}

/// The first pane without a journal is found: all before it have one.
pub proof fn law_the_first_closed_journal(panes: Seq<PaneState>, from: int)
    requires
        0 <= from <= panes.len(),
    ensures
        from <= crate::runtime::first_closed(panes, from) <= panes.len(),
        forall|i: int|
            from <= i < crate::runtime::first_closed(panes, from) ==> (#[trigger] panes[i]).journal
                is Some,
        crate::runtime::first_closed(panes, from) < panes.len()
            ==> panes[crate::runtime::first_closed(panes, from)].journal is None,
    decreases panes.len() - from,
{
    if from < panes.len() && panes[from].journal is Some {
        law_the_first_closed_journal(panes, from + 1);
    }
}

/// The worker's end is written into every journal, once each and in the panes' order, and counts
/// there as a record.
pub proof fn law_the_end_is_written_everywhere(run: Loop, reason: Option<String>)
    ensures
        ({
            let step = run.on_worker(WorkerEvent::Stopped { reason });
            &&& step.run.worker_stopped
            &&& step.run.worker_error is Some <==> reason is Some
            &&& step.actions.len() == run.panes.len()
            &&& step.run.panes.len() == run.panes.len()
            &&& forall|i: int|
                0 <= i < run.panes.len() ==> (#[trigger] step.actions[i]) is Record
                    && step.actions[i]->Record_pane == run.panes[i].pane
                    && step.actions[i]->Record_record.sequence
                    == run.panes[i].journal->0.next_sequence
                    && step.actions[i]->Record_record.event is WorkerStopped
            &&& forall|i: int|
                0 <= i < run.panes.len() ==> (#[trigger] step.run.panes[i]).pane
                    == run.panes[i].pane && step.run.panes[i].streams == run.panes[i].streams
        }),
{
}

/// Only what is written down needs a journal, and whatever needs a journal needs its pane.
pub proof fn law_what_needs_a_journal(request: RootRequest)
    ensures
        Loop::needs_journal(request) ==> Loop::needs_pane(request),
        Loop::needs_journal(request) <==> match request {
            RootRequest::Submit(_) | RootRequest::RunShell(_) | RootRequest::PersistSteer(_) => true,
            _ => false,
        },
        request is CancelTurns || request is Steer ==> Loop::needs_pane(request)
            && !Loop::needs_journal(request),
        request is SetTheme || request is Shutdown || request is ResumeSession
            ==> !Loop::needs_pane(request),
{
}

/// A finished turn's state is saved under the session of its pane, and nothing is saved without one.
pub proof fn law_states_are_saved_for_their_session(run: Loop, pane: PaneId)
    ensures
        run.saved(pane, false).len() == 0,
        run.saved(pane, true) == seq![
            Act::SaveCheckpoint { pane, session: run.pane(pane).session_id },
        ],
{
}

/// What is told of a pane that is gone changes nothing.
pub proof fn law_lost_panes_hear_nothing(
    app: App,
    pane: PaneId,
    event: crate::root::RootEvent,
    now: u64,
)
    requires
        app.session(pane) is None,
    ensures
        app.routed(pane, event, None, now).app == app,
        app.routed(pane, event, None, now).effects.len() == 0,
        app.on_record(pane, event, None, now).app == app,
        app.on_record(pane, event, None, now).effects.len() == 0,
{
    reveal(App::routed);
    reveal(App::on_record);
}

/// An event reaches the session of its pane and no other session.
pub proof fn law_events_reach_their_pane(
    app: App,
    event: crate::root::RootEvent,
    now: u64,
    root: Root,
)
    requires
        app.main == Some(root),
        root.on_event(event, now).effects.len() == 0,
    ensures
        ({
            let step = app.routed(PaneId::Main, event, None, now);
            &&& step.app.main == Some(root.on_event(event, now).root)
            &&& step.app.fork == app.fork
            &&& step.app.focus == app.focus
            &&& step.effects.len() == 0
            &&& step.render == root.on_event(event, now).render
        }),
{
    reveal(App::routed);
}

/// What stands in the program's name is shown in the primary session while it is there, and in the
/// fork after that.
pub proof fn law_someone_speaks(app: App)
    ensures
        app.main is Some ==> app.speaker() == PaneId::Main && app.session(app.speaker()) is Some,
        app.main is None ==> app.speaker() == app.focus,
{
}

/// Both panes take the new size, and the picture is drawn at once.
pub proof fn law_all_panes_are_resized(app: App, event: Event, files: Seq<Seq<char>>, now: int)
    ensures
        app.on_resize(event, files, now).render == RenderRequest::Immediate,
        app.main is None && app.fork is None ==> app.on_resize(event, files, now).effects.len() == 0,
        app.main is None && app.fork is Some && app.fork->0.root.on_terminal(
            event,
            Seq::empty(),
            now,
        ).effects.len() == 0 ==> app.on_resize(event, files, now).app.fork is Some
            && app.on_resize(event, files, now).app.fork->0.root
            == app.fork->0.root.on_terminal(event, Seq::empty(), now).root,
        app.main is Some && app.fork is None && app.main->0.on_terminal(
            event,
            files,
            now,
        ).effects.len() == 0 ==> app.on_resize(event, files, now).app.main == Some(
            app.main->0.on_terminal(event, files, now).root,
        ),
{
    reveal(App::on_resize);
    reveal(App::typed);
}

/// Updates that are joined ask for the more urgent frame, whichever came first.
pub proof fn law_joined_updates_are_drawn(
    first: Option<crate::node::ComponentUpdate<crate::panes::AppEffect>>,
    second: Option<crate::node::ComponentUpdate<crate::panes::AppEffect>>,
)
    ensures
        ({
            let merged = crate::panes::merged_render(first, second);
            &&& merged == crate::panes::merged_render(second, first)
            &&& merged is Immediate <==> first is Some && first->0.render is Immediate || second
                is Some && second->0.render is Immediate
            &&& merged is Idle <==> (first is None || first->0.render is Idle) && (second is None
                || second->0.render is Idle)
        }),
{
}

/// A prompt is written down before it is sent, with the number that it is sent under, and is shown
/// already; while commands run it is written down alone.
pub proof fn law_prompts_are_written_down_first(
    run: Loop,
    pane: PaneId,
    draft: Seq<char>,
    prompt: PromptModel,
)
    ensures
        ({
            let state = run.pane(pane);
            let step = run.on_effect(pane, RootRequest::Submit(prompt), draft);
            &&& step.actions[0] is Record && step.actions[0]->Record_pane == pane
                && !step.actions[0]->Record_apply && step.actions[0]->Record_record.event
                == (Told::UserSubmitted { id: state.next_turn, text: prompt.text })
            &&& state.shells == 0 ==> step.actions.len() == 2 && step.actions[1] is Send
                && step.actions[1]->Send_0 is Submit && step.actions[1]->Send_0->Submit_id
                == state.next_turn && step.actions[1]->Send_0->Submit_pane == state.pane
            &&& state.shells != 0 ==> step.actions.len() == 1
            &&& state.shells == 0 && state.contexts.len() == 0
                ==> step.actions[1]->Send_0->Submit_prompt == prompt
        }),
{
    reveal(Loop::on_submit);
}

/// A command is written down before it is run, with the same number, and one more is waited for.
pub proof fn law_commands_are_written_down_first(
    run: Loop,
    pane: PaneId,
    draft: Seq<char>,
    command: Seq<char>,
)
    requires
        0 <= run.shell_tasks < usize::MAX,
    ensures
        ({
            let step = run.on_effect(pane, RootRequest::RunShell(command), draft);
            &&& step.actions.len() == 2 && step.actions[0] is Record
                && step.actions[0]->Record_record.event is ShellStarted
                && step.actions[0]->Record_record.event->ShellStarted_command == command
                && step.actions[0]->Record_record.event->ShellStarted_workspace == run.workspace
            &&& step.actions[1] == (Act::RunShell {
                pane,
                id: step.actions[0]->Record_record.event->ShellStarted_id,
                command,
            })
            &&& step.run.shell_tasks == run.shell_tasks + 1
        }),
{
    reveal(Loop::on_shell);
}

/// A prompt that is sent into the turn keeps its number in the line, and has the number of the next
/// prompt in case no turn goes on; once it was taken it is written down.
pub proof fn law_steering_is_carried_out(
    run: Loop,
    pane: PaneId,
    draft: Seq<char>,
    id: u64,
    prompt: PromptModel,
    text: Seq<char>,
    index: usize,
)
    ensures
        ({
            let step = run.on_effect(pane, RootRequest::Steer { id, prompt }, draft);
            &&& step.actions.len() == 1 && step.actions[0] is Send && step.actions[0]->Send_0 is Steer
            &&& step.actions[0]->Send_0->Steer_queue_id == id
            &&& step.actions[0]->Send_0->Steer_fallback_id == run.pane(pane).next_turn
            &&& step.actions[0]->Send_0->Steer_prompt == prompt
        }),
        ({
            let step = run.on_effect(pane, RootRequest::PersistSteer(text), draft);
            &&& step.actions.len() == 1 && step.actions[0] is Record
            &&& step.actions[0]->Record_record.event == (Told::UserSteered { text })
        }),
        run.on_effect(
            pane,
            RootRequest::OpenQueueEditor { index: index as int, text },
            draft,
        ).actions == seq![Act::Edit(EditorTarget::Queue { pane, index, text })],
{
    reveal(Loop::on_steer);
}

/// A program that was asked to end takes no more input, and waits for no editor, no effort and no new
/// session; its panes and what was said stay.
pub proof fn law_the_end_takes_no_input(run: Loop)
    ensures
        run.stopped().stopping && !run.stopped().input && !run.stopped().editor,
        !run.stopped().effort_task && !run.stopped().new_session_task,
        run.stopped().panes == run.panes,
        run.stopped().worker_error == run.worker_error,
        run.stopped().shell_tasks == run.shell_tasks,
        run.stopped().stopped() == run.stopped(),
{
}

/// Failures and successes are told to the session that they belong to, as what they are.
pub proof fn law_outcomes_are_told(pane: PaneId, text: Seq<char>)
    ensures
        crate::errands::failure_told(pane, text) == (Act::Tell {
            notice: Notice::NotifyError { pane, error: text },
            apply: false,
        }),
        crate::errands::success_told(pane, text) == (Act::Tell {
            notice: Notice::NotifySuccess { pane, message: text },
            apply: false,
        }),
{
}

/// A request that could not be written down leaves the other requests' state alone: only a prompt
/// and a command use up a number.
pub proof fn law_only_prompts_and_commands_use_up_numbers(
    run: Loop,
    pane: PaneId,
    request: RootRequest,
)
    ensures
        !(request is Submit) && !(request is RunShell) ==> run.left_by(pane, request) == run,
        run.left_by(pane, request).panes.len() == run.panes.len() || !run.has(pane),
        run.left_by(pane, request).shell_tasks == run.shell_tasks,
        run.left_by(pane, request).stopping == run.stopping,
{
    crate::main_loop::lemma_index_bounds(run.panes, pane, 0);
}

/// Keys reach the pane with the focus, but for control-c while there are two panes.
pub proof fn law_keys_reach_the_focus(
    app: App,
    key: crate::event::KeyEvent,
    files: Seq<Seq<char>>,
    snapshot: Record,
    now: int,
)
    ensures
        app.fork is None || !commands(Event::Key(key), 'c') ==> app.on_terminal(
            Event::Key(key),
            files,
            snapshot,
            now,
        ) == app.typed(app.focus, Event::Key(key), files, Some(snapshot), now),
        app.fork is Some && commands(Event::Key(key), 'c') ==> app.on_terminal(
            Event::Key(key),
            files,
            snapshot,
            now,
        ) == app.on_close(Event::Key(key), files, snapshot, now),
{
    reveal(App::on_terminal);
}

/// A notice is told once, and nothing is told without one.
pub proof fn law_notices_are_told_once(notice: Notice<Seq<char>>)
    ensures
        crate::main_loop::told(None).len() == 0,
        crate::main_loop::told(Some(notice)) == seq![Act::Tell { notice, apply: false }],
{
}

} // verus!
