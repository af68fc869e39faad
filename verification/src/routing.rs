//! Where the events of a session go.

use crate::actions::{Action, ActionsEffect, ActionsEvent, ActionsMenu};
use crate::composer::{
    option_view, Composer, ComposerEffect, ComposerEvent, ComposerUpdate, Reaction,
};
use crate::context::completed_transcript_tokens;
use crate::draw::Tone;
use crate::event::Event;
use crate::file_finder::{lemma_after, FileFinder, FileFinderEffect, FileFinderEvent};
use crate::geometry::Rect;
use crate::input::{
    file_mention_edit_continues_query, is_file_finder_navigation, is_file_mention_edit,
};
use crate::keybindings::{KeybindingsEvent, KeybindingsHelp};
use crate::node::{ComponentUpdate, RenderRequest};
use crate::prompt::Submission;
use crate::queue::{prompt_view, MessageQueue, QueueEffect};
use crate::root::{
    requests, FileMention, Notification, Overlay, RestoredRecord, Root, RootEffect, RootNode,
    RootRequest, ThreadState,
};
use crate::selection::Selection;
use crate::selectors::{EffortEffect, EffortSelector, ThemeSelector, ThemeSelectorEffect};
use crate::session::SessionSummary;
use crate::session_picker::{SessionPicker, SessionPickerEffect, SessionPickerEvent};
use crate::settings::{ReasoningEffort, ThemeMode};
use crate::subagents::{request_view, Forest, SubagentEffect, SubagentOverlay, SubagentTree};
use crate::text::{characters, concat, offset_at, slice, starts_with, trim};
use crate::transcript::{Content, Transcript, TranscriptEvent};
use vstd::prelude::*;

verus! {

pub(crate) fn quiet(render: RenderRequest) -> (update: ComponentUpdate<RootEffect>)
    ensures
        update.render == render,
        requests(update.effects@) == Seq::<RootRequest>::empty(),
{
    let update: ComponentUpdate<RootEffect> = ComponentUpdate::render(render);
    assert(requests(update.effects@) =~= Seq::<RootRequest>::empty());
    update
}

pub(crate) fn asking(effect: RootEffect, render: RenderRequest) -> (update: ComponentUpdate<RootEffect>)
    ensures
        update.render == render,
        requests(update.effects@) == seq![effect@],
{
    let update: ComponentUpdate<RootEffect> = ComponentUpdate::one(effect, render);
    assert(requests(update.effects@) =~= seq![effect@]);
    update
}

impl RootNode {
    /// A session without a prompt in a directory. `home` is the home directory.
    pub fn new(workspace: String, home: Option<String>, thinking: ReasoningEffort, now: u64) -> (
    root: Self)
        ensures
            root.wf(),
            root@ == Root::fresh(workspace@, option_view(home), thinking, now as int),
    {
        let base: Option<&str> = match &home {
            Some(path) => Some(path.as_str()),
            None => None,
        };
        RootNode {
            transcript: Transcript::with_effort(thinking, now),
            composer: Composer::new(workspace.as_str(), base, thinking),
            queue: MessageQueue::new(),
            workspace,
            home,
            overlay: None,
            thread: ThreadState::New,
            escape_deadline: None,
            notification: None,
            selection: Selection::new(),
            transcript_area: Rect::none(),
            composer_area: Rect::none(),
            composer_content_area: Rect::none(),
            queue_area: Rect::none(),
            in_flight_turns: 0,
            in_flight_shells: 0,
            fork_available: true,
            interactive: true,
            theme_mode: ThemeMode::Auto,
            subagents: SubagentTree::new(thinking),
        }
    }

    fn copy_home(&self) -> (home: Option<String>)
        ensures
            option_view(home) == self@.home,
    {
        match &self.home {
            Some(home) => Some(home.clone()),
            None => None,
        }
    }

    /// A fork of the session, which takes over some content.
    pub fn fork(
        &self,
        workspace: String,
        thinking: ReasoningEffort,
        content: Content,
        now: u64,
    ) -> (root: Self)
        requires
            self.wf(),
        ensures
            root.wf(),
            root@ == self@.branched(workspace@, thinking, content@, now as int),
    {
        proof {
            reveal(Root::branched);
        }
        let mut root = RootNode::new(workspace, self.copy_home(), thinking, now);
        root.transcript = self.transcript.fork_snapshot(content, now);
        let _ = root.composer.update(ComposerEvent::ContextTokens(self.composer.context_tokens()));
        root.set_fast_mode(self.composer.fast_mode());
        root.set_max_subagents(self.subagents.max_subagents());
        root.thread = ThreadState::Started;
        root.fork_available = false;
        root.theme_mode = self.theme_mode;
        root.interactive = false;
        root.show_work("Forking session…".to_owned());
        root
    }

    /// Whether the session can be forked.
    pub fn set_fork_available(&mut self, available: bool)
        requires
            old(self).wf(),
        ensures
            final(self).wf(),
            final(self)@ == (Root { fork_available: available, ..old(self)@ }),
    {
        self.fork_available = available;
    }

    /// Sets the mode of the theme.
    pub fn set_theme_mode(&mut self, mode: ThemeMode)
        requires
            old(self).wf(),
        ensures
            final(self).wf(),
            final(self)@ == (Root { theme_mode: mode, ..old(self)@ }),
    {
        self.theme_mode = mode;
    }

    /// Turns the fast mode on or off.
    pub fn set_fast_mode(&mut self, enabled: bool)
        requires
            old(self).wf(),
        ensures
            final(self).wf(),
            final(self)@ == old(self)@.with_fast_mode(enabled),
    {
        let _ = self.composer.update(ComposerEvent::SetFastMode(enabled));
    }

    /// Sets how many subagents may run.
    pub fn set_max_subagents(&mut self, limit: usize)
        requires
            old(self).wf(),
        ensures
            final(self).wf(),
            final(self)@ == (Root {
                subagents: Forest { max_subagents: limit, ..old(self)@.subagents },
                ..old(self)@
            }),
    {
        self.subagents.set_max_subagents(limit);
    }

    /// Starts the session anew, with its settings.
    pub fn reset_session(&mut self, workspace: String, thinking: ReasoningEffort, now: u64)
        requires
            old(self).wf(),
        ensures
            final(self).wf(),
            final(self)@ == old(self)@.reset(workspace@, thinking, now as int),
    {
        let fork_available: bool = self.fork_available;
        let theme_mode = self.theme_mode;
        let max_subagents: usize = self.subagents.max_subagents();
        *self = RootNode::new(workspace, self.copy_home(), thinking, now);
        self.fork_available = fork_available;
        self.theme_mode = theme_mode;
        self.set_max_subagents(max_subagents);
    }

    /// Resumes a session from its records.
    pub fn restore_session(
        &mut self,
        workspace: String,
        thinking: ReasoningEffort,
        fast_mode: bool,
        records: Vec<RestoredRecord>,
        now: u64,
    )
        requires
            old(self).wf(),
        ensures
            final(self).wf(),
            final(self)@ == (Root {
                thread: ThreadState::Started,
                ..old(self)@.reset(workspace@, thinking, now as int).with_fast_mode(
                    fast_mode,
                ).replayed(records@, records@.len() as int)
            }),
    {
        self.reset_session(workspace, thinking, now);
        self.set_fast_mode(fast_mode);
        let ghost start = self@;
        let ghost all = records@;
        let mut rest = records;
        let ghost mut n: int = 0;
        while rest.len() > 0
            invariant
                self.wf(),
                0 <= n <= all.len(),
                rest@ == all.skip(n),
                self@ == start.replayed(all, n),
            decreases rest@.len(),
        {
            assert(rest@[0] == all[n]);
            let record = rest.remove(0);
            match completed_transcript_tokens(&record.record) {
                Some(tokens) => {
                    let _ = self.composer.update(ComposerEvent::ContextTokens(tokens));
                },
                None => {},
            }
            let _ = self.transcript.update(TranscriptEvent::Record(record.change));
            proof {
                n = n + 1;
                assert(rest@ =~= all.skip(n));
            }
        }
        self.thread = ThreadState::Started;
    }

    fn show_work(&mut self, status: String)
        requires
            old(self).wf(),
        ensures
            final(self).wf(),
            final(self)@ == old(self)@.busy(true, Some(status@)),
    {
        let _ = self.composer.update(
            ComposerEvent::Activity { active: true, status: Some(status) },
        );
    }

    fn show_rest(&mut self)
        requires
            old(self).wf(),
        ensures
            final(self).wf(),
            final(self)@ == old(self)@.busy(false, None),
    {
        let _ = self.composer.update(ComposerEvent::Activity { active: false, status: None });
    }

    /// Shows work, and takes no input meanwhile.
    fn begin_work(&mut self, status: String)
        requires
            old(self).wf(),
        ensures
            final(self).wf(),
            final(self)@ == old(self)@.waiting(status@),
    {
        self.overlay = None;
        self.interactive = false;
        self.show_work(status);
    }

    /// Takes input again.
    pub(crate) fn end_work(&mut self)
        requires
            old(self).wf(),
        ensures
            final(self).wf(),
            final(self)@ == old(self)@.resumed(),
    {
        self.interactive = true;
        self.show_rest();
    }

    /// Hands an event to the transcript, and its activity to the composer.
    pub fn update_transcript(&mut self, event: TranscriptEvent) -> (update: ComponentUpdate<
        RootEffect,
    >)
        requires
            old(self).wf(),
        ensures
            final(self).steps(update, old(self)@.heard(event)),
    {
        proof {
            reveal(Root::heard);
        }
        let told = self.transcript.update(event);
        let render = told.render;
        let mut effects = told.effects;
        match effects.pop() {
            None => quiet(render),
            Some(effect) => {
                let composer = self.composer.update(
                    ComposerEvent::Activity { active: effect.active, status: effect.status },
                );
                if composer.changed {
                    quiet(render.max(RenderRequest::Streaming))
                } else {
                    quiet(render)
                }
            },
        }
    }

    /// Hands an event to the composer. A prompt that it submits is sent, or waits in the queue.
    pub fn update_composer(&mut self, event: ComposerEvent, priority: RenderRequest) -> (update:
        ComponentUpdate<RootEffect>)
        requires
            old(self).wf(),
        ensures
            final(self).steps(update, old(self)@.typed(event, priority)),
    {
        proof {
            reveal(Root::typed);
        }
        let ghost before = self@;
        let ghost reaction = before.composer.on_event(event);
        let answer = self.composer.update(event);
        self.settle(answer, priority, Ghost(before), Ghost(reaction))
    }

    /// Does what the composer asks for after it took an event.
    fn settle(
        &mut self,
        answer: ComposerUpdate,
        priority: RenderRequest,
        Ghost(before): Ghost<Root>,
        Ghost(reaction): Ghost<Reaction>,
    ) -> (update: ComponentUpdate<RootEffect>)
        requires
            old(self).wf(),
            old(self)@ == (Root { composer: reaction.model, ..before }),
            answer.request() == reaction.effect,
            answer.changed == reaction.changed,
        ensures
            final(self).steps(update, before.reacted(reaction, priority)),
    {
        let ComposerUpdate { effect, changed } = answer;
        let render = if changed {
            priority
        } else {
            RenderRequest::Idle
        };
        match effect {
            None => quiet(render),
            Some(ComposerEffect::OpenDraftEditor) => asking(RootEffect::OpenDraftEditor, render),
            Some(ComposerEffect::RunShell(command)) => {
                self.in_flight_shells = self.in_flight_shells.saturating_add(1);
                asking(RootEffect::RunShell(command), render)
            },
            Some(ComposerEffect::Submit(prompt)) => {
                self.thread = ThreadState::Started;
                let followed = self.transcript.update(TranscriptEvent::FollowTail);
                let render = render.max(followed.render);
                if self.in_flight_turns > 0 || self.queue.has_pending_steer() {
                    self.queue.push(prompt);
                    return quiet(render);
                }
                self.in_flight_turns = self.in_flight_turns.saturating_add(1);
                asking(RootEffect::Submit(prompt), render)
            },
        }
    }

    /// Puts a text in place of another one in the draft.
    fn replace_range(&mut self, start: usize, end: usize, text: String) -> (update:
        ComponentUpdate<RootEffect>)
        requires
            old(self).wf(),
        ensures
            final(self).steps(update, old(self)@.exchanged(start as int, end as int, text@)),
    {
        proof {
            reveal(Root::typed);
            reveal(Root::exchanged);
        }
        self.update_composer(
            ComposerEvent::ReplaceRange { start, end, text },
            RenderRequest::Immediate,
        )
    }

    /// Clears the draft.
    pub(crate) fn clear_draft(&mut self) -> (update: ComponentUpdate<RootEffect>)
        requires
            old(self).wf(),
        ensures
            final(self).steps(update, old(self)@.blanked()),
    {
        proof {
            reveal(Root::typed);
            reveal(Root::blanked);
        }
        self.update_composer(
            ComposerEvent::ReplaceDraft(String::new()),
            RenderRequest::Immediate,
        )
    }

    /// Submits the prompts that wait, unless a turn goes on.
    pub fn submit_next_queued(&mut self) -> (update: ComponentUpdate<RootEffect>)
        requires
            old(self).wf(),
        ensures
            final(self).steps(update, old(self)@.released()),
    {
        proof {
            reveal(Root::released);
        }
        if self.in_flight_turns > 0 || self.queue.has_pending_steer() {
            return quiet(RenderRequest::Immediate);
        }
        let prompts = self.queue.drain_ready();
        if prompts.len() == 0 {
            return quiet(RenderRequest::Immediate);
        }
        self.in_flight_turns = 1;
        asking(RootEffect::Submit(Submission::join(prompts)), RenderRequest::Immediate)
    }

    /// A turn ended.
    pub fn turn_finished(&mut self) -> (update: ComponentUpdate<RootEffect>)
        requires
            old(self).wf(),
        ensures
            final(self).steps(update, old(self)@.on_turn_finished()),
    {
        proof {
            reveal(Root::on_turn_finished);
        }
        self.in_flight_turns = self.in_flight_turns.saturating_sub(1);
        self.submit_next_queued()
    }

    /// The turns were interrupted.
    pub fn turns_cancelled(&mut self) -> (update: ComponentUpdate<RootEffect>)
        requires
            old(self).wf(),
        ensures
            final(self).steps(update, old(self)@.on_turns_cancelled()),
    {
        proof {
            reveal(Root::on_turns_cancelled);
        }
        self.queue.cancel_steers();
        quiet(RenderRequest::Immediate)
    }

    /// The agent took a prompt that was sent into the turn.
    pub fn steer_admitted(&mut self, id: u64) -> (update: ComponentUpdate<RootEffect>)
        requires
            old(self).wf(),
        ensures
            final(self).steps(update, old(self)@.on_admitted(id)),
    {
        proof {
            reveal(Root::on_admitted);
        }
        let applied = self.queue.steer_admitted(id);
        self.finish_applied_steer(applied)
    }

    /// A prompt that was sent into the turn became a turn of its own.
    pub fn steer_promoted(&mut self, id: u64) -> (update: ComponentUpdate<RootEffect>)
        requires
            old(self).wf(),
        ensures
            final(self).steps(update, old(self)@.on_promoted(id)),
    {
        proof {
            reveal(Root::on_promoted);
        }
        self.queue.steer_promoted(id);
        self.in_flight_turns = self.in_flight_turns.saturating_add(1);
        quiet(RenderRequest::Immediate)
    }

    /// A prompt could not be sent into the turn.
    pub fn steer_failed(&mut self, id: u64) -> (update: ComponentUpdate<RootEffect>)
        requires
            old(self).wf(),
        ensures
            final(self).steps(update, old(self)@.on_failed(id)),
    {
        proof {
            reveal(Root::on_failed);
        }
        self.queue.steer_failed(id);
        self.submit_next_queued()
    }

    /// The agent applied a prompt that was sent into the turn.
    pub fn steer_applied(&mut self) -> (update: ComponentUpdate<RootEffect>)
        requires
            old(self).wf(),
        ensures
            final(self).steps(update, old(self)@.on_applied()),
    {
        proof {
            reveal(Root::on_applied);
        }
        let applied = self.queue.steer_applied();
        self.finish_applied_steer(applied)
    }

    /// Keeps a prompt that was applied, and goes on with the prompts that wait.
    pub fn finish_applied_steer(&mut self, applied: Option<Submission>) -> (update:
        ComponentUpdate<RootEffect>)
        requires
            old(self).wf(),
        ensures
            final(self).steps(update, old(self)@.persisted(prompt_view(applied))),
    {
        proof {
            reveal(Root::persisted);
        }
        let mut update = self.submit_next_queued();
        match applied {
            None => {},
            Some(prompt) => {
                let ghost before = update.effects@;
                let effect = RootEffect::PersistSteer(prompt.display_text().to_owned());
                update.effects.insert(0, effect);
                assert(requests(update.effects@) =~= seq![effect@] + requests(before));
            },
        }
        update
    }

    /// Puts a prompt back that was edited.
    pub fn restore_queued(&mut self, index: usize, text: String) -> (update: ComponentUpdate<
        RootEffect,
    >)
        requires
            old(self).wf(),
        ensures
            final(self).steps(update, old(self)@.on_restored(index as int, text@)),
    {
        proof {
            reveal(Root::on_restored);
        }
        if trim(text.as_str()).is_empty() {
            return quiet(RenderRequest::Immediate);
        }
        if self.in_flight_turns == 0 && !self.queue.has_pending_steer() {
            self.in_flight_turns = 1;
            return asking(
                RootEffect::Submit(Submission::plain_text(text)),
                RenderRequest::Immediate,
            );
        }
        self.queue.restore(index, text);
        quiet(RenderRequest::Immediate)
    }

    /// Hands an event to the queue.
    pub fn update_queue(&mut self, event: &Event) -> (update: ComponentUpdate<RootEffect>)
        requires
            old(self).wf(),
        ensures
            final(self).steps(update, old(self)@.on_queue(*event)),
    {
        proof {
            reveal(Root::on_queue);
        }
        let answer = self.queue.update(event);
        let render = answer.render;
        let mut effects = answer.effects;
        match effects.pop() {
            Some(QueueEffect::Edit { index, text }) => asking(
                RootEffect::OpenQueueEditor { index, text },
                render,
            ),
            Some(QueueEffect::Steer { id, prompt }) => asking(
                RootEffect::Steer { id, prompt },
                render,
            ),
            Some(QueueEffect::Blur) => quiet(render),
            None => quiet(render),
        }
    }

    /// Moves the focus between the queue and the composer.
    pub fn update_focus(&mut self) -> (update: ComponentUpdate<RootEffect>)
        requires
            old(self).wf(),
        ensures
            final(self).steps(update, old(self)@.refocused()),
    {
        proof {
            reveal(Root::refocused);
        }
        let focus_queue: bool = !self.queue.focused() && !self.queue.is_empty();
        self.queue.set_focused(focus_queue);
        let blurred = self.transcript.update(TranscriptEvent::BlurTools);
        quiet(
            if focus_queue || blurred.render != RenderRequest::Idle {
                RenderRequest::Immediate
            } else {
                RenderRequest::Idle
            },
        )
    }

    /// The escape key: pressed twice in time, it interrupts.
    pub fn update_escape_chord(&mut self, now: u64) -> (update: ComponentUpdate<RootEffect>)
        requires
            old(self).wf(),
        ensures
            final(self).steps(update, old(self)@.chord(now as int)),
    {
        proof {
            reveal(Root::chord);
        }
        match self.escape_deadline {
            Some(deadline) => {
                if now <= deadline {
                    self.escape_deadline = None;
                    return asking(RootEffect::CancelTurns, RenderRequest::Idle);
                }
            },
            None => {},
        }
        self.escape_deadline = Some(now.saturating_add(crate::root::ESCAPE_CHORD_TIMEOUT_MS));
        quiet(RenderRequest::Idle)
    }

    /// Opens the selector of the effort.
    pub fn open_effort(&mut self) -> (update: ComponentUpdate<RootEffect>)
        requires
            old(self).wf(),
        ensures
            final(self).steps(update, old(self)@.effort_opened()),
    {
        proof {
            reveal(Root::effort_opened);
        }
        self.overlay = Some(Overlay::Effort(EffortSelector::new(self.composer.effort())));
        quiet(RenderRequest::Immediate)
    }

    /// Asks for a fork.
    pub fn open_fork(&mut self) -> (update: ComponentUpdate<RootEffect>)
        requires
            old(self).wf(),
        ensures
            final(self).steps(update, old(self)@.forked()),
    {
        proof {
            reveal(Root::forked);
        }
        if !self.fork_available {
            return quiet(RenderRequest::Idle);
        }
        self.overlay = None;
        asking(RootEffect::Fork, RenderRequest::Immediate)
    }

    /// Asks for a new session, unless work goes on.
    pub fn open_new_session(&mut self) -> (update: ComponentUpdate<RootEffect>)
        requires
            old(self).wf(),
        ensures
            final(self).steps(update, old(self)@.renewed()),
    {
        proof {
            reveal(Root::renewed);
        }
        if self.in_flight_turns > 0 || self.in_flight_shells > 0 || !self.queue.is_empty() {
            return quiet(RenderRequest::Idle);
        }
        self.begin_work("Starting new session…".to_owned());
        asking(RootEffect::NewSession, RenderRequest::Immediate)
    }

    /// Asks for the sessions that can be resumed.
    pub fn load_sessions(&mut self) -> (update: ComponentUpdate<RootEffect>)
        requires
            old(self).wf(),
        ensures
            final(self).steps(update, old(self)@.sessions_wanted()),
    {
        proof {
            reveal(Root::sessions_wanted);
        }
        self.begin_work("Loading sessions…".to_owned());
        asking(RootEffect::LoadSessions, RenderRequest::Immediate)
    }

    /// Offers the sessions that can be resumed.
    pub fn sessions_loaded(&mut self, sessions: Vec<SessionSummary>) -> (update: ComponentUpdate<
        RootEffect,
    >)
        requires
            old(self).wf(),
        ensures
            final(self).steps(update, old(self)@.sessions_offered(sessions@)),
    {
        proof {
            reveal(Root::sessions_offered);
        }
        self.end_work();
        let picker = SessionPicker::new(sessions);
        self.overlay = Some(Overlay::Sessions(picker));
        quiet(RenderRequest::Immediate)
    }

    /// Tells that the sessions could not be loaded.
    pub fn session_load_failed(&mut self, message: String, now: u64) -> (update: ComponentUpdate<
        RootEffect,
    >)
        requires
            old(self).wf(),
        ensures
            final(self).steps(update, old(self)@.on_load_failed(message@, now as int)),
    {
        proof {
            reveal(Root::on_load_failed);
        }
        self.end_work();
        self.notification = Some(Notification::plain(message, Tone::Red, now));
        quiet(RenderRequest::Immediate)
    }

    /// Tells that no new session could be started.
    pub fn new_session_failed(&mut self, message: String, now: u64) -> (update: ComponentUpdate<
        RootEffect,
    >)
        requires
            old(self).wf(),
        ensures
            final(self).steps(update, old(self)@.on_new_session_failed(message@, now as int)),
    {
        proof {
            reveal(Root::on_new_session_failed);
        }
        self.end_work();
        let text = concat("Could not start a new session: ", message.as_str());
        self.notification = Some(Notification::plain(text, Tone::Red, now));
        quiet(RenderRequest::Immediate)
    }

    /// The fork is ready for input.
    pub fn fork_ready(&mut self) -> (update: ComponentUpdate<RootEffect>)
        requires
            old(self).wf(),
        ensures
            final(self).steps(update, old(self)@.resumed().shown()),
    {
        self.end_work();
        quiet(RenderRequest::Immediate)
    }
}

impl RootNode {
    /// Hands an event to the actions menu, which stands in place of the overlay.
    pub fn update_actions(&mut self, menu: ActionsMenu, event: Event) -> (update: ComponentUpdate<
        RootEffect,
    >)
        requires
            old(self).wf(),
            menu@.wf(),
        ensures
            final(self).steps(update, old(self)@.on_actions(menu@, event)),
    {
        proof {
            reveal(Root::on_actions);
        }
        let mut menu = menu;
        let answer = menu.update(ActionsEvent::Terminal(event));
        let render = answer.render;
        let mut effects = answer.effects;
        self.overlay = Some(Overlay::Actions(menu));
        match effects.pop() {
            None => quiet(render),
            Some(ActionsEffect::Dismiss) => {
                self.overlay = None;
                quiet(render)
            },
            Some(ActionsEffect::Trigger(action)) => self.trigger(action, render),
        }
    }

    /// Does what an entry of the actions menu says.
    pub fn trigger(&mut self, action: Action, render: RenderRequest) -> (update: ComponentUpdate<
        RootEffect,
    >)
        requires
            old(self).wf(),
        ensures
            final(self).steps(update, old(self)@.triggered(action, render)),
    {
        proof {
            reveal(Root::triggered);
        }
        match action {
            Action::Subagents => {
                self.overlay = Some(Overlay::Subagents(SubagentOverlay::Tree));
                quiet(render)
            },
            Action::Effort => self.open_effort(),
            Action::FastMode => {
                self.overlay = None;
                let enabled: bool = !self.composer.fast_mode();
                self.set_fast_mode(enabled);
                asking(RootEffect::SetFastMode(enabled), RenderRequest::Immediate)
            },
            Action::Theme => {
                self.overlay = Some(Overlay::Theme(ThemeSelector::new(self.theme_mode)));
                quiet(render)
            },
            Action::NewSession => self.open_new_session(),
            Action::ResumeSession => self.load_sessions(),
            Action::Fork => self.open_fork(),
            Action::Keybindings => {
                self.overlay = Some(Overlay::Keybindings(KeybindingsHelp));
                quiet(render)
            },
            Action::ReloadConfig => {
                self.overlay = None;
                asking(RootEffect::ReloadConfig, RenderRequest::Immediate)
            },
            Action::EditConfig => {
                self.overlay = None;
                asking(RootEffect::OpenConfigEditor, RenderRequest::Immediate)
            },
        }
    }

    /// Hands an event to the selector of the effort.
    pub fn update_effort(&mut self, selector: EffortSelector, event: &Event) -> (update:
        ComponentUpdate<RootEffect>)
        requires
            old(self).wf(),
        ensures
            final(self).steps(update, old(self)@.on_effort(selector, *event)),
    {
        proof {
            reveal(Root::on_effort);
        }
        let mut selector = selector;
        let answer = selector.update(event);
        let render = answer.render;
        let mut effects = answer.effects;
        match effects.pop() {
            None => {
                self.overlay = Some(Overlay::Effort(selector));
                quiet(render)
            },
            Some(EffortEffect::Dismiss) => {
                self.overlay = None;
                quiet(RenderRequest::Immediate)
            },
            Some(EffortEffect::Apply(effort)) => {
                self.overlay = None;
                self.transcript.set_effort(effort);
                self.subagents.set_effort(effort);
                let _ = self.composer.update(ComposerEvent::SetEffort(effort));
                asking(RootEffect::SetEffort(effort), RenderRequest::Immediate)
            },
        }
    }

    /// Hands an event to the selector of the theme.
    pub fn update_theme_selector(&mut self, selector: ThemeSelector, event: &Event) -> (update:
        ComponentUpdate<RootEffect>)
        requires
            old(self).wf(),
        ensures
            final(self).steps(update, old(self)@.on_theme(selector, *event)),
    {
        proof {
            reveal(Root::on_theme);
        }
        let mut selector = selector;
        let answer = selector.update(event);
        let render = answer.render;
        let mut effects = answer.effects;
        match effects.pop() {
            None => {
                self.overlay = Some(Overlay::Theme(selector));
                quiet(render)
            },
            Some(ThemeSelectorEffect::Dismiss) => {
                self.overlay = None;
                quiet(RenderRequest::Immediate)
            },
            Some(ThemeSelectorEffect::Apply(mode)) => {
                self.overlay = None;
                asking(RootEffect::SetTheme(mode), RenderRequest::Immediate)
            },
        }
    }

    /// Hands an event to the list of shortcuts.
    pub fn update_keybindings(&mut self, event: Event) -> (update: ComponentUpdate<RootEffect>)
        requires
            old(self).wf(),
            old(self)@.overlay == Some(crate::root::Cover::Keybindings),
        ensures
            final(self).steps(update, old(self)@.on_help(event)),
    {
        proof {
            reveal(Root::on_help);
        }
        let mut help = KeybindingsHelp;
        let answer = help.update(KeybindingsEvent::Terminal(event));
        if answer.effects.len() > 0 {
            self.overlay = None;
        }
        quiet(answer.render)
    }

    /// Hands an event to the picker of sessions.
    pub fn update_session_picker(&mut self, picker: SessionPicker, event: Event) -> (update:
        ComponentUpdate<RootEffect>)
        requires
            old(self).wf(),
            picker@.wf(),
        ensures
            final(self).steps(update, old(self)@.on_sessions(picker@, event)),
    {
        proof {
            reveal(Root::on_sessions);
        }
        let mut picker = picker;
        let answer = picker.update(SessionPickerEvent::Terminal(event));
        let render = answer.render;
        let mut effects = answer.effects;
        match effects.pop() {
            None => {
                self.overlay = Some(Overlay::Sessions(picker));
                quiet(render)
            },
            Some(SessionPickerEffect::Dismiss) => {
                self.overlay = None;
                quiet(RenderRequest::Immediate)
            },
            Some(SessionPickerEffect::Resume(session)) => {
                self.begin_work("Resuming session…".to_owned());
                asking(RootEffect::ResumeSession(session), RenderRequest::Immediate)
            },
        }
    }

    /// Does what the tree of subagents asks for.
    pub fn apply_subagent_effect(&mut self, effect: Option<SubagentEffect>) -> (update:
        ComponentUpdate<RootEffect>)
        requires
            old(self).wf(),
        ensures
            final(self).steps(update, old(self)@.on_subagents(request_view(effect))),
    {
        proof {
            reveal(Root::on_subagents);
        }
        match effect {
            Some(SubagentEffect::Dismiss) => {
                self.overlay = None;
            },
            Some(SubagentEffect::Inspect(id)) => {
                self.overlay = Some(Overlay::Subagents(SubagentOverlay::Transcript(id)));
            },
            Some(SubagentEffect::Back) => {
                self.overlay = Some(Overlay::Subagents(SubagentOverlay::Tree));
            },
            Some(SubagentEffect::OpenLink(destination)) => {
                return asking(RootEffect::OpenLink(destination), RenderRequest::Idle);
            },
            Some(SubagentEffect::SetMaxSubagents(limit)) => {
                return asking(RootEffect::SetMaxSubagents(limit), RenderRequest::Immediate);
            },
            None => {},
        }
        quiet(RenderRequest::Immediate)
    }

    fn file_mention_query(&self, start: usize) -> (query: Option<String>)
        requires
            self.wf(),
        ensures
            crate::composer::option_view(query) == self@.mention_query(start as int),
    {
        proof {
            reveal(Root::mention_query);
        }
        let text = self.composer.draft();
        let cursor: usize = self.composer.cursor();
        if start > cursor || !offset_at(text, start) || !offset_at(text, cursor) {
            return None;
        }
        let part = slice(text, start, cursor);
        if !starts_with(part, '@') {
            return None;
        }
        let rest: String = without_first(part);
        Some(rest)
    }

    /// Hands an event to the file finder, or to the draft that its query stands in.
    pub fn update_file_finder(&mut self, mention: FileMention, event: Event) -> (update:
        ComponentUpdate<RootEffect>)
        requires
            old(self).wf(),
            mention.finder@.wf(),
        ensures
            final(self).steps(
                update,
                old(self)@.on_finder(mention.finder@, mention.start as int, event),
            ),
    {
        proof {
            reveal(Root::on_finder);
        }
        let start: usize = mention.start;
        let mut finder = mention.finder;
        let ghost before = finder@;
        if is_file_mention_edit(&event) {
            let keep_open: bool = file_mention_edit_continues_query(&event);
            let update = self.update_composer(
                ComposerEvent::Terminal(event),
                RenderRequest::Immediate,
            );
            let query: Option<String> = if keep_open {
                self.file_mention_query(start)
            } else {
                None
            };
            match query {
                None => {
                    self.overlay = None;
                },
                Some(query) => {
                    let ghost wanted = query@;
                    let _ = finder.update(FileFinderEvent::Query(query));
                    proof {
                        lemma_after(before, finder@, before.searching(wanted));
                    }
                    self.overlay = Some(Overlay::FileFinder(FileMention { finder, start }));
                },
            }
            return update;
        }
        if !is_file_finder_navigation(&event) {
            let update = self.update_composer(
                ComposerEvent::Terminal(event),
                RenderRequest::Immediate,
            );
            self.overlay = None;
            return update;
        }
        let answer = finder.update(FileFinderEvent::Terminal(event));
        proof {
            lemma_after(before, finder@, before.on_event(FileFinderEvent::Terminal(event)));
        }
        let render = answer.render;
        let mut effects = answer.effects;
        match effects.pop() {
            None => {
                self.overlay = Some(Overlay::FileFinder(FileMention { finder, start }));
                quiet(render)
            },
            Some(FileFinderEffect::Dismiss) => {
                self.overlay = None;
                quiet(RenderRequest::Immediate)
            },
            Some(FileFinderEffect::Insert(path)) => {
                self.overlay = None;
                let end: usize = self.composer.cursor();
                let text = concat(concat("@", path.as_str()).as_str(), " ");
                self.replace_range(start, end, text)
            },
        }
    }

    /// Hands an event to what lies over the session.
    pub fn update_overlay(&mut self, event: Event) -> (update: ComponentUpdate<RootEffect>)
        requires
            old(self).wf(),
        ensures
            final(self).steps(update, old(self)@.on_overlay(event)),
    {
        proof {
            reveal(Root::on_overlay);
        }
        match self.overlay.take() {
            None => quiet(RenderRequest::Idle),
            Some(Overlay::Actions(menu)) => self.update_actions(menu, event),
            Some(Overlay::Effort(selector)) => self.update_effort(selector, &event),
            Some(Overlay::Theme(selector)) => self.update_theme_selector(selector, &event),
            Some(Overlay::FileFinder(mention)) => self.update_file_finder(mention, event),
            Some(Overlay::Keybindings(help)) => {
                self.overlay = Some(Overlay::Keybindings(help));
                self.update_keybindings(event)
            },
            Some(Overlay::Sessions(picker)) => self.update_session_picker(picker, event),
            Some(Overlay::Subagents(SubagentOverlay::Tree)) => {
                self.overlay = Some(Overlay::Subagents(SubagentOverlay::Tree));
                let effect = self.subagents.update_tree(&event);
                self.apply_subagent_effect(effect)
            },
            Some(Overlay::Subagents(SubagentOverlay::Transcript(id))) => {
                self.overlay = Some(Overlay::Subagents(SubagentOverlay::Transcript(id)));
                let effect = self.subagents.update_transcript(id, &event);
                self.apply_subagent_effect(effect)
            },
        }
    }
}

/// A string without its first character.
fn without_first(text: &str) -> (rest: String)
    requires
        text@.len() > 0,
    ensures
        rest@ == text@.skip(1),
{
    let chars = characters(text);
    let mut rest = String::new();
    let mut i: usize = 1;
    while i < chars.len()
        invariant
            chars@ == text@,
            1 <= i <= chars@.len(),
            rest@ == text@.subrange(1, i as int),
        decreases chars@.len() - i,
    {
        rest.push(chars[i]);
        i = i + 1;
        assert(rest@ =~= text@.subrange(1, i as int));
    }
    assert(text@.skip(1) =~= text@.subrange(1, text@.len() as int));
    rest
}

} // verus!
