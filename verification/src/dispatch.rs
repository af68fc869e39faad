//! The events of a session, sorted by what has the focus.

use crate::actions::{ActionAvailability, ActionsMenu};
use crate::composer::{ComposerChromeTarget, ComposerEvent};
use crate::draw::Tone;
use crate::event::{Event, MouseButton, MouseEvent, MouseKind};
use crate::file_finder::{lemma_opened, FileFinder};
use crate::geometry::{clamp_to, Position, Rect};
use crate::input::{
    is_actions_trigger, is_control_c, is_control_key, is_escape, is_file_finder_trigger,
    is_focus_toggle, is_left_click_in, is_plain_enter,
};
use crate::node::{ComponentUpdate, RenderRequest};
use crate::order::texts;
use crate::root::{
    requests, FileMention, MouseStep, Notification, Overlay, Root, RootEffect, RootEvent,
    RootNode, Waves,
};
use crate::routing::{asking, quiet};
use crate::selection::Surface;
use crate::subagents::{AgentUpdate, SubagentOverlay};
use crate::text::same;
use crate::transcript::{Change, TranscriptEvent};
use vstd::prelude::*;

verus! {

impl RootNode {
    /// The surface at a cell.
    pub fn surface_at(&self, position: Position) -> (found: Option<(Surface, Rect)>)
        ensures
            found == self@.surface_at(position),
    {
        if self.composer_content_area.contains(position) {
            return Some((Surface::Composer, self.composer_content_area));
        }
        if self.transcript_area.contains(position) {
            Some((Surface::Transcript, self.transcript_area))
        } else {
            None
        }
    }

    /// The area of the selection.
    pub fn selection_area(&self) -> (area: Option<Rect>)
        ensures
            area == self@.selection_area(),
    {
        match self.selection.surface() {
            None => None,
            Some(Surface::Transcript) => Some(self.transcript_area),
            Some(Surface::Composer) => Some(self.composer_content_area),
        }
    }

    fn press_mouse(&mut self, mouse: MouseEvent) -> (outcome: MouseStep)
        requires
            old(self).wf(),
        ensures
            final(self).goes(outcome, old(self)@.on_press(mouse)),
    {
        proof {
            reveal(Root::on_press);
        }
        let position = Position { x: mouse.column, y: mouse.row };
        match self.surface_at(position) {
            None => MouseStep::Go(Event::Mouse(mouse)),
            Some((surface, area)) => {
                self.selection.begin(surface, clamp_to(position, area));
                MouseStep::Done(quiet(RenderRequest::Immediate))
            },
        }
    }

    fn drag_mouse(&mut self, mouse: MouseEvent) -> (outcome: MouseStep)
        requires
            old(self).wf(),
        ensures
            final(self).goes(outcome, old(self)@.on_drag(mouse)),
    {
        proof {
            reveal(Root::on_drag);
        }
        let position = Position { x: mouse.column, y: mouse.row };
        match self.selection_area() {
            None => MouseStep::Go(Event::Mouse(mouse)),
            Some(area) => {
                let _ = self.selection.drag(position, area);
                MouseStep::Done(quiet(RenderRequest::Immediate))
            },
        }
    }

    fn release_mouse(&mut self, mouse: MouseEvent) -> (outcome: MouseStep)
        requires
            old(self).wf(),
        ensures
            final(self).goes(outcome, old(self)@.on_release(mouse)),
    {
        proof {
            reveal(Root::on_release);
        }
        let position = Position { x: mouse.column, y: mouse.row };
        match self.selection_area() {
            None => MouseStep::Go(Event::Mouse(mouse)),
            Some(area) => {
                if !self.selection.finish(position, area) {
                    let click = MouseEvent {
                        kind: MouseKind::Down(MouseButton::Left),
                        column: mouse.column,
                        row: mouse.row,
                        modifiers: mouse.modifiers,
                    };
                    return MouseStep::Go(Event::Mouse(click));
                }
                match self.selection.take_text() {
                    Some(text) => MouseStep::Done(
                        asking(RootEffect::Copy(text), RenderRequest::Immediate),
                    ),
                    None => MouseStep::Done(quiet(RenderRequest::Immediate)),
                }
            },
        }
    }

    /// The selection follows the mouse.
    pub fn update_selection_mouse(&mut self, event: Event) -> (outcome: MouseStep)
        requires
            old(self).wf(),
        ensures
            final(self).goes(outcome, old(self)@.on_mouse(event)),
    {
        proof {
            reveal(Root::on_mouse);
        }
        let mouse: MouseEvent = match &event {
            Event::Mouse(mouse) => *mouse,
            _ => return MouseStep::Go(event),
        };
        match mouse.kind {
            MouseKind::Down(MouseButton::Left) => self.press_mouse(mouse),
            MouseKind::Drag(MouseButton::Left) => self.drag_mouse(mouse),
            MouseKind::Up(MouseButton::Left) => self.release_mouse(mouse),
            _ => MouseStep::Go(event),
        }
    }

    /// The part of the composer's border that an event clicks on.
    pub fn clicked_chrome(&self, event: &Event) -> (target: Option<ComposerChromeTarget>)
        ensures
            target == self@.clicked(*event),
    {
        proof {
            reveal(Root::clicked);
        }
        match event {
            Event::Mouse(mouse) => if mouse.kind == MouseKind::Down(MouseButton::Left) {
                self.composer.chrome_target(Position { x: mouse.column, y: mouse.row })
            } else {
                None
            },
            _ => None,
        }
    }

    /// The escape key.
    pub fn update_escape(&mut self, event: &Event, now: u64) -> (update: ComponentUpdate<
        RootEffect,
    >)
        requires
            old(self).wf(),
        ensures
            final(self).steps(update, old(self)@.on_escape(*event, now as int)),
    {
        proof {
            reveal(Root::on_escape);
        }
        if self.selection.clear() {
            return quiet(RenderRequest::Immediate);
        }
        if self.queue.focused() {
            return self.update_queue(event);
        }
        if self.transcript.tools_focused() {
            self.escape_deadline = None;
            return self.update_transcript(TranscriptEvent::BlurTools);
        }
        self.update_escape_chord(now)
    }

    fn open_actions(&mut self) -> (update: ComponentUpdate<RootEffect>)
        requires
            old(self).wf(),
        ensures
            final(self).steps(update, old(self)@.menu_opened()),
    {
        proof {
            reveal(Root::menu_opened);
        }
        let new_session: bool = self.in_flight_turns == 0 && self.in_flight_shells == 0
            && self.queue.is_empty();
        let menu = ActionsMenu::new(
            ActionAvailability { new_session, fork: self.fork_available },
        );
        self.overlay = Some(Overlay::Actions(menu));
        quiet(RenderRequest::Immediate)
    }

    fn open_file_mention(&mut self, event: Event, files: Vec<String>) -> (update: ComponentUpdate<
        RootEffect,
    >)
        requires
            old(self).wf(),
        ensures
            final(self).steps(update, old(self)@.mention_opened(event, texts(files@))),
    {
        proof {
            reveal(Root::mention_opened);
        }
        let start: usize = self.composer.cursor();
        let update = self.update_composer(
            ComposerEvent::Terminal(event),
            RenderRequest::Immediate,
        );
        let ghost paths = texts(files@);
        let finder = FileFinder::new(files);
        proof {
            lemma_opened(finder@, paths);
        }
        self.overlay = Some(Overlay::FileFinder(FileMention { finder, start }));
        update
    }

    /// An event that goes to the queue, the menus, the transcript or the composer.
    pub fn update_keyboard(&mut self, event: Event, files: Vec<String>) -> (update:
        ComponentUpdate<RootEffect>)
        requires
            old(self).wf(),
        ensures
            final(self).steps(update, old(self)@.on_keyboard(event, texts(files@))),
    {
        proof {
            reveal(Root::on_keyboard);
        }
        if self.queue.focused() {
            return self.update_queue(&event);
        }
        let blank: bool = self.composer.draft().is_empty();
        if self.in_flight_turns > 0 && blank && !self.queue.is_empty()
            && !self.queue.has_pending_steer() && is_plain_enter(&event) {
            return self.update_queue(&event);
        }
        if is_file_finder_trigger(&event) && self.composer.cursor_is_at_token_boundary() {
            return self.open_file_mention(event, files);
        }
        if blank && is_actions_trigger(&event) {
            return self.open_actions();
        }
        match self.transcript.scroll_command(&event) {
            Some(command) => {
                let scrolled = self.transcript.update(TranscriptEvent::Scroll(command));
                return quiet(scrolled.render);
            },
            None => {},
        }
        if self.transcript.tools_focused() {
            return quiet(RenderRequest::Idle);
        }
        self.update_composer(ComposerEvent::Terminal(event), RenderRequest::Immediate)
    }

    /// An event that is neither a command nor part of a selection.
    pub fn update_input(&mut self, event: Event, files: Vec<String>) -> (update: ComponentUpdate<
        RootEffect,
    >)
        requires
            old(self).wf(),
        ensures
            final(self).steps(update, old(self)@.on_input(event, texts(files@))),
    {
        proof {
            reveal(Root::on_input);
        }
        if is_left_click_in(&event, self.queue_area) {
            match &event {
                Event::Mouse(mouse) => {
                    self.queue.focus_row(mouse.row, self.queue_area);
                },
                _ => {},
            }
            let _ = self.transcript.update(TranscriptEvent::BlurTools);
            return quiet(RenderRequest::Immediate);
        }
        if is_left_click_in(&event, self.composer_area) {
            let queue_was_focused: bool = self.queue.focused();
            self.queue.set_focused(false);
            if self.transcript.tools_focused() {
                return self.update_transcript(TranscriptEvent::BlurTools);
            }
            if queue_was_focused {
                return quiet(RenderRequest::Immediate);
            }
        }
        assert(self@ == old(self)@);
        match self.transcript.tool_command(&event) {
            Some(command) => {
                self.queue.set_focused(false);
                return self.update_transcript(TranscriptEvent::Tool(command));
            },
            None => {},
        }
        self.update_keyboard(event, files)
    }

    /// An event that is no command, once the mouse had its say.
    pub fn update_rest(&mut self, event: Event, files: Vec<String>) -> (update: ComponentUpdate<
        RootEffect,
    >)
        requires
            old(self).wf(),
        ensures
            final(self).steps(update, old(self)@.on_rest(event, texts(files@))),
    {
        proof {
            reveal(Root::on_rest);
        }
        match self.transcript.link_destination(&event) {
            Some(destination) => {
                return asking(RootEffect::OpenLink(destination), RenderRequest::Idle);
            },
            None => {},
        }
        match self.clicked_chrome(&event) {
            Some(ComposerChromeTarget::Effort) => return self.open_effort(),
            Some(ComposerChromeTarget::Subagents) => {
                self.overlay = Some(Overlay::Subagents(SubagentOverlay::Tree));
                return quiet(RenderRequest::Immediate);
            },
            None => {},
        }
        self.escape_deadline = None;
        if is_focus_toggle(&event) {
            return self.update_focus();
        }
        self.update_input(event, files)
    }

    /// Control-c.
    pub fn update_control_c(&mut self) -> (update: ComponentUpdate<RootEffect>)
        requires
            old(self).wf(),
        ensures
            final(self).steps(update, old(self)@.on_control_c()),
    {
        proof {
            reveal(Root::on_control_c);
        }
        if self.overlay.is_none() && !self.queue.focused() && !self.transcript.tools_focused()
            && !self.composer.draft().is_empty() {
            return self.clear_draft();
        }
        asking(RootEffect::Shutdown, RenderRequest::Idle)
    }

    /// An event while something lies over the session.
    pub fn update_covered(&mut self, event: Event) -> (update: ComponentUpdate<RootEffect>)
        requires
            old(self).wf(),
        ensures
            final(self).steps(update, old(self)@.on_covered(event)),
    {
        proof {
            reveal(Root::on_covered);
        }
        let inspected: Option<u64> = match &self.overlay {
            Some(Overlay::Subagents(SubagentOverlay::Transcript(id))) => Some(*id),
            _ => None,
        };
        match inspected {
            Some(id) => {
                if is_control_key(&event, 'o') {
                    return if self.subagents.toggle_expand_all(id) {
                        quiet(RenderRequest::Immediate)
                    } else {
                        quiet(RenderRequest::Idle)
                    };
                }
            },
            None => {},
        }
        self.update_overlay(event)
    }

    /// Handles an event of the terminal. `files` are the paths of the workspace.
    pub fn update_terminal(&mut self, event: Event, files: Vec<String>, now: u64) -> (update:
        ComponentUpdate<RootEffect>)
        requires
            old(self).wf(),
        ensures
            final(self).steps(
                update,
                old(self)@.on_terminal(event, texts(files@), now as int),
            ),
    {
        proof {
            reveal(Root::on_terminal);
        }
        if let Event::Resize(_, _) = &event {
            let _ = self.selection.clear();
            return quiet(RenderRequest::Immediate);
        }
        if is_control_c(&event) {
            return self.update_control_c();
        }
        if !self.interactive {
            return quiet(RenderRequest::Idle);
        }
        if self.overlay.is_some() {
            return self.update_covered(event);
        }
        if is_control_key(&event, 'o') {
            return self.update_transcript(TranscriptEvent::ToggleExpandAll);
        }
        if is_control_key(&event, 's') {
            return self.open_effort();
        }
        if is_control_key(&event, 'f') || is_control_key(&event, 't') {
            return self.open_fork();
        }
        if is_escape(&event) {
            return self.update_escape(&event, now);
        }
        match self.update_selection_mouse(event) {
            MouseStep::Done(update) => update,
            MouseStep::Go(event) => self.update_rest(event, files),
        }
    }

    /// Whether an event opens the file finder, so that the paths of the workspace are needed.
    pub fn wants_files(&self, event: &Event) -> (yes: bool)
        requires
            self.wf(),
        ensures
            yes == (crate::input::types(*event, '@') && self@.composer.edit.at_token_boundary()),
    {
        is_file_finder_trigger(event) && self.composer.cursor_is_at_token_boundary()
    }

    fn effort_frame(&self, waves: Waves) -> (render: RenderRequest)
        ensures
            render == self@.effort_frame(waves),
    {
        match &self.overlay {
            Some(Overlay::Effort(_)) => waves.effort,
            _ => RenderRequest::Idle,
        }
    }

    /// Shows the next frame of the animations.
    pub fn update_animation(&mut self, waves: Waves, now: u64) -> (update: ComponentUpdate<
        RootEffect,
    >)
        requires
            old(self).wf(),
        ensures
            final(self).steps(update, old(self)@.on_frame(waves, now)),
    {
        proof {
            reveal(Root::on_frame);
        }
        match self.escape_deadline {
            Some(deadline) => {
                if now >= deadline {
                    self.escape_deadline = None;
                }
            },
            None => {},
        }
        let effort: RenderRequest = self.effort_frame(waves);
        let transcript = self.update_transcript(TranscriptEvent::AnimationFrame(now));
        let composer = self.update_composer(
            ComposerEvent::AnimationFrame {
                activity: waves.activity,
                subagents: waves.subagents,
            },
            RenderRequest::Streaming,
        );
        let passed = self.let_pass(now);
        ComponentUpdate {
            effects: composer.effects,
            render: effort.max(transcript.render).max(composer.render).max(waves.queue).max(
                passed.render,
            ),
        }
    }

    /// Lets the subagents' transcripts show their next frame, and an old notification go away.
    fn let_pass(&mut self, now: u64) -> (update: ComponentUpdate<RootEffect>)
        requires
            old(self).wf(),
        ensures
            final(self).steps(update, old(self)@.elapsed(now)),
    {
        proof {
            reveal(Root::elapsed);
        }
        let moved: bool = self.subagents.advance(now);
        let expired: bool = match &self.notification {
            Some(notice) => now >= notice.deadline,
            None => false,
        };
        if expired {
            self.notification = None;
            return quiet(RenderRequest::Immediate);
        }
        if moved {
            quiet(RenderRequest::Streaming)
        } else {
            quiet(RenderRequest::Idle)
        }
    }

    /// Takes in what happened to a subagent.
    pub fn apply_subagent_update(&mut self, update: AgentUpdate, now: u64) -> (answer:
        ComponentUpdate<RootEffect>)
        requires
            old(self).wf(),
        ensures
            final(self).steps(answer, old(self)@.on_subagent(update, now as int)),
    {
        proof {
            reveal(Root::on_subagent);
        }
        let previous_active: usize = self.subagents.active_count();
        if !self.subagents.apply(update, now) {
            return quiet(RenderRequest::Idle);
        }
        let inspected: Option<u64> = match &self.overlay {
            Some(Overlay::Subagents(SubagentOverlay::Transcript(id))) => Some(*id),
            _ => None,
        };
        match inspected {
            Some(id) => {
                if !self.subagents.contains(id) {
                    self.overlay = Some(Overlay::Subagents(SubagentOverlay::Tree));
                }
            },
            None => {},
        }
        let active: usize = self.subagents.active_count();
        if active != previous_active {
            let _ = self.composer.update(ComposerEvent::ActiveSubagents { count: active });
        }
        quiet(RenderRequest::Immediate)
    }

    fn update_record(&mut self, change: Change, steered: bool) -> (update: ComponentUpdate<
        RootEffect,
    >)
        requires
            old(self).wf(),
        ensures
            final(self).steps(update, old(self)@.on_record(change, steered)),
    {
        proof {
            reveal(Root::on_record);
        }
        let mut update = self.update_transcript(TranscriptEvent::Record(change));
        if steered {
            let mut applied = self.steer_applied();
            let ghost front = update.effects@;
            let ghost back = applied.effects@;
            update.effects.append(&mut applied.effects);
            assert(requests(update.effects@) =~= requests(front) + requests(back));
            update.render = update.render.max(applied.render);
        }
        update
    }

    /// Handles an event at a time.
    pub fn update(&mut self, event: RootEvent, now: u64) -> (update: ComponentUpdate<RootEffect>)
        requires
            old(self).wf(),
        ensures
            final(self).steps(update, old(self)@.on_event(event, now)),
    {
        proof {
            reveal(Root::on_event);
        }
        match event {
            RootEvent::Terminal { event, files } => self.update_terminal(event, files, now),
            RootEvent::PasteImage(data_url) => {
                if self.overlay.is_some() || self.queue.focused() {
                    quiet(RenderRequest::Idle)
                } else {
                    self.update_composer(
                        ComposerEvent::PasteImage(data_url),
                        RenderRequest::Immediate,
                    )
                }
            },
            RootEvent::ContextTokens(tokens) => self.update_composer(
                ComposerEvent::ContextTokens(tokens),
                RenderRequest::Streaming,
            ),
            RootEvent::Transcript { record, change } => {
                let steered: bool = same(record.kind.as_str(), "run.steered");
                self.update_record(change, steered)
            },
            RootEvent::AgentStreamClosed(change) => self.update_transcript(
                TranscriptEvent::AgentStreamClosed(change),
            ),
            RootEvent::Subagent(update) => self.apply_subagent_update(update, now),
            RootEvent::ReplaceDraft(draft) => self.update_composer(
                ComposerEvent::ReplaceDraft(draft),
                RenderRequest::Immediate,
            ),
            RootEvent::RestoreQueued { index, text } => self.restore_queued(index, text),
            RootEvent::WorkerTurnFinished => self.turn_finished(),
            RootEvent::ShellFinished => {
                self.in_flight_shells = self.in_flight_shells.saturating_sub(1);
                quiet(RenderRequest::Idle)
            },
            RootEvent::TurnsCancelled => self.turns_cancelled(),
            RootEvent::ForkReady => self.fork_ready(),
            RootEvent::NewSessionFailed(message) => self.new_session_failed(message, now),
            RootEvent::SessionsLoaded(sessions) => self.sessions_loaded(sessions),
            RootEvent::SessionLoadFailed(message) => self.session_load_failed(message, now),
            RootEvent::SessionRestored { records, effort, fast_mode } => {
                let workspace: String = self.workspace.clone();
                self.restore_session(workspace, effort, fast_mode, records, now);
                quiet(RenderRequest::Immediate)
            },
            RootEvent::NotifyError(message) => {
                self.notification = Some(Notification::plain(message, Tone::Red, now));
                quiet(RenderRequest::Immediate)
            },
            RootEvent::NotifySuccess(message) => {
                self.notification = Some(Notification::plain(message, Tone::Green, now));
                quiet(RenderRequest::Immediate)
            },
            RootEvent::UpdateAvailable(version) => {
                self.notification = Some(Notification::update_available(version.as_str(), now));
                quiet(RenderRequest::Immediate)
            },
            RootEvent::SteerAdmitted(id) => self.steer_admitted(id),
            RootEvent::SteerPromoted(id) => self.steer_promoted(id),
            RootEvent::SteerFailed { id } => self.steer_failed(id),
            RootEvent::AnimationFrame(waves) => self.update_animation(waves, now),
        }
    }
}

} // verus!
