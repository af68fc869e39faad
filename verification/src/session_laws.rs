//! What holds of a session: its keys, its mouse, its turns and its notices.

use crate::actions::Action;
use crate::composer::{Reaction, Request};
use crate::context::tokens_told;
use crate::draft_laws::{is_simple, law_typed_text_stands_at_the_cursor, lemma_index};
use crate::draw::Tone;
use crate::event::{Event, KeyCode, KeyEvent, MouseButton, MouseEvent, MouseKind};
use crate::geometry::Position;
use crate::input::{commands, types};
use crate::node::RenderRequest;
use crate::prompt::{plain, PromptModel};
use crate::root::{
    Cover, MouseOutcome, Notice, RestoredRecord, Root, RootEvent, RootRequest, ThreadState,
    BREADCRUMB_DURATION_MS,
};
use crate::selection::Surface;
use crate::selectors::{EffortSelector, ThemeSelector};
use crate::settings::ReasoningEffort;
use crate::subagents::{AgentUpdate, SubagentOverlay, SubagentRequest};
use crate::text::trimmed;
use vstd::prelude::*;

verus! {

/// A session that takes input, with nothing in front of it.
pub open spec fn is_open(root: Root) -> bool {
    root.interactive && root.overlay is None
}

/// The control key with s offers the effort, that of the session first.
pub proof fn law_control_s_offers_the_effort(
    root: Root,
    event: Event,
    files: Seq<Seq<char>>,
    now: int,
)
    requires
        is_open(root),
        commands(event, 's'),
    ensures
        ({
            let step = root.on_terminal(event, files, now);
            &&& step.root.overlay == Some(
                Cover::Effort(EffortSelector { selected: root.composer.effort }),
            )
            &&& step.effects.len() == 0
            &&& step.root.composer == root.composer
        }),
{
    reveal(Root::on_terminal);
    reveal(Root::effort_opened);
}

/// The control key with f, or with t, asks for a fork where one can be made, and for nothing
/// otherwise.
pub proof fn law_control_f_forks(root: Root, event: Event, files: Seq<Seq<char>>, now: int)
    requires
        is_open(root),
        commands(event, 'f') || commands(event, 't'),
    ensures
        root.fork_available ==> root.on_terminal(event, files, now).effects == seq![
            RootRequest::Fork,
        ],
        !root.fork_available ==> root.on_terminal(event, files, now) == root.idle(),
{
    reveal(Root::on_terminal);
    reveal(Root::forked);
}

/// The control key with c empties a draft that has text and ends nothing; with an empty draft, it
/// ends the program. The prompts that wait and the history stay.
pub proof fn law_control_c_empties_the_draft_first(
    root: Root,
    event: Event,
    files: Seq<Seq<char>>,
    now: int,
)
    requires
        commands(event, 'c'),
    ensures
        ({
            let step = root.on_terminal(event, files, now);
            let typing = root.overlay is None && !root.queue.focused
                && !root.transcript.tools_focused && root.composer.edit.text.len() > 0;
            &&& typing ==> step.effects.len() == 0 && step.root.composer.edit.text.len() == 0
                && step.root.queue == root.queue && step.root.turns == root.turns
                && step.root.composer.history.entries == root.composer.history.entries
            &&& !typing ==> step.effects == seq![RootRequest::Shutdown] && step.root == root
        }),
{
    reveal(Root::on_terminal);
    reveal(Root::on_control_c);
    reveal(Root::blanked);
}

/// The control key with o folds or unfolds all calls and touches nothing else.
pub proof fn law_control_o_unfolds_all(root: Root, event: Event, files: Seq<Seq<char>>, now: int)
    requires
        is_open(root),
        commands(event, 'o'),
    ensures
        ({
            let step = root.on_terminal(event, files, now);
            &&& step.root.transcript.kept == root.transcript.kept.all_toggled()
            &&& step.root.transcript.content == root.transcript.content
            &&& step.root.composer == root.composer
            &&& step.effects.len() == 0
        }),
{
    reveal(Root::on_terminal);
    reveal(Root::heard);
}

/// A slash that begins a draft opens the menu of actions; it offers a new session exactly if no turn
/// and no command runs and no prompt waits, and a fork exactly if one can be made.
pub proof fn law_a_slash_opens_the_menu(root: Root, event: Event, files: Seq<Seq<char>>)
    requires
        is_open(root),
        types(event, '/'),
        root.composer.edit.text.len() == 0,
        !root.queue.focused,
    ensures
        ({
            let step = root.on_keyboard(event, files);
            &&& step.root.overlay is Some && step.root.overlay->0 is Actions
            &&& step.root.overlay->0->Actions_0.availability.new_session == (root.turns == 0
                && root.shells == 0 && root.queue.items.len() == 0)
            &&& step.root.overlay->0->Actions_0.availability.fork == root.fork_available
            &&& step.root.overlay->0->Actions_0.query.len() == 0
            &&& step.effects.len() == 0
            &&& step.root.composer == root.composer
        }),
{
    reveal(Root::on_keyboard);
    reveal(Root::menu_opened);
}

/// A message is shown for ten seconds: a failure in red, a success and a new version in green.
pub proof fn law_notices_last_ten_seconds(root: Root, message: String, at: u64)
    requires
        at + 10_000 <= u64::MAX,
    ensures
        ({
            let failed = root.on_event(RootEvent::NotifyError(message), at).root.notification;
            let done = root.on_event(RootEvent::NotifySuccess(message), at).root.notification;
            let update = root.on_event(RootEvent::UpdateAvailable(message), at).root.notification;
            &&& failed matches Some(notice) && notice.color == Tone::Red && notice.deadline == at
                + 10_000 && notice.message[0].text == message@
            &&& done matches Some(notice) && notice.color == Tone::Green && notice.deadline == at
                + 10_000 && notice.message[0].text == message@
            &&& update matches Some(notice) && notice.color == Tone::Green && notice.deadline == at
                + 10_000 && notice.message[1].text == "v"@ + message@
        }),
{
    reveal(Root::on_event);
}

/// A message goes when its time is over, not before, and the screen is drawn anew then.
pub proof fn law_notices_go_in_time(root: Root, notice: Notice, now: u64)
    requires
        root.notification == Some(notice),
    ensures
        now < notice.deadline ==> root.elapsed(now).root.notification == Some(notice),
        now >= notice.deadline ==> root.elapsed(now).root.notification is None && root.elapsed(
            now,
        ).render == RenderRequest::Immediate,
        root.elapsed(now).effects.len() == 0,
{
    reveal(Root::elapsed);
}

/// A prompt that is sent is one more turn, and a turn that ends is one less; with nothing that
/// waits, the two cancel out.
pub proof fn law_turns_are_counted(
    root: Root,
    reaction: Reaction,
    prompt: PromptModel,
    priority: RenderRequest,
)
    requires
        reaction.effect == Some(Request::Submit(prompt)),
        root.turns == 0,
        root.queue.items.len() == 0,
    ensures
        ({
            let sent = root.reacted(reaction, priority);
            let ended = sent.root.on_turn_finished();
            &&& sent.effects == seq![RootRequest::Submit(prompt)]
            &&& sent.root.turns == 1
            &&& sent.root.thread == ThreadState::Started
            &&& ended.root.turns == 0
            &&& ended.effects.len() == 0
            &&& !ended.root.is_engaged()
        }),
{
    reveal(Root::on_turn_finished);
    reveal(Root::released);
    let sent = root.reacted(reaction, priority);
    assert(!root.queue.steers());
    assert(sent.root.queue == root.queue);
    assert(sent.root.queue.ready() =~= Seq::empty());
    assert(crate::queue::steering_in(root.queue.items, 0) =~= Seq::empty());
}

/// The number of turns never falls below zero, and a turn that a prompt became is counted.
pub proof fn law_turns_are_never_negative(root: Root, id: u64)
    requires
        root.turns >= 0,
    ensures
        root.on_turn_finished().root.turns >= 0,
        root.turns > 1 ==> root.on_turn_finished().root.turns == root.turns - 1,
        root.turns < usize::MAX ==> root.on_promoted(id).root.turns == root.turns + 1,
        root.on_promoted(id).effects.len() == 0,
{
    reveal(Root::on_turn_finished);
    reveal(Root::released);
    reveal(Root::on_promoted);
}

/// A command that is run is counted until it ends, and no session is begun meanwhile.
pub proof fn law_commands_are_counted(
    root: Root,
    reaction: Reaction,
    command: Seq<char>,
    priority: RenderRequest,
    at: u64,
)
    requires
        reaction.effect == Some(Request::RunShell(command)),
        0 <= root.shells < usize::MAX,
    ensures
        ({
            let run = root.reacted(reaction, priority);
            &&& run.effects == seq![RootRequest::RunShell(command)]
            &&& run.root.shells == root.shells + 1
            &&& run.root.turns == root.turns
            &&& run.root.renewed() == run.root.idle()
            &&& run.root.on_event(RootEvent::ShellFinished, at).root.shells == root.shells
        }),
{
    reveal(Root::renewed);
    reveal(Root::on_event);
}

/// A new session is begun only where nothing goes on; then no input is taken until it is there, and
/// if it fails the session goes on, with a message in red that holds the reason.
pub proof fn law_new_sessions_wait(root: Root, reason: Seq<char>, now: int)
    ensures
        ({
            let asked = root.renewed();
            let failed = asked.root.on_new_session_failed(reason, now);
            &&& asked.effects == seq![RootRequest::NewSession] <==> root.turns == 0 && root.shells
                == 0 && root.queue.items.len() == 0
            &&& asked.effects.len() > 0 ==> !asked.root.interactive && asked.root.overlay is None
            &&& failed.root.interactive
            &&& failed.root.composer.status is None
            &&& failed.root.notification matches Some(notice) && notice.color == Tone::Red
                && notice.message[0].text == "Could not start a new session: "@ + reason
            &&& failed.effects.len() == 0
        }),
{
    reveal(Root::renewed);
    reveal(Root::on_new_session_failed);
    assert(seq![RootRequest::NewSession].len() == 1);
    assert(root.idle().effects.len() == 0);
}

/// A prompt that comes back from the editor waits in its place while a turn goes on, is sent
/// otherwise, and is dropped if it is blank.
pub proof fn law_edited_prompts_come_back(root: Root, index: int, text: Seq<char>)
    requires
        0 <= index <= root.queue.items.len(),
    ensures
        ({
            let step = root.on_restored(index, text);
            &&& trimmed(text).len() == 0 ==> step.root == root && step.effects.len() == 0
            &&& trimmed(text).len() > 0 && root.is_engaged() ==> step.effects.len() == 0
                && step.root.queue.items.len() == root.queue.items.len() + 1
                && step.root.queue.items[index].prompt == plain(text)
                && step.root.turns == root.turns
            &&& trimmed(text).len() > 0 && !root.is_engaged() ==> step.effects == seq![
                RootRequest::Submit(plain(text)),
            ] && step.root.queue == root.queue && step.root.turns == 1
        }),
{
    reveal(Root::on_restored);
}

/// The fast mode is switched to the other state, and that state is asked for; switched twice, it is
/// as it was.
pub proof fn law_the_fast_mode_is_switched(root: Root, render: RenderRequest)
    ensures
        ({
            let once = root.triggered(Action::FastMode, render);
            let twice = once.root.triggered(Action::FastMode, render);
            &&& once.root.composer.fast == !root.composer.fast
            &&& once.effects == seq![RootRequest::SetFastMode(!root.composer.fast)]
            &&& once.root.overlay is None
            &&& twice.root.composer.fast == root.composer.fast
            &&& twice.effects == seq![RootRequest::SetFastMode(root.composer.fast)]
        }),
{
    reveal(Root::triggered);
}

/// Every action opens what it is named after, or asks for it.
pub proof fn law_actions_do_what_they_say(root: Root, render: RenderRequest)
    ensures
        root.triggered(Action::Subagents, render).root.overlay == Some(
            Cover::Subagents(SubagentOverlay::Tree),
        ),
        root.triggered(Action::Effort, render).root.overlay == Some(
            Cover::Effort(EffortSelector { selected: root.composer.effort }),
        ),
        root.triggered(Action::Theme, render).root.overlay == Some(
            Cover::Theme(ThemeSelector { selected: root.theme_mode }),
        ),
        root.triggered(Action::Keybindings, render).root.overlay == Some(Cover::Keybindings),
        root.triggered(Action::ReloadConfig, render).effects == seq![RootRequest::ReloadConfig],
        root.triggered(Action::EditConfig, render).effects == seq![RootRequest::OpenConfigEditor],
        root.triggered(Action::ResumeSession, render).effects == seq![RootRequest::LoadSessions],
        root.fork_available ==> root.triggered(Action::Fork, render).effects == seq![
            RootRequest::Fork,
        ],
        root.is_free() ==> root.triggered(Action::NewSession, render).effects == seq![
            RootRequest::NewSession,
        ],
{
    reveal(Root::triggered);
    reveal(Root::effort_opened);
    reveal(Root::sessions_wanted);
    reveal(Root::forked);
    reveal(Root::renewed);
}

/// An effort that is applied is that of the session, of its transcript and of its subagents, and is
/// asked for; the selector closes. Dismissed, it leaves the effort as it was.
pub proof fn law_the_effort_is_applied(root: Root, selector: EffortSelector, key: KeyEvent)
    requires
        key.down(),
    ensures
        ({
            let step = root.on_effort(selector, Event::Key(key));
            &&& key.code == KeyCode::Enter ==> step.root.composer.effort == selector.selected
                && step.root.transcript.effort == selector.selected && step.root.subagents.effort
                == selector.selected && step.root.overlay is None && step.effects == seq![
                RootRequest::SetEffort(selector.selected),
            ]
            &&& key.code == KeyCode::Esc ==> step.root.composer == root.composer
                && step.root.overlay is None && step.effects.len() == 0
        }),
{
    reveal(Root::on_effort);
}

/// A theme that is applied is asked for and the selector closes; dismissed, none is.
pub proof fn law_the_theme_is_applied(root: Root, selector: ThemeSelector, key: KeyEvent)
    requires
        key.down(),
    ensures
        ({
            let step = root.on_theme(selector, Event::Key(key));
            &&& key.code == KeyCode::Enter ==> step.root.overlay is None && step.effects == seq![
                RootRequest::SetTheme(selector.selected),
            ]
            &&& key.code == KeyCode::Esc ==> step.root.overlay is None && step.effects.len() == 0
        }),
{
    reveal(Root::on_theme);
}

/// A press of the left button begins a selection in the part of the screen that it hits: the draft
/// or the transcript. Elsewhere it does nothing to the selection.
pub proof fn law_a_press_begins_a_selection(root: Root, mouse: MouseEvent)
    requires
        mouse.kind == MouseKind::Down(MouseButton::Left),
    ensures
        ({
            let p = Position { x: mouse.column, y: mouse.row };
            let outcome = root.on_mouse(Event::Mouse(mouse));
            &&& root.content_area.covers(p) ==> outcome is Done
                && outcome->Done_0.root.selection.pending is Some
                && outcome->Done_0.root.selection.pending->0.surface == Surface::Composer
            &&& !root.content_area.covers(p) && root.transcript_area.covers(p) ==> outcome is Done
                && outcome->Done_0.root.selection.pending is Some
                && outcome->Done_0.root.selection.pending->0.surface == Surface::Transcript
            &&& !root.content_area.covers(p) && !root.transcript_area.covers(p) ==> outcome
                == MouseOutcome::Go(root, Event::Mouse(mouse))
        }),
{
    reveal(Root::on_mouse);
    reveal(Root::on_press);
}

/// A click that did not move acts where it was released, as a press does; a selection that is
/// released is copied, and nothing is selected then.
pub proof fn law_a_selection_is_copied(root: Root, mouse: MouseEvent)
    requires
        mouse.kind == MouseKind::Up(MouseButton::Left),
        root.selection_area() is Some,
    ensures
        ({
            let p = Position { x: mouse.column, y: mouse.row };
            let area = root.selection_area()->0;
            let outcome = root.on_mouse(Event::Mouse(mouse));
            let chosen = root.selection.finished(p, area).chosen_text();
            if root.selection.selects(p, area) {
                &&& outcome is Done
                &&& outcome->Done_0.root.selection.range is None
                &&& chosen matches Some(text) ==> outcome->Done_0.effects == seq![
                    RootRequest::Copy(text),
                ]
                &&& chosen is None ==> outcome->Done_0.effects.len() == 0
            } else {
                &&& outcome is Go
                &&& outcome->Go_1 == Event::Mouse(
                    MouseEvent { kind: MouseKind::Down(MouseButton::Left), ..mouse },
                )
                &&& outcome->Go_0.selection.range is None
            }
        }),
{
    reveal(Root::on_mouse);
    reveal(Root::on_release);
}

/// The escape key ends a selection first, and interrupts nothing by that.
pub proof fn law_escape_ends_the_selection_first(root: Root, event: Event, now: int)
    requires
        root.selection.stirs(),
    ensures
        root.on_escape(event, now).effects.len() == 0,
        root.on_escape(event, now).root.escape_deadline == root.escape_deadline,
        root.on_escape(event, now).root.selection.pending is None,
        root.selection.pending is None ==> root.on_escape(event, now).root.selection.range is None,
{
    reveal(Root::on_escape);
}

/// The tab key takes the focus to the prompts that wait, if there are any, and back; the tool calls
/// lose it.
pub proof fn law_tab_goes_to_the_queue(root: Root)
    ensures
        ({
            let step = root.refocused();
            &&& step.root.queue.focused <==> !root.queue.focused && root.queue.items.len() > 0
            &&& !step.root.transcript.tools_focused
            &&& step.root.queue.items == root.queue.items
            &&& step.effects.len() == 0
        }),
{
    reveal(Root::refocused);
}

/// What the tree of subagents asks for is done: a subagent is shown, the tree is shown again, the
/// view closes, a link is opened or a limit is set.
pub proof fn law_subagents_are_inspected(root: Root, id: u64, limit: usize, link: Seq<char>)
    ensures
        root.on_subagents(Some(SubagentRequest::Inspect(id))).root.overlay == Some(
            Cover::Subagents(SubagentOverlay::Transcript(id)),
        ),
        root.on_subagents(Some(SubagentRequest::Back)).root.overlay == Some(
            Cover::Subagents(SubagentOverlay::Tree),
        ),
        root.on_subagents(Some(SubagentRequest::Dismiss)).root.overlay is None,
        root.on_subagents(Some(SubagentRequest::OpenLink(link))).effects == seq![
            RootRequest::OpenLink(link),
        ],
        root.on_subagents(Some(SubagentRequest::SetMaxSubagents(limit))).effects == seq![
            RootRequest::SetMaxSubagents(limit),
        ],
{
    reveal(Root::on_subagents);
}

/// The draft's frame tells how many subagents work, after every change of one that is known.
pub proof fn law_working_subagents_are_told(root: Root, update: AgentUpdate, now: int)
    requires
        root.composer.subagents == root.subagents.active(),
    ensures
        ({
            let step = root.on_subagent(update, now);
            &&& step.root.composer.subagents == step.root.subagents.active()
            &&& step.effects.len() == 0
            &&& !root.subagents.applied(update, now).1 ==> step.root == root
        }),
{
    reveal(Root::on_subagent);
}

/// The tokens that the records tell last, or those before.
pub open spec fn last_tokens(before: int, records: Seq<RestoredRecord>, n: int) -> int
    decreases n,
{
    if n <= 0 {
        before
    } else {
        match tokens_told(records[n - 1].record) {
            Some(tokens) => tokens as int,
            None => last_tokens(before, records, n - 1),
        }
    }
}

proof fn lemma_replayed(root: Root, records: Seq<RestoredRecord>, n: int)
    requires
        0 <= n <= records.len(),
    ensures
        ({
            let next = root.replayed(records, n);
            &&& next.composer.tokens == last_tokens(root.composer.tokens, records, n)
            &&& next.composer.effort == root.composer.effort
            &&& next.composer.fast == root.composer.fast
            &&& next.interactive == root.interactive
            &&& next.turns == root.turns
            &&& next.theme_mode == root.theme_mode
            &&& n > 0 ==> next.transcript.content == records[n - 1].change.content@
            &&& n == 0 ==> next.transcript == root.transcript
        }),
    decreases n,
{
    if n > 0 {
        lemma_replayed(root, records, n - 1);
    }
}

/// A session that is resumed shows what its last record left, with the settings that were stored and
/// the tokens that were told last; it takes input, and no turn goes on.
pub proof fn law_sessions_are_restored(
    root: Root,
    records: Seq<RestoredRecord>,
    effort: ReasoningEffort,
    fast: bool,
    now: int,
)
    ensures
        ({
            let next = root.revived(records, effort, fast, now);
            let n = records.len() as int;
            &&& next.composer.effort == effort
            &&& next.composer.fast == fast
            &&& next.composer.tokens == last_tokens(0, records, n)
            &&& n > 0 ==> next.transcript.content == records.last().change.content@
            &&& next.thread == ThreadState::Started
            &&& next.interactive
            &&& next.turns == 0
            &&& next.theme_mode == root.theme_mode
        }),
{
    let fresh = root.reset(root.workspace, effort, now).with_fast_mode(fast);
    lemma_replayed(fresh, records, records.len() as int);
}

/// A link that is clicked on is opened, and nothing else happens.
pub proof fn law_links_are_opened(root: Root, event: Event, files: Seq<Seq<char>>, link: Seq<char>)
    requires
        root.transcript.link(event) == Some(link),
    ensures
        root.on_rest(event, files).effects == seq![RootRequest::OpenLink(link)],
        root.on_rest(event, files).root == root,
{
    reveal(Root::on_rest);
}

/// While one of its views is in front, or a prompt that waits has the focus, no image is pasted into
/// the draft.
pub proof fn law_images_are_pasted_into_the_draft(root: Root, data_url: String, at: u64)
    ensures
        root.overlay is Some || root.queue.focused ==> root.on_event(
            RootEvent::PasteImage(data_url),
            at,
        ) == root.idle(),
        root.overlay is None && !root.queue.focused ==> root.on_event(
            RootEvent::PasteImage(data_url),
            at,
        ).root.composer.edit == root.composer.edit.with_image(data_url@),
{
    reveal(Root::on_event);
    reveal(Root::typed);
}

/// A prompt that the agent applied is recorded under its text before anything that follows.
pub proof fn law_applied_prompts_are_recorded(root: Root)
    ensures
        root.queue.applied().1 matches Some(prompt) ==> root.on_applied().effects.len() > 0
            && root.on_applied().effects[0] == RootRequest::PersistSteer(prompt.text),
        root.queue.applied().1 is None ==> forall|i: int|
            0 <= i < root.on_applied().effects.len() ==> !(
            (#[trigger] root.on_applied().effects[i]) is PersistSteer),
{
    reveal(Root::on_applied);
    reveal(Root::persisted);
    reveal(Root::released);
}

/// A prompt that could not be sent into the turn waits again, and goes on its way only once no turn
/// goes on; interrupted turns send nothing by themselves.
pub proof fn law_refused_prompts_wait(root: Root, id: u64)
    requires
        root.turns > 0,
    ensures
        root.on_failed(id).effects.len() == 0,
        root.on_failed(id).root.queue == root.queue.failed(id),
        root.on_failed(id).root.turns == root.turns,
        root.on_turns_cancelled().effects.len() == 0,
        root.on_turns_cancelled().root.queue == root.queue.cancelled(),
        root.on_turns_cancelled().root.turns == root.turns,
{
    reveal(Root::on_failed);
    reveal(Root::released);
    reveal(Root::on_turns_cancelled);
}

/// An acknowledgement that comes late records the prompt; one that comes in time records nothing and
/// sends nothing while a turn goes on.
pub proof fn law_acknowledgements_record_prompts(root: Root, id: u64)
    requires
        root.turns > 0,
    ensures
        root.queue.admitted(id).1 matches Some(prompt) ==> root.on_admitted(id).effects == seq![
            RootRequest::PersistSteer(prompt.text),
        ],
        root.queue.admitted(id).1 is None ==> root.on_admitted(id).effects.len() == 0,
        root.on_admitted(id).root.queue == root.queue.admitted(id).0,
{
    reveal(Root::on_admitted);
    reveal(Root::persisted);
    reveal(Root::released);
    if let Some(prompt) = root.queue.admitted(id).1 {
        assert(seq![RootRequest::PersistSteer(prompt.text)] + Seq::<RootRequest>::empty()
            =~= seq![RootRequest::PersistSteer(prompt.text)]);
    }
}

/// The sessions that were found are offered, all of them, to be searched; the session takes input
/// again. If they could not be loaded it takes input too, with a message in red.
pub proof fn law_sessions_are_offered(
    root: Root,
    sessions: Seq<crate::session::SessionSummary>,
    message: Seq<char>,
    now: int,
)
    ensures
        ({
            let step = root.sessions_offered(sessions);
            let failed = root.on_load_failed(message, now);
            &&& step.root.interactive && failed.root.interactive
            &&& step.root.overlay is Some && step.root.overlay->0 is Sessions
            &&& step.root.overlay->0->Sessions_0.sessions == sessions
            &&& step.root.overlay->0->Sessions_0.query.len() == 0
            &&& step.root.overlay->0->Sessions_0.wf()
            &&& step.effects.len() == 0 && failed.effects.len() == 0
            &&& failed.root.notification is Some
            &&& failed.root.notification->0.color == Tone::Red
            &&& failed.root.notification->0.message[0].text == message
        }),
{
    reveal(Root::sessions_offered);
    reveal(Root::on_load_failed);
}

/// A session that is chosen is asked for, and no input is taken until it is there.
pub proof fn law_the_chosen_session_is_resumed(
    root: Root,
    picker: crate::session_picker::PickerModel,
    event: Event,
    id: Seq<char>,
)
    ensures
        ({
            let step = root.on_sessions(picker, event);
            let asked = picker.on_event(
                crate::session_picker::SessionPickerEvent::Terminal(event),
            );
            &&& asked.effect == Some(crate::session_picker::PickerRequest::Resume(id))
                ==> step.effects == seq![RootRequest::ResumeSession(id)] && !step.root.interactive
                && step.root.overlay is None
            &&& asked.effect == Some(crate::session_picker::PickerRequest::Dismiss)
                ==> step.effects.len() == 0 && step.root.overlay is None
            &&& asked.effect is None ==> step.effects.len() == 0 && step.root.overlay == Some(
                Cover::Sessions(asked.picker),
            )
        }),
{
    reveal(Root::on_sessions);
}

/// What the prompts that wait ask for is asked for: to be edited in the editor or sent into the
/// turn.
pub proof fn law_the_queue_asks(root: Root, event: Event)
    ensures
        ({
            let step = root.on_queue(event);
            let asked = root.queue.on_event(event);
            &&& step.root.queue == asked.line
            &&& asked.effect matches Some(crate::queue::QueueRequest::Edit { index, text })
                ==> step.effects == seq![RootRequest::OpenQueueEditor { index, text }]
            &&& asked.effect matches Some(crate::queue::QueueRequest::Steer { id, prompt })
                ==> step.effects == seq![RootRequest::Steer { id, prompt }]
            &&& asked.effect is None ==> step.effects.len() == 0
            &&& step.root.turns == root.turns && step.root.composer == root.composer
        }),
{
    reveal(Root::on_queue);
}

/// The help closes with the escape key and with nothing else.
pub proof fn law_the_help_closes_with_escape(root: Root, key: KeyEvent)
    requires
        root.overlay == Some(Cover::Keybindings),
        key.down(),
    ensures
        key.code == KeyCode::Esc ==> root.on_help(Event::Key(key)).root.overlay is None,
        key.code != KeyCode::Esc ==> root.on_help(Event::Key(key)) == root.idle(),
{
    reveal(Root::on_help);
}

/// The query of a mention is what stands between its sign and the cursor; without the sign there is
/// none.
pub proof fn law_mentions_are_read_from_the_draft(root: Root, start: int)
    requires
        is_simple(root.composer.edit),
        0 <= start,
    ensures
        ({
            let text = root.composer.edit.text;
            let cursor = root.composer.edit.cursor;
            &&& start < cursor && text[start] == '@' ==> root.mention_query(start) == Some(
                text.subrange(start + 1, cursor),
            )
            &&& start < cursor && text[start] != '@' ==> root.mention_query(start) is None
            &&& start >= cursor ==> root.mention_query(start) is None
        }),
{
    reveal(Root::mention_query);
    let text = root.composer.edit.text;
    let cursor = root.composer.edit.cursor;
    lemma_index(text, cursor);
    if start <= cursor {
        lemma_index(text, start);
        let part = crate::text::between(text, start, cursor);
        assert(part =~= text.subrange(start, cursor));
        if part.len() > 0 {
            assert(part.skip(1) =~= text.subrange(start + 1, cursor));
        }
    }
}

/// A file that is chosen takes the place of the mention, from its sign to the cursor, with a blank
/// behind it, and the finder closes.
pub proof fn law_chosen_files_are_mentioned(
    root: Root,
    finder: crate::file_finder::FinderModel,
    start: int,
    key: KeyEvent,
    path: Seq<char>,
)
    requires
        is_simple(root.composer.edit),
        root.composer.edit.images.len() == 0,
        0 <= start <= root.composer.edit.cursor,
        key.down(),
        key.code == KeyCode::Enter,
        finder.on_event(
            crate::file_finder::FileFinderEvent::Terminal(Event::Key(key)),
        ).effect == Some(crate::file_finder::FinderRequest::Insert(path)),
    ensures
        ({
            let step = root.on_finder(finder, start, Event::Key(key));
            let text = root.composer.edit.text;
            let cursor = root.composer.edit.cursor;
            &&& step.root.overlay is None
            &&& step.effects.len() == 0
            &&& step.root.composer.edit.text == text.take(start) + ("@"@ + path + " "@)
                + text.skip(cursor)
        }),
{
    reveal(Root::on_finder);
    reveal(Root::exchanged);
    let edit = root.composer.edit;
    let inserted = "@"@ + path + " "@;
    lemma_index(edit.text, start);
    lemma_index(edit.text, edit.cursor);
    let cut = edit.cut_out(start, edit.cursor);
    assert(cut.text =~= edit.text.take(start) + edit.text.skip(edit.cursor));
    assert forall|i: int| 0 <= i < cut.text.len() implies crate::text::is_printable(
        #[trigger] cut.text[i],
    ) || cut.text[i] == '\n' by {
        if i < start {
            assert(cut.text[i] == edit.text[i]);
        } else {
            assert(cut.text[i] == edit.text[i - start + edit.cursor]);
        }
    }
    assert(cut.images.len() == 0);
    law_typed_text_stands_at_the_cursor(cut, inserted);
    assert(cut.text.take(start) =~= edit.text.take(start));
    assert(cut.text.skip(start) =~= edit.text.skip(edit.cursor));
}

/// The mouse acts on the draft where it is over the draft, on the transcript where it is over that,
/// and nowhere else; a selection stays in the part in which it began.
pub proof fn law_the_mouse_is_over_one_part(root: Root, p: Position)
    ensures
        root.surface_at(p) matches Some(found) ==> found.1.covers(p),
        root.content_area.covers(p) ==> root.surface_at(p) == Some(
            (Surface::Composer, root.content_area),
        ),
        root.surface_at(p) is None <==> !root.content_area.covers(p) && !root.transcript_area.covers(
            p,
        ),
        root.selection.place() == Some(Surface::Transcript) ==> root.selection_area() == Some(
            root.transcript_area,
        ),
        root.selection.place() == Some(Surface::Composer) ==> root.selection_area() == Some(
            root.content_area,
        ),
{
}

/// The mouse that moves with the button down draws the selection along; without a selection it does
/// nothing.
pub proof fn law_dragging_goes_on(root: Root, mouse: MouseEvent)
    requires
        mouse.kind == MouseKind::Drag(MouseButton::Left),
    ensures
        root.selection_area() is None ==> root.on_mouse(Event::Mouse(mouse)) == MouseOutcome::Go(
            root,
            Event::Mouse(mouse),
        ),
        root.selection_area() matches Some(area) ==> root.on_mouse(Event::Mouse(mouse))
            is Done && root.on_mouse(Event::Mouse(mouse))->Done_0.root.selection
            == root.selection.dragged(Position { x: mouse.column, y: mouse.row }, area)
            && root.on_mouse(Event::Mouse(mouse))->Done_0.effects.len() == 0,
{
    reveal(Root::on_mouse);
    reveal(Root::on_drag);
}

/// A click on the effort opens its selector and one on the subagents their tree.
pub proof fn law_labels_are_clicked_on(root: Root, mouse: MouseEvent, files: Seq<Seq<char>>)
    requires
        mouse.kind == MouseKind::Down(MouseButton::Left),
        root.transcript.link(Event::Mouse(mouse)) is None,
    ensures
        ({
            let p = Position { x: mouse.column, y: mouse.row };
            let step = root.on_rest(Event::Mouse(mouse), files);
            &&& root.subagent_area is Some && root.subagent_area->0.covers(p)
                ==> step.root.overlay == Some(Cover::Subagents(SubagentOverlay::Tree))
            &&& root.effort_area is Some && root.effort_area->0.covers(p) && !(
            root.subagent_area is Some && root.subagent_area->0.covers(p)) ==> step.root.overlay
                == Some(Cover::Effort(EffortSelector { selected: root.composer.effort }))
        }),
{
    reveal(Root::on_rest);
    reveal(Root::clicked);
    reveal(Root::effort_opened);
}

/// An at sign behind white space opens the finder with the files that are there, and is typed.
pub proof fn law_an_at_sign_opens_the_finder(root: Root, event: Event, files: Seq<Seq<char>>)
    requires
        is_open(root),
        types(event, '@'),
        root.composer.edit.at_token_boundary(),
        !root.queue.focused,
    ensures
        ({
            let step = root.on_keyboard(event, files);
            &&& step.root.overlay is Some && step.root.overlay->0 is FileFinder
            &&& step.root.overlay->0->FileFinder_start == root.composer.edit.cursor
            &&& step.root.overlay->0->FileFinder_finder
                == crate::file_finder::FinderModel::opened(files)
            &&& step.root.composer.edit == root.composer.edit.inserted(seq!['@'])
        }),
{
    reveal(Root::on_keyboard);
    reveal(Root::mention_opened);
    reveal(Root::typed);
}

/// Clicks on the prompts that wait take the focus there; clicks on the draft take it back. The
/// transcript's calls lose it either way.
pub proof fn law_clicks_take_the_focus(root: Root, mouse: MouseEvent, files: Seq<Seq<char>>)
    requires
        mouse.kind == MouseKind::Down(MouseButton::Left),
    ensures
        ({
            let p = Position { x: mouse.column, y: mouse.row };
            let step = root.on_input(Event::Mouse(mouse), files);
            &&& root.queue_area.covers(p) ==> step.root.queue.focused == (root.queue.items.len()
                > 0) && !step.root.transcript.tools_focused && step.effects.len() == 0
            &&& !root.queue_area.covers(p) && root.composer_area.covers(p) && (
            root.queue.focused || root.transcript.tools_focused) ==> !step.root.queue.focused
                && !step.root.transcript.tools_focused && step.effects.len() == 0
        }),
{
    reveal(Root::on_input);
    reveal(Root::heard);
}

/// A record that says that a prompt was applied takes it out of the line; any other record leaves
/// the line as it is.
pub proof fn law_records_apply_prompts(root: Root, change: crate::transcript::Change)
    ensures
        root.on_record(change, false).root.queue == root.queue,
        root.on_record(change, false).effects.len() == 0,
        root.on_record(change, true).root.transcript.content == change.content@,
        root.on_record(change, false).root.transcript.content == change.content@,
        root.queue.applied().1 is Some && root.turns > 0 ==> root.on_record(
            change,
            true,
        ).root.queue == root.queue.applied().0,
{
    reveal(Root::on_record);
    reveal(Root::heard);
    reveal(Root::on_applied);
    reveal(Root::persisted);
    reveal(Root::released);
}

/// The time to press escape again ends with a frame that is drawn then, and not before.
pub proof fn law_the_second_escape_must_come_in_time(
    root: Root,
    waves: crate::root::Waves,
    now: u64,
    deadline: u64,
)
    requires
        root.escape_deadline == Some(deadline),
    ensures
        now >= deadline ==> root.on_frame(waves, now).root.escape_deadline is None,
        now < deadline ==> root.on_frame(waves, now).root.escape_deadline == Some(deadline),
        root.on_frame(waves, now).effects.len() == 0,
{
    reveal(Root::on_frame);
    reveal(Root::heard);
    reveal(Root::typed);
    reveal(Root::elapsed);
}

/// An event reaches what stands in front, and the session behind it stays as it was.
pub proof fn law_views_in_front_take_the_events(root: Root, key: KeyEvent)
    requires
        key.down(),
        key.code == KeyCode::Esc,
    ensures
        root.overlay is Some && root.overlay->0 is Effort ==> root.on_overlay(
            Event::Key(key),
        ).root.overlay is None,
        root.overlay is Some && root.overlay->0 is Theme ==> root.on_overlay(
            Event::Key(key),
        ).root.overlay is None,
        root.overlay is Some && root.overlay->0 is Actions ==> root.on_overlay(
            Event::Key(key),
        ).root.overlay is None,
        root.overlay is Some && root.overlay->0 is Sessions ==> root.on_overlay(
            Event::Key(key),
        ).root.overlay is None,
        root.overlay == Some(Cover::Keybindings) ==> root.on_overlay(Event::Key(key)).root.overlay
            is None,
        root.overlay == Some(Cover::Subagents(SubagentOverlay::Tree)) ==> root.on_overlay(
            Event::Key(key),
        ).root.overlay is None,
        root.overlay is Some && root.overlay->0 is FileFinder ==> root.on_overlay(
            Event::Key(key),
        ).root.overlay is None,
{
    reveal(Root::on_overlay);
    reveal(Root::on_effort);
    reveal(Root::on_theme);
    reveal(Root::on_actions);
    reveal(Root::on_sessions);
    reveal(Root::on_help);
    reveal(Root::on_subagents);
    reveal(Root::on_finder);
}

/// Control-c empties the draft while it has the focus and holds something; otherwise it ends the
/// program and changes nothing.
pub proof fn law_control_c_clears_before_it_ends(root: Root)
    ensures
        ({
            let step = root.on_control_c();
            let clears = root.overlay is None && !root.queue.focused
                && !root.transcript.tools_focused && root.composer.edit.text.len() > 0;
            &&& clears ==> step.effects.len() == 0 && step.root.composer.edit.text.len() == 0
                && step.root.queue == root.queue && step.root.turns == root.turns
            &&& !clears ==> step.effects == seq![RootRequest::Shutdown] && step.root == root
        }),
        root.on_control_c().effects.len() == 0 ==> root.on_control_c().root.on_control_c().effects
            == seq![RootRequest::Shutdown],
{
    reveal(Root::on_control_c);
    reveal(Root::blanked);
}

/// Control-o in a subagent's transcript unfolds the calls there: it changes no other subagent, and
/// the transcript stays open.
pub proof fn law_calls_of_a_subagent_are_unfolded(root: Root, event: Event, id: u64, j: int)
    requires
        root.overlay == Some(Cover::Subagents(SubagentOverlay::Transcript(id))),
        commands(event, 'o'),
        0 <= j < root.subagents.nodes.len(),
        j != crate::subagents::twig_index(root.subagents.nodes, id, 0),
    ensures
        root.on_covered(event).root.overlay == root.overlay,
        root.on_covered(event).effects.len() == 0,
        root.on_covered(event).root.subagents.nodes[j] == root.subagents.nodes[j],
        root.on_covered(event).root.transcript == root.transcript,
{
    reveal(Root::on_covered);
    crate::subagents::lemma_twig_found(root.subagents.nodes, id, 0);
}

/// A fork takes over the content, the tokens, the mode and the theme; it takes no input until it is
/// there, cannot be forked itself, and begins with an empty draft and an empty line.
pub proof fn law_forks_take_over(
    root: Root,
    workspace: Seq<char>,
    thinking: ReasoningEffort,
    content: crate::transcript::Record,
    now: int,
)
    ensures
        ({
            let fork = root.branched(workspace, thinking, content, now);
            &&& fork.transcript.content == content
            &&& fork.composer.tokens == root.composer.tokens
            &&& fork.composer.fast == root.composer.fast
            &&& fork.composer.effort == thinking
            &&& fork.theme_mode == root.theme_mode
            &&& !fork.interactive && !fork.fork_available
            &&& fork.thread == ThreadState::Started
            &&& fork.composer.edit.text.len() == 0
            &&& fork.queue.items.len() == 0
            &&& fork.overlay is None && fork.turns == 0
            &&& fork.subagents.nodes.len() == 0
            &&& fork.subagents.max_subagents == root.subagents.max_subagents
        }),
{
    reveal(Root::branched);
}

/// The fast mode that is set is the one that is shown, and nothing else changes.
pub proof fn law_the_fast_mode_is_set(root: Root, fast: bool)
    ensures
        root.with_fast_mode(fast).composer.fast == fast,
        root.with_fast_mode(fast).composer.edit == root.composer.edit,
        root.with_fast_mode(fast).composer.effort == root.composer.effort,
        root.with_fast_mode(fast).with_fast_mode(root.composer.fast) == root,
{
}

/// Messages stay for a while from the moment at which they come, the same while for all; that of a
/// newer version names it, and how to get it.
pub proof fn law_messages_stay_for_a_while(
    message: Seq<char>,
    color: Tone,
    version: Seq<char>,
    now: u64,
)
    requires
        now < u64::MAX - BREADCRUMB_DURATION_MS,
    ensures
        crate::root::plain_notice(message, color, now as int).deadline == now
            + BREADCRUMB_DURATION_MS,
        crate::root::plain_notice(message, color, now as int).color == color,
        crate::root::plain_notice(message, color, now as int).message.len() == 1,
        crate::root::plain_notice(message, color, now as int).message[0].text == message,
        crate::root::update_notice(version, now as int).deadline == now + BREADCRUMB_DURATION_MS,
        crate::root::update_notice(version, now as int).color == Tone::Green,
        crate::root::update_notice(version, now as int).message[1].text == "v"@ + version,
        crate::root::update_notice(version, now as int).message[0].text == "Update available · "@,
        crate::root::update_notice(version, now as int).message[3].text == "`tact update`"@,
{
}

/// The escape key takes a selection away first, then the focus from the prompts that wait, then from
/// the calls; only after that it begins to interrupt.
pub proof fn law_escape_goes_step_by_step(root: Root, key: KeyEvent, now: int)
    requires
        key.down(),
        key.code == KeyCode::Esc,
    ensures
        root.selection.stirs() ==> ({
            let step = root.on_escape(Event::Key(key), now);
            step.root.queue == root.queue && step.root.transcript == root.transcript
                && step.effects.len() == 0
        }),
        !root.selection.stirs() && root.queue.focused ==> ({
            let step = root.on_escape(Event::Key(key), now);
            !step.root.queue.focused && step.root.escape_deadline == root.escape_deadline
                && step.root.transcript == root.transcript
        }),
        !root.selection.stirs() && !root.queue.focused && root.transcript.tools_focused ==> ({
            let step = root.on_escape(Event::Key(key), now);
            !step.root.transcript.tools_focused && step.root.escape_deadline is None
        }),
        !root.selection.stirs() && !root.queue.focused && !root.transcript.tools_focused
            && root.escape_deadline is None ==> ({
            let step = root.on_escape(Event::Key(key), now);
            step.effects.len() == 0 && step.root.escape_deadline is Some
        }),
        !root.selection.stirs() && !root.queue.focused && !root.transcript.tools_focused
            && root.escape_deadline is Some && now <= root.escape_deadline->0 ==> ({
            let step = root.on_escape(Event::Key(key), now);
            step.effects == seq![RootRequest::CancelTurns] && step.root.escape_deadline is None
        }),
{
    reveal(Root::on_escape);
    reveal(Root::on_queue);
    reveal(Root::heard);
    reveal(Root::chord);
}

/// The transcript of a subagent that is gone gives way to the tree; the session's own state, but for
/// the number of subagents, stays.
pub proof fn law_lost_subagents_leave_the_view(root: Root, update: AgentUpdate, now: int, id: u64)
    requires
        root.overlay == Some(Cover::Subagents(SubagentOverlay::Transcript(id))),
        root.subagents.applied(update, now).1,
    ensures
        ({
            let step = root.on_subagent(update, now);
            let left = root.subagents.applied(update, now).0;
            let gone = crate::subagents::twig_index(left.nodes, id, 0) >= left.nodes.len();
            &&& gone ==> step.root.overlay == Some(Cover::Subagents(SubagentOverlay::Tree))
            &&& !gone ==> step.root.overlay == root.overlay
            &&& step.root.subagents == left
            &&& step.root.transcript == root.transcript && step.root.queue == root.queue
            &&& step.root.composer.edit == root.composer.edit
        }),
{
    reveal(Root::on_subagent);
}

} // verus!
