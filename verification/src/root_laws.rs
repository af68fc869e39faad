//! What holds of a session and of the program whatever happens.

use crate::composer::{Reaction, Request};
use crate::event::Event;
use crate::panes::{App, AppRequest};
use crate::prompt::{joined_prompts, PromptModel};
use crate::root::{Root, RootRequest, RootStep, ESCAPE_CHORD_TIMEOUT_MS};
use crate::settings::PaneId;
use crate::transcript::Record;
use vstd::prelude::*;

verus! {

/// The escape key that is pressed twice within the time interrupts the turns, and a third time starts
/// over. Pressed too late, it does not interrupt.
pub proof fn law_escape_twice_interrupts(root: Root, first: int, second: int, third: int)
    requires
        root.escape_deadline is None,
        0 <= first <= second <= third,
        first + ESCAPE_CHORD_TIMEOUT_MS <= u64::MAX,
    ensures
        ({
            let once = root.chord(first);
            let twice = once.root.chord(second);
            &&& once.effects.len() == 0
            &&& second <= first + ESCAPE_CHORD_TIMEOUT_MS ==> twice.effects == seq![
                RootRequest::CancelTurns,
            ] && twice.root.chord(third).effects.len() == 0
            &&& second > first + ESCAPE_CHORD_TIMEOUT_MS ==> twice.effects.len() == 0
        }),
{
    reveal(Root::chord);
}

/// A prompt that is submitted is sent at once or waits at the end of the queue: it is never lost and
/// never sent twice. It is sent only if no turn goes on and no prompt is on its way into one.
pub proof fn law_prompts_are_sent_or_wait(
    root: Root,
    reaction: Reaction,
    prompt: PromptModel,
    priority: crate::node::RenderRequest,
)
    requires
        reaction.effect == Some(Request::Submit(prompt)),
    ensures
        ({
            let step = root.reacted(reaction, priority);
            if root.is_engaged() {
                step.effects.len() == 0 && step.root.queue == root.queue.pushed(prompt)
                    && step.root.turns == root.turns
            } else {
                step.effects == seq![RootRequest::Submit(prompt)] && step.root.queue == root.queue
                    && step.root.turns == crate::root::one_more(root.turns)
            }
        }),
{
}

/// When the last turn ends, the prompts that wait are sent as one, in their order, and leave the
/// queue.
pub proof fn law_waiting_prompts_follow_the_turn(root: Root)
    requires
        root.turns == 1,
        !root.queue.steers(),
        root.queue.ready().len() > 0,
    ensures
        root.on_turn_finished().effects == seq![
            RootRequest::Submit(joined_prompts(root.queue.ready())),
        ],
        root.on_turn_finished().root.queue == root.queue.drained(),
        root.on_turn_finished().root.turns == 1,
{
    reveal(Root::on_turn_finished);
    reveal(Root::released);
}

/// While a session is being started, listed or resumed, no input reaches it but control-c and a
/// change of the terminal's size.
pub proof fn law_a_waiting_session_takes_no_input(
    root: Root,
    event: Event,
    files: Seq<Seq<char>>,
    now: int,
)
    requires
        !root.interactive,
        !(event is Resize),
        !crate::input::commands(event, 'c'),
    ensures
        root.on_terminal(event, files, now) == root.idle(),
{
    reveal(Root::on_terminal);
}

/// A session that resets keeps its settings and loses everything else.
pub proof fn law_reset_keeps_the_settings(
    root: Root,
    workspace: Seq<char>,
    thinking: crate::settings::ReasoningEffort,
    now: int,
)
    ensures
        ({
            let fresh = root.reset(workspace, thinking, now);
            &&& fresh.fork_available == root.fork_available
            &&& fresh.theme_mode == root.theme_mode
            &&& fresh.subagents.max_subagents == root.subagents.max_subagents
            &&& fresh == (Root {
                fork_available: root.fork_available,
                theme_mode: root.theme_mode,
                subagents: root.subagents.same_limit(thinking),
                ..Root::fresh(workspace, root.home, thinking, now)
            })
        }),
{
}

/// There is at most one fork: while one is open, another one is not opened, and the primary session
/// offers none until it closes.
pub proof fn law_one_fork_at_a_time(app: App, pane: PaneId, snapshot: Record, now: int)
    requires
        app.main is Some,
        app.fork is None,
    ensures
        ({
            let opened = app.forked(snapshot, now);
            &&& opened.fork is Some
            &&& !(opened.main->0.fork_available)
            &&& !(opened.fork->0.root.fork_available)
            &&& opened.requested(pane, RootRequest::Fork, Some(snapshot), now) == (
                opened,
                Seq::<AppRequest>::empty(),
            )
            &&& opened.without(PaneId::Fork(opened.fork->0.id)).fork is None
            &&& opened.without(PaneId::Fork(opened.fork->0.id)).main->0.fork_available
        }),
{
    reveal(App::forked);
    reveal(App::requested);
    reveal(App::without);
    reveal(Root::branched);
}

/// The fork starts with the content, the context and the settings of the primary session.
pub proof fn law_forks_inherit(app: App, snapshot: Record, now: int)
    requires
        app.main is Some,
    ensures
        ({
            let fork = app.forked(snapshot, now).fork->0.root;
            &&& fork.transcript.content == snapshot
            &&& fork.composer.tokens == app.main->0.composer.tokens
            &&& fork.composer.effort == app.main->0.composer.effort
            &&& fork.composer.fast == app.main->0.composer.fast
            &&& fork.theme_mode == app.main->0.theme_mode
            &&& !fork.interactive
        }),
{
    reveal(App::forked);
    reveal(Root::branched);
}

/// After a pane closed, the focus is on a pane that is open, if there is one.
pub proof fn law_focus_stays_on_a_pane(app: App, pane: PaneId)
    requires
        app.session(pane) is Some,
        app.main is Some || app.fork is Some,
    ensures
        ({
            let rest = app.without(pane);
            rest.main is Some || rest.fork is Some ==> rest.session(rest.focus) is Some
        }),
{
    reveal(App::without);
}

/// A prompt that is submitted brings the end of the transcript into view.
pub proof fn law_submitting_shows_the_end(
    root: Root,
    reaction: Reaction,
    prompt: PromptModel,
    priority: crate::node::RenderRequest,
)
    requires
        reaction.effect == Some(Request::Submit(prompt)),
    ensures
        ({
            let viewport = root.reacted(reaction, priority).root.transcript.viewport;
            viewport.scroll is Follow && viewport.pending_scroll is Stay && viewport.new_updates == 0
        }),
{
}

/// Two sessions that differ in the theme at most.
pub open spec fn same_but_theme(a: Root, b: Root) -> bool {
    a == (Root { theme_mode: a.theme_mode, ..b })
}

/// Every request of a session among these is one of this pane's.
pub open spec fn asked_by(effects: Seq<AppRequest>, pane: PaneId) -> bool {
    forall|i: int|
        0 <= i < effects.len() ==> ((#[trigger] effects[i]) matches AppRequest::Pane {
            pane: asking,
            ..
        } ==> asking == pane)
}

proof fn lemma_requests_stay_apart(
    app: App,
    pane: PaneId,
    other: PaneId,
    list: Seq<RootRequest>,
    snapshot: Option<Record>,
    now: int,
    n: int,
)
    requires
        app.main is Some,
        app.fork is Some,
        app.session(other) is Some,
        0 <= n <= list.len(),
    ensures
        ({
            let (after, effects) = app.requested_all(pane, list, snapshot, now, n);
            &&& after.main is Some
            &&& after.fork is Some
            &&& after.session(other) is Some
            &&& same_but_theme(after.session(other)->0, app.session(other)->0)
            &&& asked_by(effects, pane)
        }),
    decreases n,
{
    reveal(App::requested);
    if n > 0 {
        lemma_requests_stay_apart(app, pane, other, list, snapshot, now, n - 1);
        let (before, effects) = app.requested_all(pane, list, snapshot, now, n - 1);
        let (after, more) = before.requested(pane, list[n - 1], snapshot, now);
        assert(asked_by(effects + more, pane));
    }
}

/// What reaches one of two sessions, from the terminal or from its agent, leaves the other one as it
/// was, but for the theme, which both share. What follows is asked for in its name alone.
pub proof fn law_panes_are_independent(
    app: App,
    pane: PaneId,
    other: PaneId,
    step: RootStep,
    snapshot: Option<Record>,
    now: int,
)
    requires
        pane != other,
        app.session(pane) is Some,
        app.session(other) is Some,
    ensures
        ({
            let after = app.landed(pane, step, snapshot, now);
            &&& after.app.session(other) is Some
            &&& same_but_theme(after.app.session(other)->0, app.session(other)->0)
            &&& asked_by(after.effects, pane)
        }),
{
    let moved = app.with_session(pane, step.root);
    lemma_requests_stay_apart(
        moved,
        pane,
        other,
        step.effects,
        snapshot,
        now,
        step.effects.len() as int,
    );
}

} // verus!
