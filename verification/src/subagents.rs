//! The tree of subagents, and the transcript of one of them.

use crate::actions::indices;
use crate::draw::{
    bold_colored, colored, items, lines, paint, say, strokes, words, Look, Paint, Stroke, Tone, Word,
    Words,
};
use crate::event::{Event, KeyCode, KeyEvent};
use crate::floating::{popup, Floating};
use crate::geometry::{cell16, clamped, least, minus, sum16, times, to_cell, Rect};
use crate::node::{ComponentUpdate, RenderRequest};
use crate::numeral::{decimal, decimal_text};
use crate::settings::ReasoningEffort;
use crate::text::{concat, display_width, width};
use crate::tool::{truncate, truncated};
use crate::transcript::{Change, Story, Transcript, TranscriptEffect, TranscriptEvent};
use vstd::prelude::*;

verus! {

/// How a subagent came to be.
#[derive(Clone, Copy, Debug, PartialEq, Eq, Structural)]
pub enum AgentOrigin {
    Spawn,
    Fork,
}

/// What a subagent is.
#[derive(Debug)]
pub struct AgentDescriptor {
    pub id: u64,
    pub session_id: String,
    pub role: String,
    pub task: String,
    pub origin: AgentOrigin,
    pub parent: Option<u64>,
}

/// How far a subagent is.
#[derive(Debug)]
pub enum AgentStatus {
    Pending,
    Running,
    Completed { report: String },
    Interrupted,
    Failed { error: String },
    Closing,
    Closed,
}

/// What happens to a subagent.
#[derive(Debug)]
pub enum AgentUpdate {
    Added(AgentDescriptor),
    Event { id: u64, change: Change },
    Status { id: u64, status: AgentStatus },
}

/// A subagent.
#[derive(Debug)]
pub struct AgentNode {
    pub descriptor: AgentDescriptor,
    pub status: AgentStatus,
    pub transcript: Transcript,
}

/// A subagent in the tree: whether each of its ancestors is the last of its siblings, whether it is,
/// and whether it has children.
#[derive(Debug)]
pub struct VisibleNode {
    pub index: usize,
    pub ancestor_is_last: Vec<bool>,
    pub is_last: bool,
    pub has_children: bool,
}

/// A subagent in the tree as mathematical values.
pub struct Seen {
    pub index: int,
    pub ancestors: Seq<bool>,
    pub is_last: bool,
    pub has_children: bool,
}

impl View for VisibleNode {
    type V = Seen;

    open spec fn view(&self) -> Seen {
        Seen {
            index: self.index as int,
            ancestors: self.ancestor_is_last@,
            is_last: self.is_last,
            has_children: self.has_children,
        }
    }
}

pub open spec fn seen_view(list: Seq<VisibleNode>) -> Seq<Seen> {
    list.map_values(|node: VisibleNode| node@)
}

/// Which view of the subagents is open.
#[derive(Clone, Copy, Debug, PartialEq, Eq, Structural)]
pub enum SubagentOverlay {
    Tree,
    Transcript(u64),
}

/// What the views of the subagents ask for.
#[derive(Debug)]
pub enum SubagentEffect {
    Dismiss,
    Inspect(u64),
    Back,
    OpenLink(String),
    SetMaxSubagents(usize),
}

/// A request as mathematical values.
pub enum SubagentRequest {
    Dismiss,
    Inspect(u64),
    Back,
    OpenLink(Seq<char>),
    SetMaxSubagents(usize),
}

impl View for SubagentEffect {
    type V = SubagentRequest;

    open spec fn view(&self) -> SubagentRequest {
        match self {
            SubagentEffect::Dismiss => SubagentRequest::Dismiss,
            SubagentEffect::Inspect(id) => SubagentRequest::Inspect(*id),
            SubagentEffect::Back => SubagentRequest::Back,
            SubagentEffect::OpenLink(link) => SubagentRequest::OpenLink(link@),
            SubagentEffect::SetMaxSubagents(limit) => SubagentRequest::SetMaxSubagents(*limit),
        }
    }
}

pub open spec fn request_view(effect: Option<SubagentEffect>) -> Option<SubagentRequest> {
    match effect {
        Some(found) => Some(found@),
        None => None,
    }
}

/// How many subagents may run at a time unless it is set otherwise.
pub const DEFAULT_MAX_SUBAGENTS: usize = 32;

/// The subagents in the order in which they came, the selected row of the tree, and how many may
/// run at a time.
#[derive(Debug)]
pub struct SubagentTree {
    pub nodes: Vec<AgentNode>,
    pub selected: usize,
    pub effort: ReasoningEffort,
    pub max_subagents: usize,
}

/// A subagent as mathematical values.
pub struct Twig {
    pub descriptor: AgentDescriptor,
    pub status: AgentStatus,
    pub story: Story,
}

impl View for AgentNode {
    type V = Twig;

    open spec fn view(&self) -> Twig {
        Twig { descriptor: self.descriptor, status: self.status, story: self.transcript@ }
    }
}

pub open spec fn twigs(nodes: Seq<AgentNode>) -> Seq<Twig> {
    nodes.map_values(|node: AgentNode| node@)
}

/// The subagents as mathematical values.
pub struct Forest {
    pub nodes: Seq<Twig>,
    pub selected: int,
    pub effort: ReasoningEffort,
    pub max_subagents: usize,
}

impl View for SubagentTree {
    type V = Forest;

    open spec fn view(&self) -> Forest {
        Forest {
            nodes: twigs(self.nodes@),
            selected: self.selected as int,
            effort: self.effort,
            max_subagents: self.max_subagents,
        }
    }
}

/// The subagent still works.
pub open spec fn is_active(status: AgentStatus) -> bool {
    status is Pending || status is Running || status is Closing
}

/// The index of a subagent from index `from` on, or the number of subagents.
pub open spec fn twig_index(nodes: Seq<Twig>, id: u64, from: int) -> int
    decreases nodes.len() - from,
{
    if from >= nodes.len() {
        nodes.len() as int
    } else if nodes[from].descriptor.id == id {
        from
    } else {
        twig_index(nodes, id, from + 1)
    }
}

/// The number of subagents among the first `n` that still work.
pub open spec fn active_among(nodes: Seq<Twig>, n: int) -> int
    decreases n,
{
    if n <= 0 {
        0
    } else {
        active_among(nodes, n - 1) + if is_active(nodes[n - 1].status) {
            1int
        } else {
            0
        }
    }
}

/// The indices of the children of a subagent among the first `n` subagents.
pub open spec fn children(nodes: Seq<Twig>, id: u64, n: int) -> Seq<int>
    decreases n,
{
    if n <= 0 {
        Seq::empty()
    } else if nodes[n - 1].descriptor.parent == Some(id) {
        children(nodes, id, n - 1).push(n - 1)
    } else {
        children(nodes, id, n - 1)
    }
}

/// The subagent's parent is one of the subagents.
pub open spec fn has_parent(nodes: Seq<Twig>, i: int) -> bool {
    match nodes[i].descriptor.parent {
        Some(parent) => twig_index(nodes, parent, 0) < nodes.len(),
        None => false,
    }
}

/// The indices of the subagents among the first `n` without a parent.
pub open spec fn roots(nodes: Seq<Twig>, n: int) -> Seq<int>
    decreases n,
{
    if n <= 0 {
        Seq::empty()
    } else if has_parent(nodes, n - 1) {
        roots(nodes, n - 1)
    } else {
        roots(nodes, n - 1).push(n - 1)
    }
}

/// The rows of the tree for siblings from sibling `from` on, each followed by its descendants, down
/// to `depth` generations.
pub open spec fn branch(
    nodes: Seq<Twig>,
    siblings: Seq<int>,
    ancestors: Seq<bool>,
    from: int,
    depth: nat,
) -> Seq<Seen>
    decreases depth, siblings.len() - from,
{
    if from < 0 || from >= siblings.len() {
        Seq::empty()
    } else {
        let index = siblings[from];
        let is_last = from + 1 == siblings.len();
        let kids = children(nodes, nodes[index].descriptor.id, nodes.len() as int);
        seq![Seen { index, ancestors, is_last, has_children: kids.len() > 0 }] + (if depth == 0 {
            Seq::empty()
        } else {
            branch(nodes, kids, ancestors.push(is_last), 0, (depth - 1) as nat)
        }) + branch(nodes, siblings, ancestors, from + 1, depth)
    }
}

impl Forest {
    /// No subagents.
    pub open spec fn empty(effort: ReasoningEffort) -> Forest {
        Forest {
            nodes: Seq::empty(),
            selected: 0,
            effort,
            max_subagents: DEFAULT_MAX_SUBAGENTS,
        }
    }

    /// No subagents, with the limit of these.
    pub open spec fn same_limit(self, effort: ReasoningEffort) -> Forest {
        Forest { max_subagents: self.max_subagents, ..Forest::empty(effort) }
    }

    /// The selected row is one of the tree.
    pub open spec fn wf(self) -> bool {
        0 <= self.selected <= minus(self.nodes.len() as int, 1)
    }

    /// The rows of the tree. A branch has no more generations than there are subagents.
    pub open spec fn visible(self) -> Seq<Seen> {
        branch(
            self.nodes,
            roots(self.nodes, self.nodes.len() as int),
            Seq::empty(),
            0,
            self.nodes.len(),
        )
    }

    pub open spec fn active(self) -> int {
        active_among(self.nodes, self.nodes.len() as int)
    }

    /// With a subagent's transcript after an event.
    pub open spec fn told(self, i: int, event: TranscriptEvent) -> Forest {
        Forest {
            nodes: self.nodes.update(
                i,
                Twig { story: self.nodes[i].story.on_event(event).story, ..self.nodes[i] },
            ),
            ..self
        }
    }

    /// The subagents after an update, and whether it was of one of them.
    pub open spec fn applied(self, update: AgentUpdate, now: int) -> (Forest, bool) {
        match update {
            AgentUpdate::Added(descriptor) => {
                let i = twig_index(self.nodes, descriptor.id, 0);
                (
                    Forest {
                        nodes: if i < self.nodes.len() {
                            self.nodes.update(i, Twig { descriptor, ..self.nodes[i] })
                        } else {
                            self.nodes.push(
                                Twig {
                                    descriptor,
                                    status: AgentStatus::Running,
                                    story: Story::fresh(self.effort, now),
                                },
                            )
                        },
                        ..self
                    },
                    true,
                )
            },
            AgentUpdate::Event { id, change } => {
                let i = twig_index(self.nodes, id, 0);
                if i < self.nodes.len() {
                    (self.told(i, TranscriptEvent::Record(change)), true)
                } else {
                    (self, false)
                }
            },
            AgentUpdate::Status { id, status } => {
                let i = twig_index(self.nodes, id, 0);
                if i < self.nodes.len() {
                    (
                        Forest {
                            nodes: self.nodes.update(i, Twig { status, ..self.nodes[i] }),
                            ..self
                        },
                        true,
                    )
                } else {
                    (self, false)
                }
            },
        }
    }

    /// The tree with another limit, and the request to keep to it.
    pub open spec fn limited(self, limit: usize) -> (Forest, Option<SubagentRequest>) {
        (
            Forest { max_subagents: limit, ..self },
            Some(SubagentRequest::SetMaxSubagents(limit)),
        )
    }

    /// The tree after an event, and its request. The limit is at least one.
    pub open spec fn on_tree(self, event: Event) -> (Forest, Option<SubagentRequest>) {
        match event {
            Event::Key(key) => if !key.down() {
                (self, None)
            } else {
                match key.code {
                    KeyCode::Esc => (self, Some(SubagentRequest::Dismiss)),
                    KeyCode::Up | KeyCode::Char('k') => (
                        Forest { selected: minus(self.selected, 1), ..self },
                        None,
                    ),
                    KeyCode::Down | KeyCode::Char('j') => (
                        Forest {
                            selected: least(
                                self.selected + 1,
                                minus(self.nodes.len() as int, 1),
                            ),
                            ..self
                        },
                        None,
                    ),
                    KeyCode::Enter => (
                        self,
                        if self.selected < self.visible().len() {
                            Some(
                                SubagentRequest::Inspect(
                                    self.nodes[self.visible()[self.selected].index].descriptor.id,
                                ),
                            )
                        } else {
                            None
                        },
                    ),
                    KeyCode::Char('-') => if self.max_subagents > 1 {
                        self.limited((self.max_subagents - 1) as usize)
                    } else {
                        (self, None)
                    },
                    KeyCode::Char('+') => if self.max_subagents < usize::MAX {
                        self.limited((self.max_subagents + 1) as usize)
                    } else {
                        (self, None)
                    },
                    _ => (self, None),
                }
            },
            _ => (self, None),
        }
    }

    /// The transcript of a subagent after an event, and its request: the escape key takes the focus
    /// from the tool calls first.
    pub open spec fn on_transcript(self, id: u64, event: Event) -> (
        Forest,
        Option<SubagentRequest>,
    ) {
        let i = twig_index(self.nodes, id, 0);
        let story = self.nodes[i].story;
        if i >= self.nodes.len() {
            (self, Some(SubagentRequest::Back))
        } else if crate::event::pressed(event, KeyCode::Esc) {
            if story.tools_focused {
                (self.told(i, TranscriptEvent::BlurTools), None)
            } else {
                (self, Some(SubagentRequest::Back))
            }
        } else {
            match story.link(event) {
                Some(link) => (self, Some(SubagentRequest::OpenLink(link))),
                None => match story.scrolling(event) {
                    Some(command) => (self.told(i, TranscriptEvent::Scroll(command)), None),
                    None => match story.commanding(event) {
                        Some(command) => (self.told(i, TranscriptEvent::Tool(command)), None),
                        None => (self, None),
                    },
                },
            }
        }
    }

    /// With the frames of all transcripts that are due.
    pub open spec fn advanced(self, now: int) -> Forest {
        Forest {
            nodes: self.nodes.map_values(
                |twig: Twig| Twig { story: twig.story.on_frame(now).story, ..twig },
            ),
            ..self
        }
    }

    /// A frame of one of the first `n` transcripts is due.
    pub open spec fn moves(self, now: int, n: int) -> bool {
        exists|i: int|
            0 <= i < n && (#[trigger] self.nodes[i]).story.on_frame(now).render
                != RenderRequest::Idle
    }

    /// With another effort.
    pub open spec fn with_effort(self, effort: ReasoningEffort) -> Forest {
        Forest {
            nodes: self.nodes.map_values(
                |twig: Twig| Twig { story: Story { effort, ..twig.story }, ..twig },
            ),
            effort,
            ..self
        }
    }

    /// The time of the next frame of the first `n` transcripts.
    pub open spec fn deadline(self, n: int) -> Option<u64>
        decreases n,
    {
        if n <= 0 {
            None
        } else {
            match (self.deadline(n - 1), self.nodes[n - 1].story.deadline()) {
                (Some(a), Some(b)) => Some(
                    if a <= b {
                        a
                    } else {
                        b
                    },
                ),
                (Some(a), None) => Some(a),
                (None, other) => other,
            }
        }
    }
}

/// Milliseconds since the epoch; none where the clock stands before it.
pub fn unix_time_ms(since_epoch: Option<u128>) -> (time: u64)
    ensures
        time == (match since_epoch {
            Some(millis) => least(millis as int, u64::MAX as int),
            None => 0,
        }),
{
    match since_epoch {
        Some(millis) => if millis > u64::MAX as u128 {
            u64::MAX
        } else {
            millis as u64
        },
        None => 0,
    }
}

impl AgentStatus {
    /// Whether the subagent still works.
    pub fn active(&self) -> (yes: bool)
        ensures
            yes == is_active(*self),
    {
        match self {
            AgentStatus::Pending | AgentStatus::Running | AgentStatus::Closing => true,
            _ => false,
        }
    }
}

impl SubagentTree {
    /// No subagents.
    pub fn new(effort: ReasoningEffort) -> (tree: Self)
        ensures
            tree@ == Forest::empty(effort),
            tree@.wf(),
    {
        let tree = SubagentTree {
            nodes: Vec::new(),
            selected: 0,
            effort,
            max_subagents: DEFAULT_MAX_SUBAGENTS,
        };
        assert(tree@.nodes =~= Seq::<Twig>::empty());
        tree
    }

    fn index_of(&self, id: u64) -> (index: usize)
        ensures
            index == twig_index(self@.nodes, id, 0),
            index <= self.nodes@.len(),
    {
        let mut i: usize = 0;
        while i < self.nodes.len() && self.nodes[i].descriptor.id != id
            invariant
                i <= self.nodes@.len(),
                twig_index(self@.nodes, id, i as int) == twig_index(self@.nodes, id, 0),
            decreases self.nodes@.len() - i,
        {
            assert(self@.nodes[i as int] == self.nodes@[i as int]@);
            i = i + 1;
        }
        if i < self.nodes.len() {
            assert(self@.nodes[i as int] == self.nodes@[i as int]@);
        }
        i
    }

    fn tell(&mut self, i: usize, event: TranscriptEvent) -> (update: ComponentUpdate<
        TranscriptEffect,
    >)
        requires
            i < old(self).nodes@.len(),
        ensures
            final(self)@ == old(self)@.told(i as int, event),
            update.render == old(self)@.nodes[i as int].story.on_event(event).render,
            final(self).nodes@.len() == old(self).nodes@.len(),
    {
        let ghost before_event = self@;
        assert(before_event.nodes[i as int] == self.nodes@[i as int]@);
        let update = self.nodes[i].transcript.update(event);
        assert(self@.nodes =~= before_event.told(i as int, event).nodes);
        update
    }

    /// Takes over what happened to a subagent, and tells whether it was one of these. `now` is the
    /// time in milliseconds.
    pub fn apply(&mut self, update: AgentUpdate, now: u64) -> (known: bool)
        requires
            old(self)@.wf(),
        ensures
            (final(self)@, known) == old(self)@.applied(update, now as int),
            final(self)@.wf(),
    {
        let ghost before_update = self@;
        match update {
            AgentUpdate::Added(descriptor) => {
                let i: usize = self.index_of(descriptor.id);
                if i < self.nodes.len() {
                    assert(before_update.nodes[i as int] == self.nodes@[i as int]@);
                    self.nodes[i].descriptor = descriptor;
                } else {
                    let node = AgentNode {
                        descriptor,
                        status: AgentStatus::Running,
                        transcript: Transcript::with_effort(self.effort, now),
                    };
                    self.nodes.push(node);
                }
                assert(self@.nodes =~= before_update.applied(update, now as int).0.nodes);
                true
            },
            AgentUpdate::Event { id, change } => {
                let i: usize = self.index_of(id);
                if i == self.nodes.len() {
                    return false;
                }
                self.tell(i, TranscriptEvent::Record(change));
                true
            },
            AgentUpdate::Status { id, status } => {
                let i: usize = self.index_of(id);
                if i == self.nodes.len() {
                    return false;
                }
                assert(before_update.nodes[i as int] == self.nodes@[i as int]@);
                self.nodes[i].status = status;
                assert(self@.nodes =~= before_update.applied(update, now as int).0.nodes);
                true
            },
        }
    }

    /// The number of subagents that still work.
    pub fn active_count(&self) -> (count: usize)
        ensures
            count == self@.active(),
    {
        let mut count: usize = 0;
        let mut i: usize = 0;
        while i < self.nodes.len()
            invariant
                i <= self.nodes@.len(),
                count <= i,
                count == active_among(self@.nodes, i as int),
            decreases self.nodes@.len() - i,
        {
            assert(self@.nodes[i as int] == self.nodes@[i as int]@);
            if self.nodes[i].status.active() {
                count = count + 1;
            }
            i = i + 1;
        }
        count
    }

    /// How many subagents may run at a time.
    pub fn max_subagents(&self) -> (limit: usize)
        ensures
            limit == self@.max_subagents,
    {
        self.max_subagents
    }

    /// Sets how many subagents may run at a time.
    pub fn set_max_subagents(&mut self, limit: usize)
        ensures
            final(self)@ == (Forest { max_subagents: limit, ..old(self)@ }),
    {
        self.max_subagents = limit;
    }

    /// Changes the effort.
    pub fn set_effort(&mut self, effort: ReasoningEffort)
        ensures
            final(self)@ == old(self)@.with_effort(effort),
    {
        let ghost before_change = self@;
        self.effort = effort;
        let mut i: usize = 0;
        let total: usize = self.nodes.len();
        while i < total
            invariant
                total == self.nodes@.len(),
                before_change.nodes.len() == total,
                self.selected == before_change.selected,
                self.max_subagents == before_change.max_subagents,
                self.effort == effort,
                i <= total,
                forall|k: int|
                    0 <= k < i ==> (#[trigger] self.nodes@[k])@ == before_change.with_effort(
                        effort,
                    ).nodes[k],
                forall|k: int| i <= k < total ==> (#[trigger] self.nodes@[k])@
                    == before_change.nodes[k],
            decreases total - i,
        {
            self.nodes[i].transcript.set_effort(effort);
            i = i + 1;
        }
        assert(self@.nodes =~= before_change.with_effort(effort).nodes);
    }

    /// Whether a subagent is one of these.
    pub fn contains(&self, id: u64) -> (yes: bool)
        ensures
            yes == (twig_index(self@.nodes, id, 0) < self@.nodes.len()),
    {
        self.index_of(id) < self.nodes.len()
    }

    /// The time of the next frame of an animation.
    pub fn animation_deadline(&self) -> (time: Option<u64>)
        ensures
            time == self@.deadline(self@.nodes.len() as int),
    {
        let mut time: Option<u64> = None;
        let mut i: usize = 0;
        while i < self.nodes.len()
            invariant
                i <= self.nodes@.len(),
                time == self@.deadline(i as int),
            decreases self.nodes@.len() - i,
        {
            assert(self@.nodes[i as int] == self.nodes@[i as int]@);
            let next: Option<u64> = self.nodes[i].transcript.animation_deadline();
            time = match (time, next) {
                (Some(a), Some(b)) => if a <= b {
                    Some(a)
                } else {
                    Some(b)
                },
                (Some(a), None) => Some(a),
                (None, other) => other,
            };
            i = i + 1;
        }
        time
    }

    /// Shows the frames that are due, and tells whether there was one.
    pub fn advance(&mut self, now: u64) -> (changed: bool)
        ensures
            final(self)@ == old(self)@.advanced(now as int),
            changed == old(self)@.moves(now as int, old(self)@.nodes.len() as int),
            old(self)@.wf() ==> final(self)@.wf(),
    {
        let ghost before_frame = self@;
        let mut changed: bool = false;
        let mut i: usize = 0;
        let total: usize = self.nodes.len();
        while i < total
            invariant
                total == self.nodes@.len(),
                before_frame.nodes.len() == total,
                self.selected == before_frame.selected,
                self.max_subagents == before_frame.max_subagents,
                self.effort == before_frame.effort,
                i <= total,
                changed == before_frame.moves(now as int, i as int),
                forall|k: int|
                    0 <= k < i ==> (#[trigger] self.nodes@[k])@ == before_frame.advanced(
                        now as int,
                    ).nodes[k],
                forall|k: int| i <= k < total ==> (#[trigger] self.nodes@[k])@
                    == before_frame.nodes[k],
            decreases total - i,
        {
            assert(self.nodes@[i as int]@ == before_frame.nodes[i as int]);
            let update = self.nodes[i].transcript.update(TranscriptEvent::AnimationFrame(now));
            let moved: bool = update.render != RenderRequest::Idle;
            assert(moved == (before_frame.nodes[i as int].story.on_frame(now as int).render
                != RenderRequest::Idle));
            changed = changed || moved;
            i = i + 1;
        }
        assert(self@.nodes =~= before_frame.advanced(now as int).nodes);
        changed
    }

    /// Handles an event in the tree.
    pub fn update_tree(&mut self, event: &Event) -> (effect: Option<SubagentEffect>)
        requires
            old(self)@.wf(),
        ensures
            (final(self)@, request_view(effect)) == old(self)@.on_tree(*event),
            final(self)@.wf(),
    {
        let key: &KeyEvent = match event {
            Event::Key(key) => key,
            _ => return None,
        };
        if !key.is_down() {
            return None;
        }
        match key.code {
            KeyCode::Esc => Some(SubagentEffect::Dismiss),
            KeyCode::Up | KeyCode::Char('k') => {
                self.selected = self.selected.saturating_sub(1);
                None
            },
            KeyCode::Down | KeyCode::Char('j') => {
                let count: usize = self.nodes.len();
                assert(self@.nodes.len() == count);
                if count > 0 && self.selected < count - 1 {
                    self.selected = self.selected + 1;
                }
                None
            },
            KeyCode::Enter => {
                let visible = self.visible_nodes();
                assert(seen_view(visible@).len() == visible@.len());
                if self.selected < visible.len() {
                    let index: usize = visible[self.selected].index;
                    assert(seen_view(visible@)[self.selected as int]
                        == visible@[self.selected as int]@);
                    assert(self@.nodes[index as int] == self.nodes@[index as int]@);
                    Some(SubagentEffect::Inspect(self.nodes[index].descriptor.id))
                } else {
                    None
                }
            },
            KeyCode::Char('-') => {
                if self.max_subagents > 1 {
                    self.max_subagents = self.max_subagents - 1;
                    Some(SubagentEffect::SetMaxSubagents(self.max_subagents))
                } else {
                    None
                }
            },
            KeyCode::Char('+') => {
                if self.max_subagents < usize::MAX {
                    self.max_subagents = self.max_subagents + 1;
                    Some(SubagentEffect::SetMaxSubagents(self.max_subagents))
                } else {
                    None
                }
            },
            _ => None,
        }
    }

    /// Handles an event in the transcript of a subagent.
    pub fn update_transcript(&mut self, id: u64, event: &Event) -> (effect: Option<SubagentEffect>)
        requires
            old(self)@.wf(),
        ensures
            (final(self)@, request_view(effect)) == old(self)@.on_transcript(id, *event),
            final(self)@.wf(),
    {
        let i: usize = self.index_of(id);
        if i == self.nodes.len() {
            return Some(SubagentEffect::Back);
        }
        assert(self@.nodes[i as int] == self.nodes@[i as int]@);
        let escape: bool = match event {
            Event::Key(key) => key.is_down() && key.code == KeyCode::Esc,
            _ => false,
        };
        if escape {
            if self.nodes[i].transcript.tools_focused() {
                self.tell(i, TranscriptEvent::BlurTools);
                return None;
            }
            return Some(SubagentEffect::Back);
        }
        match self.nodes[i].transcript.link_destination(event) {
            Some(destination) => return Some(SubagentEffect::OpenLink(destination)),
            None => {},
        }
        match self.nodes[i].transcript.scroll_command(event) {
            Some(command) => {
                self.tell(i, TranscriptEvent::Scroll(command));
                return None;
            },
            None => {},
        }
        match self.nodes[i].transcript.tool_command(event) {
            Some(command) => {
                self.tell(i, TranscriptEvent::Tool(command));
            },
            None => {},
        }
        None
    }

    /// Folds or unfolds all entries of a subagent's transcript, and tells whether it is one of
    /// these.
    pub fn toggle_expand_all(&mut self, id: u64) -> (known: bool)
        ensures
            known == (twig_index(old(self)@.nodes, id, 0) < old(self)@.nodes.len()),
            !known ==> final(self)@ == old(self)@,
            known ==> final(self)@ == old(self)@.told(
                twig_index(old(self)@.nodes, id, 0),
                TranscriptEvent::ToggleExpandAll,
            ),
            old(self)@.wf() ==> final(self)@.wf(),
    {
        let i: usize = self.index_of(id);
        if i == self.nodes.len() {
            return false;
        }
        self.tell(i, TranscriptEvent::ToggleExpandAll);
        true
    }

    fn child_indices(&self, id: u64) -> (list: Vec<usize>)
        ensures
            indices(list@) == children(self@.nodes, id, self@.nodes.len() as int),
            forall|k: int| 0 <= k < list@.len() ==> #[trigger] list@[k] < self.nodes@.len(),
    {
        let mut list: Vec<usize> = Vec::new();
        let mut i: usize = 0;
        assert(indices(list@) =~= children(self@.nodes, id, 0));
        while i < self.nodes.len()
            invariant
                i <= self.nodes@.len(),
                indices(list@) == children(self@.nodes, id, i as int),
                forall|k: int| 0 <= k < list@.len() ==> #[trigger] list@[k] < self.nodes@.len(),
            decreases self.nodes@.len() - i,
        {
            let ghost sofar = indices(list@);
            assert(self@.nodes[i as int] == self.nodes@[i as int]@);
            let is_child: bool = match self.nodes[i].descriptor.parent {
                Some(parent) => parent == id,
                None => false,
            };
            if is_child {
                list.push(i);
                assert(indices(list@) =~= sofar.push(i as int));
            }
            i = i + 1;
        }
        list
    }

    fn root_indices(&self) -> (list: Vec<usize>)
        ensures
            indices(list@) == roots(self@.nodes, self@.nodes.len() as int),
            forall|k: int| 0 <= k < list@.len() ==> #[trigger] list@[k] < self.nodes@.len(),
    {
        let mut list: Vec<usize> = Vec::new();
        let mut i: usize = 0;
        assert(indices(list@) =~= roots(self@.nodes, 0));
        while i < self.nodes.len()
            invariant
                i <= self.nodes@.len(),
                indices(list@) == roots(self@.nodes, i as int),
                forall|k: int| 0 <= k < list@.len() ==> #[trigger] list@[k] < self.nodes@.len(),
            decreases self.nodes@.len() - i,
        {
            let ghost sofar = indices(list@);
            assert(self@.nodes[i as int] == self.nodes@[i as int]@);
            let parent_exists: bool = match self.nodes[i].descriptor.parent {
                Some(parent) => self.contains(parent),
                None => false,
            };
            if !parent_exists {
                list.push(i);
                assert(indices(list@) =~= sofar.push(i as int));
            }
            i = i + 1;
        }
        list
    }

    /// The rows of the tree.
    pub fn visible_nodes(&self) -> (visible: Vec<VisibleNode>)
        ensures
            seen_view(visible@) == self@.visible(),
            forall|k: int|
                0 <= k < visible@.len() ==> (#[trigger] visible@[k]).index < self.nodes@.len(),
    {
        let roots = self.root_indices();
        let mut visible: Vec<VisibleNode> = Vec::new();
        let ancestors: Vec<bool> = Vec::new();
        let depth: usize = self.nodes.len();
        assert(seen_view(visible@) =~= Seq::<Seen>::empty());
        assert(ancestors@ =~= Seq::<bool>::empty());
        self.append_visible(&roots, &ancestors, depth, &mut visible);
        assert(seen_view(visible@) =~= self@.visible());
        visible
    }

    fn append_visible(
        &self,
        siblings: &Vec<usize>,
        ancestors: &Vec<bool>,
        depth: usize,
        visible: &mut Vec<VisibleNode>,
    )
        requires
            forall|k: int| 0 <= k < siblings@.len() ==> #[trigger] siblings@[k] < self.nodes@.len(),
            forall|k: int|
                0 <= k < old(visible)@.len() ==> (#[trigger] old(visible)@[k]).index
                    < self.nodes@.len(),
        ensures
            seen_view(final(visible)@) == seen_view(old(visible)@) + branch(
                self@.nodes,
                indices(siblings@),
                ancestors@,
                0,
                depth as nat,
            ),
            forall|k: int|
                0 <= k < final(visible)@.len() ==> (#[trigger] final(visible)@[k]).index
                    < self.nodes@.len(),
        decreases depth,
    {
        let ghost start = seen_view(visible@);
        let ghost list = indices(siblings@);
        let ghost whole = branch(self@.nodes, list, ancestors@, 0, depth as nat);
        let mut position: usize = 0;
        assert(seen_view(visible@) + branch(self@.nodes, list, ancestors@, 0, depth as nat)
            =~= start + whole);
        while position < siblings.len()
            invariant
                list == indices(siblings@),
                position <= siblings@.len(),
                forall|k: int|
                    0 <= k < siblings@.len() ==> #[trigger] siblings@[k] < self.nodes@.len(),
                forall|k: int|
                    0 <= k < visible@.len() ==> (#[trigger] visible@[k]).index < self.nodes@.len(),
                seen_view(visible@) + branch(
                    self@.nodes,
                    list,
                    ancestors@,
                    position as int,
                    depth as nat,
                ) == start + whole,
            decreases siblings@.len() - position,
        {
            let ghost sofar = seen_view(visible@);
            let ghost rest = branch(self@.nodes, list, ancestors@, position as int, depth as nat);
            let index: usize = siblings[position];
            let is_last: bool = position == siblings.len() - 1;
            assert(list[position as int] == index);
            assert(self@.nodes[index as int] == self.nodes@[index as int]@);
            let kids = self.child_indices(self.nodes[index].descriptor.id);
            assert(indices(kids@).len() == kids@.len());
            let mut own: Vec<bool> = Vec::new();
            let mut below: Vec<bool> = Vec::new();
            copy_flags(ancestors, &mut own);
            copy_flags(ancestors, &mut below);
            assert(own@ =~= ancestors@);
            let node = VisibleNode {
                index,
                ancestor_is_last: own,
                is_last,
                has_children: kids.len() > 0,
            };
            visible.push(node);
            assert(seen_view(visible@) =~= sofar.push(node@));
            below.push(is_last);
            assert(below@ =~= ancestors@.push(is_last));
            let ghost kin = if depth == 0 {
                Seq::empty()
            } else {
                branch(self@.nodes, indices(kids@), below@, 0, (depth - 1) as nat)
            };
            if depth > 0 {
                self.append_visible(&kids, &below, depth - 1, visible);
            }
            position = position + 1;
            let ghost next = branch(
                self@.nodes,
                list,
                ancestors@,
                position as int,
                depth as nat,
            );
            assert(rest =~= seq![node@] + kin + next);
            assert(seen_view(visible@) =~= sofar.push(node@) + kin);
            assert(seen_view(visible@) + next =~= sofar + rest);
        }
        assert(seen_view(visible@) =~= start + whole);
    }
}

fn copy_flags(from: &Vec<bool>, to: &mut Vec<bool>)
    ensures
        final(to)@ == old(to)@ + from@,
{
    let ghost start = to@;
    let mut i: usize = 0;
    assert(to@ =~= start + from@.take(0));
    while i < from.len()
        invariant
            i <= from@.len(),
            to@ == start + from@.take(i as int),
        decreases from@.len() - i,
    {
        to.push(from[i]);
        i = i + 1;
        assert(to@ =~= start + from@.take(i as int));
    }
    assert(to@ =~= start + from@);
}

/// The lines that lead through the ancestors of a row.
pub open spec fn rails(ancestors: Seq<bool>, n: int) -> Seq<char>
    decreases n,
{
    if n <= 0 {
        Seq::empty()
    } else {
        rails(ancestors, n - 1) + if ancestors[n - 1] {
            "   "@
        } else {
            "│  "@
        }
    }
}

/// The lines in front of a row, and of the task below it.
pub open spec fn prefix(seen: Seen, task_line: bool) -> Seq<char> {
    rails(seen.ancestors, seen.ancestors.len() as int) + if task_line {
        match (seen.is_last, seen.has_children) {
            (true, true) => "   ├─ "@,
            (true, false) => "   ╰─ "@,
            (false, true) => "│  ├─ "@,
            (false, false) => "│  ╰─ "@,
        }
    } else if seen.is_last {
        "└─ "@
    } else {
        "├─ "@
    }
}

/// The lines in front of a row, or of the task below it.
pub fn tree_prefix(node: &VisibleNode, task_line: bool) -> (text: String)
    ensures
        text@ == prefix(node@, task_line),
{
    let mut text = String::new();
    let mut i: usize = 0;
    assert(text@ =~= rails(node.ancestor_is_last@, 0));
    while i < node.ancestor_is_last.len()
        invariant
            i <= node.ancestor_is_last@.len(),
            text@ == rails(node.ancestor_is_last@, i as int),
        decreases node.ancestor_is_last@.len() - i,
    {
        text.push_str(
            if node.ancestor_is_last[i] {
                "   "
            } else {
                "│  "
            },
        );
        i = i + 1;
    }
    let end: &str = if task_line {
        match (node.is_last, node.has_children) {
            (true, true) => "   ├─ ",
            (true, false) => "   ╰─ ",
            (false, true) => "│  ├─ ",
            (false, false) => "│  ╰─ ",
        }
    } else if node.is_last {
        "└─ "
    } else {
        "├─ "
    };
    text.push_str(end);
    text
}

/// The symbol, the colour and the name of a status.
pub open spec fn status_parts(status: AgentStatus) -> (Seq<char>, Tone, Seq<char>) {
    match status {
        AgentStatus::Pending => ("○"@, Tone::Yellow, "pending"@),
        AgentStatus::Running => ("◐"@, Tone::Yellow, "running"@),
        AgentStatus::Completed { .. } => ("●"@, Tone::Green, "completed"@),
        AgentStatus::Interrupted => ("■"@, Tone::Blue, "interrupted"@),
        AgentStatus::Failed { .. } => ("×"@, Tone::Red, "failed"@),
        AgentStatus::Closing => ("◑"@, Tone::Yellow, "closing"@),
        AgentStatus::Closed => ("■"@, Tone::DarkGray, "closed"@),
    }
}

/// The symbol, the colour and the name of a status.
pub fn state_style(status: &AgentStatus) -> (parts: (&'static str, Tone, &'static str))
    ensures
        (parts.0@, parts.1, parts.2@) == status_parts(*status),
{
    match status {
        AgentStatus::Pending => ("○", Tone::Yellow, "pending"),
        AgentStatus::Running => ("◐", Tone::Yellow, "running"),
        AgentStatus::Completed { .. } => ("●", Tone::Green, "completed"),
        AgentStatus::Interrupted => ("■", Tone::Blue, "interrupted"),
        AgentStatus::Failed { .. } => ("×", Tone::Red, "failed"),
        AgentStatus::Closing => ("◑", Tone::Yellow, "closing"),
        AgentStatus::Closed => ("■", Tone::DarkGray, "closed"),
    }
}

/// An area with a margin.
pub open spec fn inset_of(area: Rect, horizontal: int, vertical: int) -> Rect {
    Rect {
        x: sum16(area.x as int, horizontal) as u16,
        y: sum16(area.y as int, vertical) as u16,
        width: minus(area.width as int, cell16(2 * horizontal)) as u16,
        height: minus(area.height as int, cell16(2 * vertical)) as u16,
    }
}

/// An area with a margin.
pub fn inset(area: Rect, horizontal: u16, vertical: u16) -> (part: Rect)
    ensures
        part == inset_of(area, horizontal as int, vertical as int),
{
    Rect {
        x: area.x.saturating_add(horizontal),
        y: area.y.saturating_add(vertical),
        width: area.width.saturating_sub(times(horizontal, 2)),
        height: area.height.saturating_sub(times(vertical, 2)),
    }
}

/// A text that fits into a number of columns: where it is too long, an ellipsis ends it.
pub open spec fn ellipsized(s: Seq<char>, limit: int) -> Seq<char> {
    if display_width(s) <= limit {
        s
    } else {
        truncated(s, minus(limit, 1)).push('…')
    }
}

/// A text that fits into a number of columns.
pub fn truncate_with_ellipsis(text: &str, limit: u16) -> (part: String)
    ensures
        part@ == ellipsized(text@, limit as int),
{
    if width(text) <= limit as usize {
        return text.to_owned();
    }
    let mut part: String = truncate(text, limit.saturating_sub(1));
    part.push('…');
    part
}

/// The keys that the footer of the tree names.
pub open spec fn tree_keys() -> Seq<&'static str> {
    seq!["↑↓ select", "enter inspect", "-/+ limit", "esc close"]
}

/// The keys that the footer of a transcript names.
pub open spec fn transcript_keys(tools_focused: bool) -> Seq<&'static str> {
    if tools_focused {
        seq!["↑↓ tool", "enter toggle", "esc blur, then back"]
    } else {
        seq!["pgup/pgdn scroll", "ctrl+home/end", "ctrl+o expand all", "esc back"]
    }
}

/// A colour, or black in the selected row.
pub open spec fn or_black(selected: bool, tone: Tone) -> Tone {
    if selected {
        Tone::Black
    } else {
        tone
    }
}

pub open spec fn origin_name(origin: AgentOrigin) -> Seq<char> {
    match origin {
        AgentOrigin::Spawn => "spawn"@,
        AgentOrigin::Fork => "fork"@,
    }
}

/// The two lines of a subagent in the tree.
pub open spec fn twig_lines(twig: Twig, seen: Seen, selected: bool, columns: int) -> Seq<Seq<Word>> {
    let (symbol, tone, label) = status_parts(twig.status);
    let detail = or_black(selected, tone);
    let branches = or_black(selected, Tone::Border);
    let indentation = cell16(3 * cell16(seen.ancestors.len() as int));
    seq![
        seq![
            Word { text: prefix(seen, false), look: colored(branches) },
            Word { text: symbol + " "@, look: colored(detail) },
            Word {
                text: twig.descriptor.role@,
                look: bold_colored(or_black(selected, Tone::Text)),
            },
            Word {
                text: "  "@ + label + " · "@ + origin_name(twig.descriptor.origin) + " · #"@
                    + decimal(twig.descriptor.id as int),
                look: colored(detail),
            },
        ],
        seq![
            Word { text: prefix(seen, true), look: colored(branches) },
            Word {
                text: ellipsized(twig.descriptor.task@, minus(columns, sum16(9, indentation))),
                look: colored(or_black(selected, Tone::Muted)),
            },
        ],
    ]
}

impl Forest {
    /// The line of the main agent.
    pub open spec fn main_lines(self) -> Seq<Seq<Word>> {
        seq![
            seq![
                Word { text: "● "@, look: colored(Tone::Accent) },
                Word { text: "main agent"@, look: bold_colored(Tone::Plain) },
                Word {
                    text: "  ·  "@ + decimal(self.active()) + " active · "@ + decimal(
                        self.visible().len() as int,
                    ) + " total"@,
                    look: colored(Tone::Muted),
                },
            ],
        ]
    }

    /// The items of the tree.
    pub open spec fn tree_items(self, columns: int) -> Seq<Seq<Seq<Word>>> {
        seq![self.main_lines()] + Seq::new(
            self.visible().len(),
            |i: int|
                twig_lines(
                    self.nodes[self.visible()[i].index],
                    self.visible()[i],
                    i == self.selected,
                    columns,
                ),
        )
    }

    /// The popup of the tree.
    pub open spec fn tree_popup(self) -> crate::floating::Popup {
        popup(
            "Subagents · limit "@ + decimal(self.max_subagents as int),
            74,
            clamped(cell16(2 * self.visible().len() as int + 6), 8, 22),
            tree_keys(),
        )
    }

    /// What the tree draws over an area.
    pub open spec fn tree_picture(self, area: Rect) -> Seq<Stroke> {
        let frame = self.tree_popup();
        let body = frame.body(area);
        if body.empty() {
            frame.picture(area)
        } else if self.visible().len() == 0 {
            frame.picture(area).push(
                Stroke::Paragraph {
                    area: inset_of(body, 2, 1),
                    text: "No subagents have been delegated yet."@,
                    look: colored(Tone::Muted),
                    scroll: 0,
                },
            )
        } else {
            frame.picture(area).push(
                Stroke::Tree {
                    area: body,
                    items: self.tree_items(body.width as int),
                    row: self.selected + 1,
                    look: Look {
                        tone: Tone::Black,
                        ground: Tone::Accent,
                        bold: true,
                        dim: false,
                        italic: false,
                    },
                },
            )
        }
    }

    /// The popup of a subagent's transcript: four fifths of the area.
    pub open spec fn transcript_popup(self, i: int, area: Rect) -> crate::floating::Popup {
        popup(
            self.nodes[i].descriptor.role@ + " · #"@ + decimal(self.nodes[i].descriptor.id as int),
            cell16(4 * area.width) / 5,
            cell16(4 * area.height) / 5,
            transcript_keys(self.nodes[i].story.tools_focused),
        )
    }

    /// What the transcript of a subagent draws over an area.
    pub open spec fn transcript_picture(self, id: u64, area: Rect) -> Seq<Stroke> {
        let i = twig_index(self.nodes, id, 0);
        let frame = self.transcript_popup(i, area);
        if i >= self.nodes.len() {
            Seq::empty()
        } else {
            frame.picture(area) + self.nodes[i].story.picture(frame.body(area))
        }
    }

    /// The subagents after a frame of one's transcript.
    pub open spec fn transcript_rendered(self, id: u64, area: Rect) -> Forest {
        let i = twig_index(self.nodes, id, 0);
        if i >= self.nodes.len() {
            self
        } else {
            Forest {
                nodes: self.nodes.update(
                    i,
                    Twig {
                        story: self.nodes[i].story.rendered(
                            self.transcript_popup(i, area).body(area),
                        ),
                        ..self.nodes[i]
                    },
                ),
                ..self
            }
        }
    }
}

/// The columns of a subagent's transcript in an area: four fifths of it without the frame.
pub open spec fn transcript_columns(area: Rect) -> int {
    minus(cell16(4 * area.width) / 5, 2)
}

/// How wide a subagent's transcript is in an area.
pub fn transcript_width(area: Rect) -> (width: u16)
    ensures
        width == transcript_columns(area),
        forall|forest: Forest, i: int|
            (#[trigger] forest.transcript_popup(i, area)).body(area).width == width,
{
    let columns: u16 = times(area.width, 4) / 5;
    columns.saturating_sub(2)
}

fn pick(selected: bool, tone: Tone) -> (chosen: Tone)
    ensures
        chosen == or_black(selected, tone),
{
    if selected {
        Tone::Black
    } else {
        tone
    }
}

fn node_lines(node: &AgentNode, visible: &VisibleNode, selected: bool, columns: u16) -> (item: Vec<
    Vec<Words>,
>)
    ensures
        lines(item@) == twig_lines(node@, visible@, selected, columns as int),
{
    let (symbol, tone, label) = state_style(&node.status);
    let detail: Tone = pick(selected, tone);
    let branches: Tone = pick(selected, Tone::Border);
    let mut first: Vec<Words> = Vec::new();
    say(&mut first, tree_prefix(visible, false), Look::plain(branches));
    say(&mut first, concat(symbol, " "), Look::plain(detail));
    say(&mut first, node.descriptor.role.clone(), Look::bold(pick(selected, Tone::Text)));
    let mut state: String = concat("  ", label);
    state.push_str(" · ");
    state.push_str(
        match node.descriptor.origin {
            AgentOrigin::Spawn => "spawn",
            AgentOrigin::Fork => "fork",
        },
    );
    state.push_str(" · #");
    state.push_str(decimal_text(node.descriptor.id).as_str());
    say(&mut first, state, Look::plain(detail));
    let indentation: u16 = times(to_cell(visible.ancestor_is_last.len()), 3);
    let limit: u16 = columns.saturating_sub(9u16.saturating_add(indentation));
    let mut second: Vec<Words> = Vec::new();
    say(&mut second, tree_prefix(visible, true), Look::plain(branches));
    say(
        &mut second,
        truncate_with_ellipsis(node.descriptor.task.as_str(), limit),
        Look::plain(pick(selected, Tone::Muted)),
    );
    let ghost expected = twig_lines(node@, visible@, selected, columns as int);
    assert(words(first@) =~= expected[0]);
    assert(words(second@) =~= expected[1]);
    let mut item: Vec<Vec<Words>> = Vec::new();
    item.push(first);
    item.push(second);
    assert(lines(item@) =~= expected);
    item
}

impl SubagentTree {
    fn main_line(&self, total: usize) -> (item: Vec<Vec<Words>>)
        requires
            total == self@.visible().len(),
        ensures
            lines(item@) == self@.main_lines(),
    {
        let mut line: Vec<Words> = Vec::new();
        say(&mut line, "● ".to_owned(), Look::plain(Tone::Accent));
        say(&mut line, "main agent".to_owned(), Look::bold(Tone::Plain));
        let mut text: String = concat("  ·  ", decimal_text(self.active_count() as u64).as_str());
        text.push_str(" active · ");
        text.push_str(decimal_text(total as u64).as_str());
        text.push_str(" total");
        say(&mut line, text, Look::plain(Tone::Muted));
        assert(words(line@) =~= self@.main_lines()[0]);
        let mut item: Vec<Vec<Words>> = Vec::new();
        item.push(line);
        assert(lines(item@) =~= self@.main_lines());
        item
    }

    fn item_list(&self, visible: &Vec<VisibleNode>, columns: u16) -> (list: Vec<Vec<Vec<Words>>>)
        requires
            seen_view(visible@) == self@.visible(),
            forall|k: int|
                0 <= k < visible@.len() ==> (#[trigger] visible@[k]).index < self.nodes@.len(),
        ensures
            items(list@) == self@.tree_items(columns as int),
    {
        let ghost expected = self@.tree_items(columns as int);
        let mut list: Vec<Vec<Vec<Words>>> = Vec::new();
        assert(self@.visible().len() == visible@.len());
        let main: Vec<Vec<Words>> = self.main_line(visible.len());
        list.push(main);
        assert(items(list@) =~= expected.take(1));
        let mut i: usize = 0;
        while i < visible.len()
            invariant
                seen_view(visible@) == self@.visible(),
                forall|k: int|
                    0 <= k < visible@.len() ==> (#[trigger] visible@[k]).index < self.nodes@.len(),
                expected == self@.tree_items(columns as int),
                expected.len() == visible@.len() + 1,
                i <= visible@.len(),
                items(list@) == expected.take(i + 1),
            decreases visible@.len() - i,
        {
            let ghost sofar = items(list@);
            let index: usize = visible[i].index;
            assert(self@.visible()[i as int] == visible@[i as int]@);
            assert(self@.nodes[index as int] == self.nodes@[index as int]@);
            let item: Vec<Vec<Words>> = node_lines(
                &self.nodes[index],
                &visible[i],
                i == self.selected,
                columns,
            );
            assert(lines(item@) == expected[i + 1]);
            list.push(item);
            i = i + 1;
            assert(items(list@) =~= sofar.push(lines(item@)));
            assert(items(list@) =~= expected.take(i + 1));
        }
        assert(items(list@) =~= expected);
        list
    }

    /// Draws the tree over an area.
    pub fn render_tree(&self, area: Rect, paints: &mut Vec<Paint>)
        requires
            area.fits(),
            self@.wf(),
            self.selected < usize::MAX,
        ensures
            strokes(final(paints)@) == strokes(old(paints)@) + self@.tree_picture(area),
    {
        let ghost start = strokes(paints@);
        let visible = self.visible_nodes();
        assert(self@.visible().len() == visible@.len());
        let height: u16 = if visible.len() <= 1 {
            8
        } else if visible.len() >= 8 {
            22
        } else {
            2 * (visible.len() as u16) + 6
        };
        let mut keys: Vec<&'static str> = Vec::new();
        keys.push("↑↓ select");
        keys.push("enter inspect");
        keys.push("-/+ limit");
        keys.push("esc close");
        assert(keys@ =~= tree_keys());
        let title: String = concat(
            "Subagents · limit ",
            decimal_text(self.max_subagents as u64).as_str(),
        );
        let frame = Floating::new(title.as_str(), 74, height, &keys);
        let body: Rect = frame.render(area, paints);
        if body.is_empty() {
            return ;
        }
        if visible.len() == 0 {
            paint(
                paints,
                Paint::Paragraph {
                    area: inset(body, 2, 1),
                    text: "No subagents have been delegated yet.".to_owned(),
                    look: Look::plain(Tone::Muted),
                    scroll: 0,
                },
            );
            assert(strokes(paints@) =~= start + self@.tree_picture(area));
            return ;
        }
        let list: Vec<Vec<Vec<Words>>> = self.item_list(&visible, body.width);
        paint(
            paints,
            Paint::Tree {
                area: body,
                items: list,
                row: self.selected + 1,
                look: Look {
                    tone: Tone::Black,
                    ground: Tone::Accent,
                    bold: true,
                    dim: false,
                    italic: false,
                },
            },
        );
        assert(strokes(paints@) =~= start + self@.tree_picture(area));
    }

    /// Draws the transcript of a subagent over an area.
    pub fn render_transcript(&mut self, id: u64, area: Rect, paints: &mut Vec<Paint>)
        requires
            area.fits(),
        ensures
            final(self)@ == old(self)@.transcript_rendered(id, area),
            old(self)@.wf() ==> final(self)@.wf(),
            strokes(final(paints)@) == strokes(old(paints)@) + old(self)@.transcript_picture(
                id,
                area,
            ),
    {
        let ghost start = strokes(paints@);
        let ghost forest = self@;
        let i: usize = self.index_of(id);
        if i == self.nodes.len() {
            assert(strokes(paints@) =~= start + forest.transcript_picture(id, area));
            return ;
        }
        assert(forest.nodes[i as int] == self.nodes@[i as int]@);
        let mut title: String = concat(self.nodes[i].descriptor.role.as_str(), " · #");
        title.push_str(decimal_text(self.nodes[i].descriptor.id).as_str());
        let columns: u16 = times(area.width, 4) / 5;
        let rows: u16 = times(area.height, 4) / 5;
        let focused: bool = self.nodes[i].transcript.tools_focused();
        let mut keys: Vec<&'static str> = Vec::new();
        if focused {
            keys.push("↑↓ tool");
            keys.push("enter toggle");
            keys.push("esc blur, then back");
        } else {
            keys.push("pgup/pgdn scroll");
            keys.push("ctrl+home/end");
            keys.push("ctrl+o expand all");
            keys.push("esc back");
        }
        assert(keys@ =~= transcript_keys(focused));
        let frame = Floating::new(title.as_str(), columns, rows, &keys);
        let body: Rect = frame.render(area, paints);
        self.nodes[i].transcript.render(body, paints);
        assert(self@.nodes =~= forest.transcript_rendered(id, area).nodes);
        assert(strokes(paints@) =~= start + forest.transcript_picture(id, area));
    }
}

/// A subagent stays in the list whatever becomes of it.
pub proof fn law_subagents_stay(forest: Forest, update: AgentUpdate, now: int, id: u64)
    requires
        twig_index(forest.nodes, id, 0) < forest.nodes.len(),
    ensures
        twig_index(forest.applied(update, now).0.nodes, id, 0) < forest.applied(
            update,
            now,
        ).0.nodes.len(),
{
    let after = forest.applied(update, now).0;
    let k = twig_index(forest.nodes, id, 0);
    lemma_twig_found(forest.nodes, id, 0);
    match update {
        AgentUpdate::Added(descriptor) => {
            lemma_twig_found(forest.nodes, descriptor.id, 0);
        },
        AgentUpdate::Event { id: told, .. } => {
            lemma_twig_found(forest.nodes, told, 0);
        },
        AgentUpdate::Status { id: told, .. } => {
            lemma_twig_found(forest.nodes, told, 0);
        },
    }
    assert(after.nodes[k].descriptor.id == id);
    lemma_twig_known(after.nodes, id, k, 0);
}

pub proof fn lemma_twig_found(nodes: Seq<Twig>, id: u64, from: int)
    requires
        0 <= from <= nodes.len(),
    ensures
        from <= twig_index(nodes, id, from) <= nodes.len(),
        twig_index(nodes, id, from) < nodes.len() ==> nodes[twig_index(
            nodes,
            id,
            from,
        )].descriptor.id == id,
    decreases nodes.len() - from,
{
    if from < nodes.len() && nodes[from].descriptor.id != id {
        lemma_twig_found(nodes, id, from + 1);
    }
}

pub proof fn lemma_twig_known(nodes: Seq<Twig>, id: u64, k: int, from: int)
    requires
        0 <= from <= k < nodes.len(),
        nodes[k].descriptor.id == id,
    ensures
        twig_index(nodes, id, from) < nodes.len(),
    decreases k - from,
{
    if from < k && nodes[from].descriptor.id != id {
        lemma_twig_known(nodes, id, k, from + 1);
    }
}

} // verus!
