//! The transcript of a session: what happens to it.

use crate::cache::{Kept, LayoutCache};
use crate::composer::{option_view, same_status};
use crate::empty::EmptyLogo;
use crate::entry::TranscriptEntry;
use crate::event::{Event, KeyCode, MouseButton, MouseEvent, MouseKind};
use crate::geometry::{minus, most};
use crate::node::{ComponentUpdate, RenderRequest};
use crate::scroll::{PendingToolAnchor, ScrollCommand, ScrollState, Viewport};
use crate::settings::{Model, ReasoningEffort};
use crate::spinner::Spinner;
use crate::text::concat;
use vstd::prelude::*;

verus! {

/// What goes on besides the entries.
#[derive(Debug)]
pub enum TransientStatus {
    Thinking,
    Responding,
    Warming,
    WaitingForBackgroundWork,
    Tool(String),
    Compacting,
    Retrying(String),
    Connecting,
    Reconnecting,
    Error(String),
}

/// A status in words.
pub open spec fn status_text(status: TransientStatus) -> Seq<char> {
    match status {
        TransientStatus::Thinking => "Thinking…"@,
        TransientStatus::Responding => "Responding…"@,
        TransientStatus::Warming => "Warming model…"@,
        TransientStatus::WaitingForBackgroundWork => "Waiting for background work…"@,
        TransientStatus::Tool(tool) => "Running "@ + tool@ + "…"@,
        TransientStatus::Compacting => "Compacting context…"@,
        TransientStatus::Retrying(delay) => "Retrying in "@ + delay@ + "…"@,
        TransientStatus::Connecting => "Connecting…"@,
        TransientStatus::Reconnecting => "Reconnecting…"@,
        TransientStatus::Error(error) => error@,
    }
}

/// A status in words.
pub fn transient_label(status: &TransientStatus) -> (label: String)
    ensures
        label@ == status_text(*status),
{
    match status {
        TransientStatus::Thinking => "Thinking…".to_owned(),
        TransientStatus::Responding => "Responding…".to_owned(),
        TransientStatus::Warming => "Warming model…".to_owned(),
        TransientStatus::WaitingForBackgroundWork => "Waiting for background work…".to_owned(),
        TransientStatus::Tool(tool) => {
            let mut label: String = concat("Running ", tool.as_str());
            label.push_str("…");
            label
        },
        TransientStatus::Compacting => "Compacting context…".to_owned(),
        TransientStatus::Retrying(delay) => {
            let mut label: String = concat("Retrying in ", delay.as_str());
            label.push_str("…");
            label
        },
        TransientStatus::Connecting => "Connecting…".to_owned(),
        TransientStatus::Reconnecting => "Reconnecting…".to_owned(),
        TransientStatus::Error(error) => error.clone(),
    }
}

/// What the session's records say: its entries, whether it is active, what goes on, and whether a
/// tool runs.
#[derive(Debug)]
pub struct Content {
    pub entries: Vec<TranscriptEntry>,
    pub active: bool,
    pub status: Option<TransientStatus>,
    pub running_tools: bool,
}

/// The content after a record: whether it is another one, whether the record is of this program,
/// and the time in milliseconds.
#[derive(Debug)]
pub struct Change {
    pub content: Content,
    pub changed: bool,
    pub local: bool,
    pub now: u64,
}

/// Whether the session is active, and what goes on.
#[derive(Debug)]
pub struct TranscriptEffect {
    pub active: bool,
    pub status: Option<String>,
}

/// An activity as mathematical values.
pub struct Activity {
    pub active: bool,
    pub status: Option<Seq<char>>,
}

impl View for TranscriptEffect {
    type V = Activity;

    open spec fn view(&self) -> Activity {
        Activity { active: self.active, status: option_view(self.status) }
    }
}

/// A command for the tool calls.
#[derive(Clone, Copy, Debug, PartialEq, Eq, Structural)]
pub enum ToolCommand {
    Previous,
    Next,
    Toggle,
    Click { row: u16 },
}

/// What happens to a transcript.
#[derive(Debug)]
pub enum TranscriptEvent {
    Record(Change),
    AgentStreamClosed(Change),
    Scroll(ScrollCommand),
    FollowTail,
    BlurTools,
    Tool(ToolCommand),
    ToggleExpandAll,
    AnimationFrame(u64),
}

/// The row of a tool call on the screen.
#[derive(Clone, Copy, Debug, PartialEq, Eq, Structural)]
pub struct ToolHitRegion {
    pub entry: u64,
    pub row: u16,
}

/// The cells of a link on the screen.
#[derive(Debug)]
pub struct LinkHitRegion {
    pub destination: String,
    pub row: u16,
    pub start: u16,
    pub end: u16,
}

/// The cells of a link as mathematical values.
pub struct LinkHit {
    pub destination: Seq<char>,
    pub row: u16,
    pub start: u16,
    pub end: u16,
}

impl View for LinkHitRegion {
    type V = LinkHit;

    open spec fn view(&self) -> LinkHit {
        LinkHit {
            destination: self.destination@,
            row: self.row,
            start: self.start,
            end: self.end,
        }
    }
}

pub open spec fn link_hits_view(list: Seq<LinkHitRegion>) -> Seq<LinkHit> {
    list.map_values(|hit: LinkHitRegion| hit@)
}

/// A transcript.
#[derive(Debug)]
pub struct Transcript {
    pub content: Content,
    pub cache: LayoutCache,
    pub viewport: Viewport,
    pub viewport_height: u16,
    pub tool_spinner: Option<Spinner>,
    pub tools_focused: bool,
    pub selected_tool: Option<u64>,
    pub tool_hits: Vec<ToolHitRegion>,
    pub link_hits: Vec<LinkHitRegion>,
    pub transcript_y: u16,
    pub empty_logo: EmptyLogo,
    pub effort: ReasoningEffort,
    pub model: Model,
}

/// The content as mathematical values.
pub struct Record {
    pub entries: Seq<TranscriptEntry>,
    pub active: bool,
    pub status: Option<Seq<char>>,
    pub running_tools: bool,
}

pub open spec fn status_view(status: Option<TransientStatus>) -> Option<Seq<char>> {
    match status {
        Some(found) => Some(status_text(found)),
        None => None,
    }
}

impl View for Content {
    type V = Record;

    open spec fn view(&self) -> Record {
        Record {
            entries: self.entries@,
            active: self.active,
            status: status_view(self.status),
            running_tools: self.running_tools,
        }
    }
}

/// A transcript as mathematical values.
pub struct Story {
    pub content: Record,
    pub kept: Kept,
    pub viewport: Viewport,
    pub viewport_height: u16,
    pub spinner: Option<Spinner>,
    pub tools_focused: bool,
    pub selected_tool: Option<u64>,
    pub tool_hits: Seq<ToolHitRegion>,
    pub link_hits: Seq<LinkHit>,
    pub y: u16,
    pub logo: EmptyLogo,
    pub effort: ReasoningEffort,
    pub model: Model,
}

impl View for Transcript {
    type V = Story;

    open spec fn view(&self) -> Story {
        Story {
            content: self.content@,
            kept: self.cache@,
            viewport: self.viewport,
            viewport_height: self.viewport_height,
            spinner: self.tool_spinner,
            tools_focused: self.tools_focused,
            selected_tool: self.selected_tool,
            tool_hits: self.tool_hits@,
            link_hits: link_hits_view(self.link_hits@),
            y: self.transcript_y,
            logo: self.empty_logo,
            effort: self.effort,
            model: self.model,
        }
    }
}

/// A transcript after an event, and its answer.
pub struct StoryStep {
    pub story: Story,
    pub effect: Option<Activity>,
    pub render: RenderRequest,
}

/// The answer of a step.
pub open spec fn story_answers(update: ComponentUpdate<TranscriptEffect>, step: StoryStep) -> bool {
    &&& update.render == step.render
    &&& match step.effect {
        Some(activity) => update.effects@.len() == 1 && update.effects@[0]@ == activity,
        None => update.effects@.len() == 0,
    }
}

/// The index of an entry from index `from` on, or the number of entries.
pub open spec fn entry_index(entries: Seq<TranscriptEntry>, id: u64, from: int) -> int
    decreases entries.len() - from,
{
    if from >= entries.len() {
        entries.len() as int
    } else if entries[from].id == id {
        from
    } else {
        entry_index(entries, id, from + 1)
    }
}

/// A tool call that is not left out.
pub open spec fn is_seen_tool(entry: TranscriptEntry) -> bool {
    !entry.hidden && entry.is_tool()
}

/// The index of the last tool call among the first `n` entries, or -1.
pub open spec fn tool_before(entries: Seq<TranscriptEntry>, n: int) -> int
    decreases n,
{
    if n <= 0 {
        -1
    } else if is_seen_tool(entries[n - 1]) {
        n - 1
    } else {
        tool_before(entries, n - 1)
    }
}

/// The index of the first tool call from index `from` on, or -1.
pub open spec fn tool_after(entries: Seq<TranscriptEntry>, from: int) -> int
    decreases entries.len() - from,
{
    if from >= entries.len() {
        -1
    } else if is_seen_tool(entries[from]) {
        from
    } else {
        tool_after(entries, from + 1)
    }
}

/// The tool call of a row, from hit `from` on.
pub open spec fn hit_in_row(hits: Seq<ToolHitRegion>, row: u16, from: int) -> Option<u64>
    decreases hits.len() - from,
{
    if from >= hits.len() {
        None
    } else if hits[from].row == row {
        Some(hits[from].entry)
    } else {
        hit_in_row(hits, row, from + 1)
    }
}

/// The row of a tool call, from hit `from` on.
pub open spec fn row_of_hit(hits: Seq<ToolHitRegion>, entry: u64, from: int) -> Option<u16>
    decreases hits.len() - from,
{
    if from >= hits.len() {
        None
    } else if hits[from].entry == entry {
        Some(hits[from].row)
    } else {
        row_of_hit(hits, entry, from + 1)
    }
}

/// The link at a cell, from hit `from` on.
pub open spec fn link_at(hits: Seq<LinkHit>, row: u16, column: u16, from: int) -> Option<Seq<char>>
    decreases hits.len() - from,
{
    if from >= hits.len() {
        None
    } else if hits[from].row == row && hits[from].start <= column && column < hits[from].end {
        Some(hits[from].destination)
    } else {
        link_at(hits, row, column, from + 1)
    }
}

impl Record {
    pub open spec fn activity(self) -> Activity {
        Activity { active: self.active, status: self.status }
    }

    /// Every entry has an id of its own.
    pub open spec fn distinct(self) -> bool {
        forall|i: int, j: int|
            0 <= i < j < self.entries.len() ==> (#[trigger] self.entries[i]).id != (
            #[trigger] self.entries[j]).id
    }

    /// There is no entry to show.
    pub open spec fn blank(self) -> bool {
        forall|i: int| 0 <= i < self.entries.len() ==> (#[trigger] self.entries[i]).hidden
    }
}

impl Story {
    /// An empty transcript.
    pub open spec fn fresh(effort: ReasoningEffort, now: int) -> Story {
        Story {
            content: Record {
                entries: Seq::empty(),
                active: false,
                status: None,
                running_tools: false,
            },
            kept: Kept::nothing(),
            viewport: Viewport::following(),
            viewport_height: 0,
            spinner: None,
            tools_focused: false,
            selected_tool: None,
            tool_hits: Seq::empty(),
            link_hits: Seq::empty(),
            y: 0,
            logo: EmptyLogo {
                started_at: now as u64,
                next_frame: crate::spinner::due(now, crate::empty::FRAME_INTERVAL_MS as int),
                frame: 0,
            },
            effort,
            model: Model::Sol,
        }
    }

    pub open spec fn idle(self) -> StoryStep {
        StoryStep { story: self, effect: None, render: RenderRequest::Idle }
    }

    pub open spec fn shown(self) -> StoryStep {
        StoryStep { story: self, effect: None, render: RenderRequest::Immediate }
    }

    /// The effect of other content: the activity, if it is another one.
    pub open spec fn news(self, content: Record) -> Option<Activity> {
        if self.content.activity() == content.activity() {
            None
        } else {
            Some(content.activity())
        }
    }

    /// A spinner that runs while a tool does.
    pub open spec fn spinner_for(self, running: bool, now: int) -> Option<Spinner> {
        if !running {
            None
        } else {
            match self.spinner {
                Some(spinner) => Some(spinner),
                None => Some(new_spinner(now)),
            }
        }
    }

    pub open spec fn on_record(self, change: Change) -> StoryStep {
        let content = change.content@;
        let detached = self.viewport.scroll is Detached;
        StoryStep {
            story: Story {
                content,
                spinner: self.spinner_for(content.running_tools, change.now as int),
                viewport: Viewport {
                    new_updates: if change.changed && detached
                        && self.viewport.new_updates < u64::MAX {
                        (self.viewport.new_updates + 1) as u64
                    } else {
                        self.viewport.new_updates
                    },
                    ..self.viewport
                },
                ..self
            },
            effect: self.news(content),
            render: if !change.changed {
                RenderRequest::Idle
            } else if change.local {
                RenderRequest::Immediate
            } else {
                RenderRequest::Streaming
            },
        }
    }

    pub open spec fn on_stream_closed(self, change: Change) -> StoryStep {
        let content = change.content@;
        if !change.changed {
            self.idle()
        } else {
            StoryStep {
                story: Story {
                    content,
                    spinner: if content.running_tools {
                        Some(new_spinner(change.now as int))
                    } else {
                        None
                    },
                    ..self
                },
                effect: self.news(content),
                render: RenderRequest::Immediate,
            }
        }
    }

    pub open spec fn on_frame(self, now: int) -> StoryStep {
        let blank = self.content.blank();
        let logo = if blank {
            self.logo.at(now)
        } else {
            self.logo
        };
        let spinner = match self.spinner {
            Some(spinner) => Some(spinner.at(now)),
            None => None,
        };
        let turned = match self.spinner {
            Some(spinner) => now >= spinner.next_frame,
            None => false,
        };
        StoryStep {
            story: Story { spinner, logo, ..self },
            effect: None,
            render: if turned || logo.frame != self.logo.frame {
                RenderRequest::Streaming
            } else {
                RenderRequest::Idle
            },
        }
    }

    pub open spec fn following(self) -> StoryStep {
        let next = Story {
            viewport: Viewport {
                scroll: ScrollState::Follow,
                pending_scroll: ScrollCommand::Stay,
                new_updates: 0,
                ..self.viewport
            },
            ..self
        };
        if self.viewport.scroll is Detached {
            next.shown()
        } else {
            next.idle()
        }
    }

    pub open spec fn blurred(self) -> StoryStep {
        if self.tools_focused {
            Story { tools_focused: false, ..self }.shown()
        } else {
            self.idle()
        }
    }

    /// The tool call that is next, or the one in front.
    pub open spec fn neighbour(self, down: bool) -> int {
        let entries = self.content.entries;
        let count = entries.len() as int;
        let at = match self.selected_tool {
            Some(id) => entry_index(entries, id, 0),
            None => count,
        };
        if down && at < count {
            tool_after(entries, at + 1)
        } else {
            tool_before(entries, at)
        }
    }

    pub open spec fn tool_selected(self, down: bool) -> StoryStep {
        let i = self.neighbour(down);
        if i < 0 {
            self.idle()
        } else {
            let id = self.content.entries[i].id;
            Story {
                selected_tool: Some(id),
                viewport: Viewport {
                    pending_tool: if row_of_hit(self.tool_hits, id, 0) is Some {
                        self.viewport.pending_tool
                    } else {
                        Some(PendingToolAnchor::Reveal(id))
                    },
                    ..self.viewport
                },
                ..self
            }.shown()
        }
    }

    pub open spec fn tool_toggled(self) -> StoryStep {
        match self.selected_tool {
            None => self.idle(),
            Some(id) => {
                let i = entry_index(self.content.entries, id, 0);
                if i >= self.content.entries.len() {
                    self.idle()
                } else {
                    Story {
                        kept: self.kept.toggled(self.content.entries[i]),
                        viewport: Viewport {
                            pending_tool: Some(
                                PendingToolAnchor::Preserve {
                                    entry: id,
                                    row: match row_of_hit(self.tool_hits, id, 0) {
                                        Some(row) => minus(row as int, self.y as int) as u16,
                                        None => 0,
                                    },
                                },
                            ),
                            ..self.viewport
                        },
                        ..self
                    }.shown()
                }
            },
        }
    }

    pub open spec fn on_tool(self, command: ToolCommand) -> StoryStep {
        match command {
            ToolCommand::Previous => self.tool_selected(false),
            ToolCommand::Next => self.tool_selected(true),
            ToolCommand::Toggle => self.tool_toggled(),
            ToolCommand::Click { row } => match hit_in_row(self.tool_hits, row, 0) {
                None => self.idle(),
                Some(entry) => Story {
                    tools_focused: true,
                    selected_tool: Some(entry),
                    ..self
                }.tool_toggled(),
            },
        }
    }

    pub open spec fn on_event(self, event: TranscriptEvent) -> StoryStep {
        match event {
            TranscriptEvent::Record(change) => self.on_record(change),
            TranscriptEvent::AgentStreamClosed(change) => self.on_stream_closed(change),
            TranscriptEvent::Scroll(command) => Story {
                viewport: Viewport { pending_scroll: command, ..self.viewport },
                ..self
            }.shown(),
            TranscriptEvent::FollowTail => self.following(),
            TranscriptEvent::BlurTools => self.blurred(),
            TranscriptEvent::Tool(command) => self.on_tool(command),
            TranscriptEvent::ToggleExpandAll => Story {
                kept: self.kept.all_toggled(),
                ..self
            }.shown(),
            TranscriptEvent::AnimationFrame(now) => self.on_frame(now as int),
        }
    }

    /// The number of rows of a page.
    pub open spec fn page(self) -> int {
        most(minus(self.viewport_height as int, 2), 1)
    }

    /// The scrolling that an event asks for.
    pub open spec fn scrolling(self, event: Event) -> Option<ScrollCommand> {
        match event {
            Event::Key(key) => if !key.down() {
                None
            } else {
                match key.code {
                    KeyCode::PageUp => Some(ScrollCommand::Rows((-self.page()) as i32)),
                    KeyCode::PageDown => Some(ScrollCommand::Rows(self.page() as i32)),
                    KeyCode::Home => if key.modifiers.control {
                        Some(ScrollCommand::Home)
                    } else {
                        None
                    },
                    KeyCode::End => if key.modifiers.control {
                        Some(ScrollCommand::End)
                    } else {
                        None
                    },
                    _ => None,
                }
            },
            Event::Mouse(mouse) => if mouse.modifiers.shift {
                None
            } else {
                match mouse.kind {
                    MouseKind::ScrollUp => Some(ScrollCommand::Rows((-3) as i32)),
                    MouseKind::ScrollDown => Some(ScrollCommand::Rows(3)),
                    _ => None,
                }
            },
            _ => None,
        }
    }

    /// The command for the tool calls that an event is.
    pub open spec fn commanding(self, event: Event) -> Option<ToolCommand> {
        match event {
            Event::Mouse(mouse) => if mouse.kind == MouseKind::Down(MouseButton::Left)
                && hit_in_row(self.tool_hits, mouse.row, 0) is Some {
                Some(ToolCommand::Click { row: mouse.row })
            } else {
                None
            },
            Event::Key(key) => if self.tools_focused && key.down() {
                match key.code {
                    KeyCode::Up => Some(ToolCommand::Previous),
                    KeyCode::Down => Some(ToolCommand::Next),
                    KeyCode::Enter => Some(ToolCommand::Toggle),
                    _ => None,
                }
            } else {
                None
            },
            _ => None,
        }
    }

    /// The link that an event clicks on.
    pub open spec fn link(self, event: Event) -> Option<Seq<char>> {
        match event {
            Event::Mouse(mouse) => if mouse.kind == MouseKind::Down(MouseButton::Left) {
                link_at(self.link_hits, mouse.row, mouse.column, 0)
            } else {
                None
            },
            _ => None,
        }
    }

    /// The time of the next frame of an animation.
    pub open spec fn deadline(self) -> Option<u64> {
        match (self.spinner, self.content.blank()) {
            (Some(spinner), true) => Some(
                if spinner.next_frame <= self.logo.next_frame {
                    spinner.next_frame
                } else {
                    self.logo.next_frame
                },
            ),
            (Some(spinner), false) => Some(spinner.next_frame),
            (None, true) => Some(self.logo.next_frame),
            (None, false) => None,
        }
    }
}

/// A spinner that starts now.
pub open spec fn new_spinner(now: int) -> Spinner {
    Spinner {
        frame: 0,
        next_frame: crate::spinner::due(now, crate::spinner::SPINNER_INTERVAL_MS as int),
    }
}

fn label_of(status: &Option<TransientStatus>) -> (label: Option<String>)
    ensures
        option_view(label) == status_view(*status),
{
    match status {
        Some(status) => Some(transient_label(status)),
        None => None,
    }
}

impl Content {
    fn none() -> (content: Self)
        ensures
            content@ == (Record {
                entries: Seq::empty(),
                active: false,
                status: None,
                running_tools: false,
            }),
    {
        Content { entries: Vec::new(), active: false, status: None, running_tools: false }
    }

    /// Whether the session is active, and what goes on.
    pub fn activity(&self) -> (activity: TranscriptEffect)
        ensures
            activity@ == self@.activity(),
    {
        TranscriptEffect { active: self.active, status: label_of(&self.status) }
    }

    /// Whether there is no entry to show.
    pub fn is_empty(&self) -> (yes: bool)
        ensures
            yes == self@.blank(),
    {
        let mut i: usize = 0;
        while i < self.entries.len()
            invariant
                i <= self.entries@.len(),
                forall|k: int| 0 <= k < i ==> (#[trigger] self.entries@[k]).hidden,
            decreases self.entries@.len() - i,
        {
            if !self.entries[i].hidden {
                return false;
            }
            i = i + 1;
        }
        true
    }

    /// The index of an entry, or the number of entries.
    pub fn index_of(&self, id: u64) -> (index: usize)
        ensures
            index == entry_index(self.entries@, id, 0),
            index <= self.entries@.len(),
    {
        let mut i: usize = 0;
        while i < self.entries.len() && self.entries[i].id != id
            invariant
                i <= self.entries@.len(),
                entry_index(self.entries@, id, i as int) == entry_index(self.entries@, id, 0),
            decreases self.entries@.len() - i,
        {
            i = i + 1;
        }
        i
    }

    fn last_tool(&self, n: usize) -> (index: Option<usize>)
        requires
            n <= self.entries@.len(),
        ensures
            index is None == (tool_before(self.entries@, n as int) < 0),
            index matches Some(i) ==> i == tool_before(self.entries@, n as int) && i < n,
    {
        let mut i: usize = n;
        while i > 0
            invariant
                i <= n <= self.entries@.len(),
                tool_before(self.entries@, i as int) == tool_before(self.entries@, n as int),
            decreases i,
        {
            if !self.entries[i - 1].hidden && self.entries[i - 1].tool_entry() {
                return Some(i - 1);
            }
            i = i - 1;
        }
        None
    }

    fn first_tool(&self, from: usize) -> (index: Option<usize>)
        requires
            from <= self.entries@.len(),
        ensures
            index is None == (tool_after(self.entries@, from as int) < 0),
            index matches Some(i) ==> i == tool_after(self.entries@, from as int) && i
                < self.entries@.len(),
    {
        let mut i: usize = from;
        while i < self.entries.len()
            invariant
                i <= self.entries@.len(),
                tool_after(self.entries@, i as int) == tool_after(self.entries@, from as int),
            decreases self.entries@.len() - i,
        {
            if !self.entries[i].hidden && self.entries[i].tool_entry() {
                return Some(i);
            }
            i = i + 1;
        }
        None
    }
}

fn same_activity(a: &TranscriptEffect, b: &TranscriptEffect) -> (yes: bool)
    ensures
        yes == (a@ == b@),
{
    a.active == b.active && same_status(&a.status, &b.status)
}

impl Transcript {
    /// An empty transcript. `now` is the time in milliseconds.
    pub fn with_effort(effort: ReasoningEffort, now: u64) -> (transcript: Self)
        ensures
            transcript@ == Story::fresh(effort, now as int),
    {
        let transcript = Transcript {
            content: Content::none(),
            cache: LayoutCache::new(),
            viewport: Viewport::new(),
            viewport_height: 0,
            tool_spinner: None,
            tools_focused: false,
            selected_tool: None,
            tool_hits: Vec::new(),
            link_hits: Vec::new(),
            transcript_y: 0,
            empty_logo: EmptyLogo::new(now),
            effort,
            model: Model::Sol,
        };
        assert(transcript@.link_hits =~= Seq::<LinkHit>::empty());
        assert(transcript@.tool_hits =~= Seq::<ToolHitRegion>::empty());
        transcript
    }

    /// A transcript of a fork, which starts with content that it takes over.
    pub fn fork_snapshot(&self, content: Content, now: u64) -> (transcript: Self)
        ensures
            transcript@ == (Story { content: content@, ..Story::fresh(self.effort, now as int) }),
    {
        let mut snapshot = Transcript::with_effort(self.effort, now);
        snapshot.content = content;
        snapshot
    }

    /// Changes the effort.
    pub fn set_effort(&mut self, effort: ReasoningEffort)
        ensures
            final(self)@ == (Story { effort, ..old(self)@ }),
    {
        self.effort = effort;
    }

    /// Changes the model whose artwork and colour the empty transcript shows.
    pub fn set_model(&mut self, model: Model)
        ensures
            final(self)@ == (Story { model, ..old(self)@ }),
    {
        self.model = model;
    }

    /// Whether the tool calls have the focus.
    pub fn tools_focused(&self) -> (yes: bool)
        ensures
            yes == self@.tools_focused,
    {
        self.tools_focused
    }

    /// The time of the next frame of an animation.
    pub fn animation_deadline(&self) -> (time: Option<u64>)
        ensures
            time == self@.deadline(),
    {
        let blank: bool = self.content.is_empty();
        match self.tool_spinner {
            Some(spinner) => {
                let turn: u64 = spinner.deadline();
                let frame: u64 = self.empty_logo.deadline();
                if blank && frame < turn {
                    Some(frame)
                } else {
                    Some(turn)
                }
            },
            None => if blank {
                Some(self.empty_logo.deadline())
            } else {
                None
            },
        }
    }

    fn report(previous: &TranscriptEffect, activity: TranscriptEffect, render: RenderRequest) -> (
    update: ComponentUpdate<TranscriptEffect>)
        ensures
            update.render == render,
            previous@ == activity@ ==> update.effects@.len() == 0,
            previous@ != activity@ ==> update.effects@.len() == 1 && update.effects@[0]@
                == activity@,
    {
        if same_activity(previous, &activity) {
            ComponentUpdate::render(render)
        } else {
            ComponentUpdate::one(activity, render)
        }
    }

    /// Takes over the content after a record.
    pub fn update_record(&mut self, change: Change) -> (update: ComponentUpdate<TranscriptEffect>)
        ensures
            final(self)@ == old(self)@.on_record(change).story,
            story_answers(update, old(self)@.on_record(change)),
    {
        let previous = self.content.activity();
        self.content = change.content;
        let activity = self.content.activity();
        if self.content.running_tools {
            if self.tool_spinner.is_none() {
                self.tool_spinner = Some(Spinner::new(change.now));
            }
        } else {
            self.tool_spinner = None;
        }
        match self.viewport.scroll {
            ScrollState::Detached(_) => {
                if change.changed {
                    self.viewport.new_updates = self.viewport.new_updates.saturating_add(1);
                }
            },
            ScrollState::Follow => {},
        }
        let render: RenderRequest = if !change.changed {
            RenderRequest::Idle
        } else if change.local {
            RenderRequest::Immediate
        } else {
            RenderRequest::Streaming
        };
        Self::report(&previous, activity, render)
    }

    /// Takes over the content after the stream of the agent's events closed.
    pub fn agent_stream_closed(&mut self, change: Change) -> (update: ComponentUpdate<
        TranscriptEffect,
    >)
        ensures
            final(self)@ == old(self)@.on_stream_closed(change).story,
            story_answers(update, old(self)@.on_stream_closed(change)),
    {
        if !change.changed {
            return ComponentUpdate::none();
        }
        let previous = self.content.activity();
        self.content = change.content;
        self.tool_spinner = if self.content.running_tools {
            Some(Spinner::new(change.now))
        } else {
            None
        };
        let activity = self.content.activity();
        Self::report(&previous, activity, RenderRequest::Immediate)
    }

    /// Shows the frames of the animations that are due.
    pub fn update_animation(&mut self, now: u64) -> (update: ComponentUpdate<TranscriptEffect>)
        ensures
            final(self)@ == old(self)@.on_frame(now as int).story,
            story_answers(update, old(self)@.on_frame(now as int)),
    {
        let mut turned: bool = false;
        match self.tool_spinner {
            Some(spinner) => {
                let mut next: Spinner = spinner;
                turned = next.advance(now);
                self.tool_spinner = Some(next);
            },
            None => {},
        }
        let mut moved: bool = false;
        if self.content.is_empty() {
            moved = self.empty_logo.advance(now);
        }
        ComponentUpdate::render(
            if turned || moved {
                RenderRequest::Streaming
            } else {
                RenderRequest::Idle
            },
        )
    }

    /// The scrolling that an event asks for.
    pub fn scroll_command(&self, event: &Event) -> (command: Option<ScrollCommand>)
        ensures
            command == self@.scrolling(*event),
    {
        match event {
            Event::Key(key) => {
                if !key.is_down() {
                    return None;
                }
                match key.code {
                    KeyCode::PageUp => Some(ScrollCommand::Rows(-self.page_size())),
                    KeyCode::PageDown => Some(ScrollCommand::Rows(self.page_size())),
                    KeyCode::Home => if key.modifiers.control {
                        Some(ScrollCommand::Home)
                    } else {
                        None
                    },
                    KeyCode::End => if key.modifiers.control {
                        Some(ScrollCommand::End)
                    } else {
                        None
                    },
                    _ => None,
                }
            },
            Event::Mouse(mouse) => {
                if mouse.modifiers.shift {
                    return None;
                }
                match mouse.kind {
                    MouseKind::ScrollUp => Some(ScrollCommand::Rows(-3)),
                    MouseKind::ScrollDown => Some(ScrollCommand::Rows(3)),
                    _ => None,
                }
            },
            _ => None,
        }
    }

    fn entry_in_row(&self, row: u16) -> (entry: Option<u64>)
        ensures
            entry == hit_in_row(self.tool_hits@, row, 0),
    {
        let mut i: usize = 0;
        while i < self.tool_hits.len()
            invariant
                i <= self.tool_hits@.len(),
                hit_in_row(self.tool_hits@, row, i as int) == hit_in_row(self.tool_hits@, row, 0),
            decreases self.tool_hits@.len() - i,
        {
            if self.tool_hits[i].row == row {
                return Some(self.tool_hits[i].entry);
            }
            i = i + 1;
        }
        None
    }

    fn row_of(&self, entry: u64) -> (row: Option<u16>)
        ensures
            row == row_of_hit(self.tool_hits@, entry, 0),
    {
        let mut i: usize = 0;
        while i < self.tool_hits.len()
            invariant
                i <= self.tool_hits@.len(),
                row_of_hit(self.tool_hits@, entry, i as int) == row_of_hit(
                    self.tool_hits@,
                    entry,
                    0,
                ),
            decreases self.tool_hits@.len() - i,
        {
            if self.tool_hits[i].entry == entry {
                return Some(self.tool_hits[i].row);
            }
            i = i + 1;
        }
        None
    }

    /// The command for the tool calls that an event is.
    pub fn tool_command(&self, event: &Event) -> (command: Option<ToolCommand>)
        ensures
            command == self@.commanding(*event),
    {
        match event {
            Event::Mouse(mouse) => {
                if mouse.kind == MouseKind::Down(MouseButton::Left) && self.entry_in_row(
                    mouse.row,
                ).is_some() {
                    Some(ToolCommand::Click { row: mouse.row })
                } else {
                    None
                }
            },
            Event::Key(key) => {
                if !self.tools_focused || !key.is_down() {
                    return None;
                }
                match key.code {
                    KeyCode::Up => Some(ToolCommand::Previous),
                    KeyCode::Down => Some(ToolCommand::Next),
                    KeyCode::Enter => Some(ToolCommand::Toggle),
                    _ => None,
                }
            },
            _ => None,
        }
    }

    /// The link that an event clicks on.
    pub fn link_destination(&self, event: &Event) -> (destination: Option<String>)
        ensures
            option_view(destination) == self@.link(*event),
    {
        let mouse: &MouseEvent = match event {
            Event::Mouse(mouse) => mouse,
            _ => return None,
        };
        if mouse.kind != MouseKind::Down(MouseButton::Left) {
            return None;
        }
        let ghost hits = link_hits_view(self.link_hits@);
        let mut i: usize = 0;
        while i < self.link_hits.len()
            invariant
                hits == link_hits_view(self.link_hits@),
                self@.link(*event) == link_at(hits, mouse.row, mouse.column, 0),
                i <= self.link_hits@.len(),
                link_at(hits, mouse.row, mouse.column, i as int) == link_at(
                    hits,
                    mouse.row,
                    mouse.column,
                    0,
                ),
            decreases self.link_hits@.len() - i,
        {
            assert(hits[i as int] == self.link_hits@[i as int]@);
            let hit: &LinkHitRegion = &self.link_hits[i];
            if hit.row == mouse.row && hit.start <= mouse.column && mouse.column < hit.end {
                return Some(hit.destination.clone());
            }
            i = i + 1;
        }
        None
    }

    /// Asks for scrolling in the next frame.
    pub fn update_scroll(&mut self, command: ScrollCommand) -> (update: ComponentUpdate<
        TranscriptEffect,
    >)
        ensures
            final(self)@ == old(self)@.on_event(TranscriptEvent::Scroll(command)).story,
            story_answers(update, old(self)@.on_event(TranscriptEvent::Scroll(command))),
    {
        self.viewport.pending_scroll = command;
        ComponentUpdate::render(RenderRequest::Immediate)
    }

    /// Follows the end again.
    pub fn follow_tail(&mut self) -> (update: ComponentUpdate<TranscriptEffect>)
        ensures
            final(self)@ == old(self)@.following().story,
            story_answers(update, old(self)@.following()),
    {
        let was_detached: bool = match self.viewport.scroll {
            ScrollState::Detached(_) => true,
            ScrollState::Follow => false,
        };
        self.viewport.scroll = ScrollState::Follow;
        self.viewport.pending_scroll = ScrollCommand::Stay;
        self.viewport.new_updates = 0;
        if was_detached {
            ComponentUpdate::render(RenderRequest::Immediate)
        } else {
            ComponentUpdate::none()
        }
    }

    /// Takes the focus from the tool calls.
    pub fn blur_tools(&mut self) -> (update: ComponentUpdate<TranscriptEffect>)
        ensures
            final(self)@ == old(self)@.blurred().story,
            story_answers(update, old(self)@.blurred()),
    {
        if !self.tools_focused {
            return ComponentUpdate::none();
        }
        self.tools_focused = false;
        ComponentUpdate::render(RenderRequest::Immediate)
    }

    /// Carries out a command for the tool calls.
    pub fn update_tool(&mut self, command: ToolCommand) -> (update: ComponentUpdate<
        TranscriptEffect,
    >)
        ensures
            final(self)@ == old(self)@.on_tool(command).story,
            story_answers(update, old(self)@.on_tool(command)),
    {
        match command {
            ToolCommand::Previous => self.select_tool(false),
            ToolCommand::Next => self.select_tool(true),
            ToolCommand::Toggle => self.toggle_selected_tool(),
            ToolCommand::Click { row } => {
                let entry: u64 = match self.entry_in_row(row) {
                    Some(entry) => entry,
                    None => return ComponentUpdate::none(),
                };
                self.tools_focused = true;
                self.selected_tool = Some(entry);
                self.toggle_selected_tool()
            },
        }
    }

    /// Selects the next tool call, or the one in front.
    pub fn select_tool(&mut self, down: bool) -> (update: ComponentUpdate<TranscriptEffect>)
        ensures
            final(self)@ == old(self)@.tool_selected(down).story,
            story_answers(update, old(self)@.tool_selected(down)),
    {
        let count: usize = self.content.entries.len();
        let at: usize = match self.selected_tool {
            Some(id) => self.content.index_of(id),
            None => count,
        };
        let found: Option<usize> = if down && at < count {
            self.content.first_tool(at + 1)
        } else {
            self.content.last_tool(at)
        };
        let index: usize = match found {
            Some(index) => index,
            None => return ComponentUpdate::none(),
        };
        let id: u64 = self.content.entries[index].id;
        self.selected_tool = Some(id);
        if self.row_of(id).is_none() {
            self.viewport.pending_tool = Some(PendingToolAnchor::Reveal(id));
        }
        ComponentUpdate::render(RenderRequest::Immediate)
    }

    /// Folds or unfolds the selected tool call; it stays in its row.
    pub fn toggle_selected_tool(&mut self) -> (update: ComponentUpdate<TranscriptEffect>)
        ensures
            final(self)@ == old(self)@.tool_toggled().story,
            story_answers(update, old(self)@.tool_toggled()),
    {
        let id: u64 = match self.selected_tool {
            Some(id) => id,
            None => return ComponentUpdate::none(),
        };
        let index: usize = self.content.index_of(id);
        if index == self.content.entries.len() {
            return ComponentUpdate::none();
        }
        let row: u16 = match self.row_of(id) {
            Some(row) => row.saturating_sub(self.transcript_y),
            None => 0,
        };
        self.cache.toggle(&self.content.entries[index]);
        self.viewport.pending_tool = Some(PendingToolAnchor::Preserve { entry: id, row });
        ComponentUpdate::render(RenderRequest::Immediate)
    }

    /// The number of rows of a page.
    pub fn page_size(&self) -> (rows: i32)
        ensures
            rows == self@.page(),
            rows >= 1,
    {
        if self.viewport_height > 3 {
            (self.viewport_height - 2) as i32
        } else {
            1
        }
    }

    /// Handles an event.
    pub fn update(&mut self, event: TranscriptEvent) -> (update: ComponentUpdate<TranscriptEffect>)
        ensures
            final(self)@ == old(self)@.on_event(event).story,
            story_answers(update, old(self)@.on_event(event)),
    {
        match event {
            TranscriptEvent::Record(change) => self.update_record(change),
            TranscriptEvent::AgentStreamClosed(change) => self.agent_stream_closed(change),
            TranscriptEvent::Scroll(command) => self.update_scroll(command),
            TranscriptEvent::FollowTail => self.follow_tail(),
            TranscriptEvent::BlurTools => self.blur_tools(),
            TranscriptEvent::Tool(command) => self.update_tool(command),
            TranscriptEvent::ToggleExpandAll => {
                self.cache.toggle_all();
                ComponentUpdate::render(RenderRequest::Immediate)
            },
            TranscriptEvent::AnimationFrame(now) => self.update_animation(now),
        }
    }
}

} // verus!
