//! Prompts that wait for the current turn, and those that are sent into it.

use crate::draw::{
    bold_colored, colored, paint, say, strokes, words, Look, Paint, Stroke, Tone, Word, Words,
};
use crate::event::{Event, KeyCode, KeyEvent};
use crate::geometry::{inside, least, minus, smaller, to_cell, Rect};
use crate::node::{ComponentUpdate, RenderRequest};
use crate::prompt::{plain, prompts_view, PromptModel, Submission};
use crate::text::concat;
use vstd::prelude::*;

verus! {

/// Whether a prompt waits, is sent into the turn, or was on its way when the turn was interrupted.
/// `admitted` tells that the agent took it.
#[derive(Clone, Copy, Debug, PartialEq, Eq, Structural)]
pub enum ItemState {
    Ready,
    Steering { admitted: bool },
    Interrupted { admitted: bool },
}

/// A prompt in the queue.
#[derive(Debug)]
pub struct QueueItem {
    pub id: u64,
    pub prompt: Submission,
    pub state: ItemState,
}

/// A prompt in the queue as mathematical values.
pub struct Item {
    pub id: u64,
    pub prompt: PromptModel,
    pub state: ItemState,
}

impl View for QueueItem {
    type V = Item;

    open spec fn view(&self) -> Item {
        Item { id: self.id, prompt: self.prompt@, state: self.state }
    }
}

pub open spec fn items_view(list: Seq<QueueItem>) -> Seq<Item> {
    list.map_values(|item: QueueItem| item@)
}

/// What the queue asks of its owner.
#[derive(Debug)]
pub enum QueueEffect {
    Blur,
    Edit { index: usize, text: String },
    Steer { id: u64, prompt: Submission },
}

/// A request as mathematical values.
pub enum QueueRequest {
    Blur,
    Edit { index: int, text: Seq<char> },
    Steer { id: u64, prompt: PromptModel },
}

impl View for QueueEffect {
    type V = QueueRequest;

    open spec fn view(&self) -> QueueRequest {
        match self {
            QueueEffect::Blur => QueueRequest::Blur,
            QueueEffect::Edit { index, text } => QueueRequest::Edit {
                index: *index as int,
                text: text@,
            },
            QueueEffect::Steer { id, prompt } => QueueRequest::Steer { id: *id, prompt: prompt@ },
        }
    }
}

/// The queue: its prompts, the selected one, whether it has the focus, the next identifier, and the
/// number of prompts that the agent applied before it told that it took them.
#[derive(Debug)]
pub struct MessageQueue {
    pub items: Vec<QueueItem>,
    pub selected: usize,
    pub focused: bool,
    pub next_id: u64,
    pub early: usize,
}

/// The queue as mathematical values.
pub struct Line {
    pub items: Seq<Item>,
    pub selected: int,
    pub focused: bool,
    pub next_id: u64,
    pub early: int,
}

impl View for MessageQueue {
    type V = Line;

    open spec fn view(&self) -> Line {
        Line {
            items: items_view(self.items@),
            selected: self.selected as int,
            focused: self.focused,
            next_id: self.next_id,
            early: self.early as int,
        }
    }
}

/// The queue after an event, and its answer.
pub struct LineStep {
    pub line: Line,
    pub effect: Option<QueueRequest>,
    pub render: RenderRequest,
}

/// The answer of a step.
pub open spec fn line_answers(update: ComponentUpdate<QueueEffect>, step: LineStep) -> bool {
    &&& update.render == step.render
    &&& match step.effect {
        Some(effect) => update.effects@.len() == 1 && update.effects@[0]@ == effect,
        None => update.effects@.len() == 0,
    }
}

/// The index of a prompt from index `from` on, or the number of prompts.
pub open spec fn item_index(items: Seq<Item>, id: u64, from: int) -> int
    decreases items.len() - from,
{
    if from >= items.len() {
        items.len() as int
    } else if items[from].id == id {
        from
    } else {
        item_index(items, id, from + 1)
    }
}

/// The agent took the prompt, and has not applied it.
pub open spec fn is_admitted(state: ItemState) -> bool {
    state == (ItemState::Steering { admitted: true }) || state == (ItemState::Interrupted {
        admitted: true,
    })
}

/// The prompt is on its way, and the agent has not told that it took it.
pub open spec fn is_unacknowledged(state: ItemState) -> bool {
    state == (ItemState::Steering { admitted: false }) || state == (ItemState::Interrupted {
        admitted: false,
    })
}

/// The index of the first prompt that the agent took, from index `from` on, or the number of
/// prompts.
pub open spec fn admitted_index(items: Seq<Item>, from: int) -> int
    decreases items.len() - from,
{
    if from >= items.len() {
        items.len() as int
    } else if is_admitted(items[from].state) {
        from
    } else {
        admitted_index(items, from + 1)
    }
}

/// The prompts among the first `n` in a state: interrupted ones, or ready ones.
pub open spec fn prompts_in(items: Seq<Item>, interrupted: bool, n: int) -> Seq<PromptModel>
    decreases n,
{
    if n <= 0 {
        Seq::empty()
    } else {
        let front = prompts_in(items, interrupted, n - 1);
        let state = items[n - 1].state;
        if (interrupted && state is Interrupted) || (!interrupted && state is Ready) {
            front.push(items[n - 1].prompt)
        } else {
            front
        }
    }
}

/// The prompts among the first `n` that are sent into the turn.
pub open spec fn steering_in(items: Seq<Item>, n: int) -> Seq<Item>
    decreases n,
{
    if n <= 0 {
        Seq::empty()
    } else if items[n - 1].state is Steering {
        steering_in(items, n - 1).push(items[n - 1])
    } else {
        steering_in(items, n - 1)
    }
}

pub open spec fn with_state(item: Item, state: ItemState) -> Item {
    Item { state, ..item }
}

pub open spec fn interrupted(item: Item) -> Item {
    match item.state {
        ItemState::Steering { admitted } => Item {
            state: ItemState::Interrupted { admitted },
            ..item
        },
        _ => item,
    }
}

pub open spec fn acknowledged(item: Item) -> Item {
    match item.state {
        ItemState::Steering { .. } => Item {
            state: ItemState::Steering { admitted: true },
            ..item
        },
        ItemState::Interrupted { .. } => Item {
            state: ItemState::Interrupted { admitted: true },
            ..item
        },
        ItemState::Ready => item,
    }
}

pub open spec fn next_number(n: u64) -> u64 {
    if n == u64::MAX {
        u64::MAX
    } else {
        (n + 1) as u64
    }
}

impl Line {
    pub open spec fn empty_line() -> Line {
        Line { items: Seq::empty(), selected: 0, focused: false, next_id: 0, early: 0 }
    }

    /// One of the prompts is selected if there is any.
    pub open spec fn wf(self) -> bool {
        0 <= self.selected <= minus(self.items.len() as int, 1)
    }

    /// A prompt is sent into the turn.
    pub open spec fn steers(self) -> bool {
        exists|i: int| 0 <= i < self.items.len() && (#[trigger] self.items[i]).state is Steering
    }

    /// A prompt is on its way, and the agent has not told that it took it.
    pub open spec fn expects(self) -> bool {
        exists|i: int|
            0 <= i < self.items.len() && is_unacknowledged((#[trigger] self.items[i]).state)
    }

    /// With a prompt at an index, which is selected.
    pub open spec fn inserted(self, index: int, prompt: PromptModel) -> Line {
        Line {
            items: self.items.insert(
                index,
                Item { id: self.next_id, prompt, state: ItemState::Ready },
            ),
            selected: index,
            next_id: next_number(self.next_id),
            ..self
        }
    }

    /// With a prompt behind the others, which is selected.
    pub open spec fn pushed(self, prompt: PromptModel) -> Line {
        self.inserted(self.items.len() as int, prompt)
    }

    /// With a prompt put back where it was.
    pub open spec fn restored(self, index: int, text: Seq<char>) -> Line {
        self.inserted(least(index, self.items.len() as int), plain(text))
    }

    /// With other prompts: the selection stays among them, and an empty queue has no focus.
    pub open spec fn with_items(self, items: Seq<Item>) -> Line {
        Line {
            items,
            selected: least(self.selected, minus(items.len() as int, 1)),
            focused: self.focused && items.len() > 0,
            ..self
        }
    }

    /// Without the prompt at an index.
    pub open spec fn removed(self, index: int) -> Line {
        self.with_items(self.items.remove(index))
    }

    /// The agent took a prompt. If it applied one before, the prompt is gone.
    pub open spec fn admitted(self, id: u64) -> (Line, Option<PromptModel>) {
        let i = item_index(self.items, id, 0);
        if i >= self.items.len() || self.items[i].state is Ready {
            (self, None)
        } else if self.early > 0 {
            (Line { early: self.early - 1, ..self.removed(i) }, Some(self.items[i].prompt))
        } else {
            (
                Line { items: self.items.update(i, acknowledged(self.items[i])), ..self },
                None,
            )
        }
    }

    /// The agent applied a prompt: the first one that it took. If it told of none yet, that is kept
    /// in mind.
    pub open spec fn applied(self) -> (Line, Option<PromptModel>) {
        let i = admitted_index(self.items, 0);
        if i < self.items.len() {
            (self.removed(i), Some(self.items[i].prompt))
        } else if self.expects() && self.early < usize::MAX {
            (Line { early: self.early + 1, ..self }, None)
        } else {
            (self, None)
        }
    }

    /// The agent made a turn of its own of a prompt.
    pub open spec fn promoted(self, id: u64) -> Line {
        let i = item_index(self.items, id, 0);
        if i >= self.items.len() {
            self
        } else {
            self.removed(i)
        }
    }

    /// A prompt could not be sent into the turn: it waits again.
    pub open spec fn failed(self, id: u64) -> Line {
        let i = item_index(self.items, id, 0);
        if i >= self.items.len() {
            self
        } else {
            Line {
                items: self.items.update(i, with_state(self.items[i], ItemState::Ready)),
                ..self
            }
        }
    }

    /// The turn was interrupted.
    pub open spec fn cancelled(self) -> Line {
        Line { items: self.items.map_values(|item: Item| interrupted(item)), ..self }
    }

    /// The prompts for the next turn: those that an interruption stopped come first.
    pub open spec fn ready(self) -> Seq<PromptModel> {
        let n = self.items.len() as int;
        prompts_in(self.items, true, n) + prompts_in(self.items, false, n)
    }

    /// Without the prompts for the next turn.
    pub open spec fn drained(self) -> Line {
        self.with_items(steering_in(self.items, self.items.len() as int))
    }

    pub open spec fn idle(self) -> LineStep {
        LineStep { line: self, effect: None, render: RenderRequest::Idle }
    }

    pub open spec fn shown(self) -> LineStep {
        LineStep { line: self, effect: None, render: RenderRequest::Immediate }
    }

    pub open spec fn asking(self, effect: QueueRequest) -> LineStep {
        LineStep { line: self, effect: Some(effect), render: RenderRequest::Immediate }
    }

    pub open spec fn on_key(self, key: KeyEvent) -> LineStep {
        let here = self.items[self.selected];
        let waits = self.selected < self.items.len() && here.state is Ready;
        if !key.down() {
            self.idle()
        } else {
            match key.code {
                KeyCode::Up => Line { selected: minus(self.selected, 1), ..self }.shown(),
                KeyCode::Down => Line {
                    selected: least(self.selected + 1, minus(self.items.len() as int, 1)),
                    ..self
                }.shown(),
                KeyCode::Enter => if waits {
                    Line {
                        items: self.items.update(
                            self.selected,
                            with_state(here, ItemState::Steering { admitted: false }),
                        ),
                        ..self
                    }.asking(QueueRequest::Steer { id: here.id, prompt: here.prompt })
                } else {
                    self.idle()
                },
                KeyCode::Char('e') => if waits {
                    self.removed(self.selected).asking(
                        QueueRequest::Edit { index: self.selected, text: here.prompt.text },
                    )
                } else {
                    self.idle()
                },
                KeyCode::Esc => Line { focused: false, ..self }.asking(QueueRequest::Blur),
                _ => self.idle(),
            }
        }
    }

    pub open spec fn on_event(self, event: Event) -> LineStep {
        match event {
            Event::Key(key) => self.on_key(key),
            _ => self.idle(),
        }
    }

    /// The rows that the queue wants: one for each prompt between the two of its border.
    pub open spec fn height(self) -> int {
        if self.items.len() == 0 {
            0
        } else {
            least(self.items.len() as int + 2, u16::MAX as int)
        }
    }

    /// The queue after a click on a row of its area.
    pub open spec fn row_focused(self, row: int, area: Rect) -> Line {
        Line {
            selected: least(minus(row, area.y + 1), minus(self.items.len() as int, 1)),
            focused: self.items.len() > 0,
            ..self
        }
    }
}

impl MessageQueue {
    /// An empty queue.
    pub fn new() -> (queue: Self)
        ensures
            queue@ == Line::empty_line(),
            queue@.wf(),
    {
        let queue = MessageQueue {
            items: Vec::new(),
            selected: 0,
            focused: false,
            next_id: 0,
            early: 0,
        };
        assert(queue@.items =~= Seq::<Item>::empty());
        queue
    }

    /// The number of prompts.
    pub fn len(&self) -> (count: usize)
        ensures
            count == self@.items.len(),
    {
        self.items.len()
    }

    /// Whether no prompt waits.
    pub fn is_empty(&self) -> (yes: bool)
        ensures
            yes == (self@.items.len() == 0),
    {
        self.items.len() == 0
    }

    /// Whether the queue has the focus.
    pub fn focused(&self) -> (yes: bool)
        ensures
            yes == self@.focused,
    {
        self.focused
    }

    /// Gives or takes the focus.
    pub fn set_focused(&mut self, focused: bool)
        ensures
            final(self)@ == (Line { focused, ..old(self)@ }),
    {
        self.focused = focused;
    }

    fn insert(&mut self, index: usize, prompt: Submission)
        requires
            index <= old(self).items@.len(),
        ensures
            final(self)@ == old(self)@.inserted(index as int, prompt@),
            final(self)@.wf(),
    {
        let ghost line = self@;
        let item = QueueItem { id: self.next_id, prompt, state: ItemState::Ready };
        self.items.insert(index, item);
        self.selected = index;
        self.next_id = self.next_id.saturating_add(1);
        assert(self@.items =~= line.inserted(index as int, prompt@).items);
    }

    /// Puts a prompt behind the others and selects it.
    pub fn push(&mut self, prompt: Submission)
        ensures
            final(self)@ == old(self)@.pushed(prompt@),
            final(self)@.wf(),
    {
        let count: usize = self.items.len();
        self.insert(count, prompt);
    }

    /// Puts a prompt back where it was.
    pub fn restore(&mut self, index: usize, text: String)
        ensures
            final(self)@ == old(self)@.restored(index as int, text@),
            final(self)@.wf(),
    {
        let count: usize = self.items.len();
        let at: usize = if index <= count {
            index
        } else {
            count
        };
        self.insert(at, Submission::plain_text(text));
    }

    fn settle(&mut self)
        ensures
            final(self)@ == (Line {
                selected: least(
                    old(self)@.selected,
                    minus(old(self)@.items.len() as int, 1),
                ),
                focused: old(self)@.focused && old(self)@.items.len() > 0,
                ..old(self)@
            }),
            final(self)@.wf(),
    {
        let last: usize = self.items.len().saturating_sub(1);
        if self.selected > last {
            self.selected = last;
        }
        if self.items.len() == 0 {
            self.focused = false;
        }
    }

    fn take(&mut self, index: usize) -> (prompt: Submission)
        requires
            index < old(self).items@.len(),
        ensures
            final(self)@ == old(self)@.removed(index as int),
            prompt@ == old(self)@.items[index as int].prompt,
            final(self)@.wf(),
    {
        let ghost line = self@;
        assert(line.items[index as int] == self.items@[index as int]@);
        let item: QueueItem = self.items.remove(index);
        assert(self@.items =~= line.items.remove(index as int));
        self.settle();
        item.prompt
    }

    fn index_of(&self, id: u64) -> (index: usize)
        ensures
            index == item_index(self@.items, id, 0),
            index <= self.items@.len(),
    {
        let mut i: usize = 0;
        while i < self.items.len() && self.items[i].id != id
            invariant
                i <= self.items@.len(),
                item_index(self@.items, id, i as int) == item_index(self@.items, id, 0),
            decreases self.items@.len() - i,
        {
            assert(self@.items[i as int] == self.items@[i as int]@);
            i = i + 1;
        }
        if i < self.items.len() {
            assert(self@.items[i as int] == self.items@[i as int]@);
        }
        i
    }

    /// Whether a prompt is sent into the turn.
    pub fn has_pending_steer(&self) -> (yes: bool)
        ensures
            yes == self@.steers(),
    {
        let mut i: usize = 0;
        while i < self.items.len()
            invariant
                i <= self.items@.len(),
                forall|k: int| 0 <= k < i ==> !((#[trigger] self@.items[k]).state is Steering),
            decreases self.items@.len() - i,
        {
            assert(self@.items[i as int] == self.items@[i as int]@);
            match self.items[i].state {
                ItemState::Steering { .. } => return true,
                _ => {},
            }
            i = i + 1;
        }
        false
    }

    fn expects_news(&self) -> (yes: bool)
        ensures
            yes == self@.expects(),
    {
        let mut i: usize = 0;
        while i < self.items.len()
            invariant
                i <= self.items@.len(),
                forall|k: int|
                    0 <= k < i ==> !is_unacknowledged((#[trigger] self@.items[k]).state),
            decreases self.items@.len() - i,
        {
            assert(self@.items[i as int] == self.items@[i as int]@);
            match self.items[i].state {
                ItemState::Steering { admitted } => {
                    if !admitted {
                        return true;
                    }
                },
                ItemState::Interrupted { admitted } => {
                    if !admitted {
                        return true;
                    }
                },
                ItemState::Ready => {},
            }
            i = i + 1;
        }
        false
    }

    fn set_state(&mut self, index: usize, state: ItemState)
        requires
            index < old(self).items@.len(),
        ensures
            final(self)@ == (Line {
                items: old(self)@.items.update(
                    index as int,
                    with_state(old(self)@.items[index as int], state),
                ),
                ..old(self)@
            }),
    {
        let ghost line = self@;
        assert(line.items[index as int] == self.items@[index as int]@);
        self.items[index].state = state;
        assert(self@.items =~= line.items.update(
            index as int,
            with_state(line.items[index as int], state),
        ));
    }

    /// The agent took a prompt; returns it if the agent has applied it already.
    pub fn steer_admitted(&mut self, id: u64) -> (prompt: Option<Submission>)
        requires
            old(self)@.wf(),
        ensures
            final(self)@ == old(self)@.admitted(id).0,
            prompt_view(prompt) == old(self)@.admitted(id).1,
            final(self)@.wf(),
    {
        let i: usize = self.index_of(id);
        if i == self.items.len() {
            return None;
        }
        assert(self@.items[i as int] == self.items@[i as int]@);
        let next: ItemState = match self.items[i].state {
            ItemState::Ready => return None,
            ItemState::Steering { .. } => ItemState::Steering { admitted: true },
            ItemState::Interrupted { .. } => ItemState::Interrupted { admitted: true },
        };
        if self.early > 0 {
            self.early = self.early - 1;
            let prompt: Submission = self.take(i);
            return Some(prompt);
        }
        self.set_state(i, next);
        None
    }

    /// The agent applied a prompt; returns it if it is known which.
    pub fn steer_applied(&mut self) -> (prompt: Option<Submission>)
        requires
            old(self)@.wf(),
        ensures
            final(self)@ == old(self)@.applied().0,
            prompt_view(prompt) == old(self)@.applied().1,
            final(self)@.wf(),
    {
        let mut i: usize = 0;
        while i < self.items.len()
            invariant
                self == old(self),
                self@.wf(),
                i <= self.items@.len(),
                admitted_index(self@.items, i as int) == admitted_index(self@.items, 0),
            decreases self.items@.len() - i,
        {
            assert(self@.items[i as int] == self.items@[i as int]@);
            let admitted: bool = match self.items[i].state {
                ItemState::Steering { admitted } => admitted,
                ItemState::Interrupted { admitted } => admitted,
                ItemState::Ready => false,
            };
            if admitted {
                let prompt: Submission = self.take(i);
                return Some(prompt);
            }
            i = i + 1;
        }
        if self.expects_news() && self.early < usize::MAX {
            self.early = self.early + 1;
        }
        None
    }

    /// The agent made a turn of its own of a prompt.
    pub fn steer_promoted(&mut self, id: u64)
        requires
            old(self)@.wf(),
        ensures
            final(self)@ == old(self)@.promoted(id),
            final(self)@.wf(),
    {
        let i: usize = self.index_of(id);
        if i < self.items.len() {
            let _ = self.take(i);
        }
    }

    /// A prompt could not be sent into the turn.
    pub fn steer_failed(&mut self, id: u64)
        requires
            old(self)@.wf(),
        ensures
            final(self)@ == old(self)@.failed(id),
            final(self)@.wf(),
    {
        let i: usize = self.index_of(id);
        if i < self.items.len() {
            self.set_state(i, ItemState::Ready);
        }
    }

    /// The turn was interrupted.
    pub fn cancel_steers(&mut self)
        requires
            old(self)@.wf(),
        ensures
            final(self)@ == old(self)@.cancelled(),
            final(self)@.wf(),
    {
        let ghost line = self@;
        let mut i: usize = 0;
        let total: usize = self.items.len();
        while i < total
            invariant
                total == self.items@.len(),
                line.items.len() == total,
                self.selected == line.selected,
                self.focused == line.focused,
                self.next_id == line.next_id,
                self.early == line.early,
                i <= total,
                forall|k: int| 0 <= k < i ==> (#[trigger] self.items@[k])@ == interrupted(
                    line.items[k],
                ),
                forall|k: int| i <= k < total ==> (#[trigger] self.items@[k])@ == line.items[k],
            decreases total - i,
        {
            assert(self.items@[i as int]@ == line.items[i as int]);
            match self.items[i].state {
                ItemState::Steering { admitted } => {
                    self.items[i].state = ItemState::Interrupted { admitted };
                },
                _ => {},
            }
            i = i + 1;
        }
        assert(self@.items =~= line.cancelled().items);
    }

    /// Takes the prompts for the next turn.
    pub fn drain_ready(&mut self) -> (prompts: Vec<Submission>)
        requires
            old(self)@.wf(),
        ensures
            final(self)@ == old(self)@.drained(),
            prompts_view(prompts@) == old(self)@.ready(),
            final(self)@.wf(),
    {
        let ghost line = self@;
        let ghost given = self.items@;
        let mut rest: Vec<QueueItem> = Vec::new();
        let mut first: Vec<Submission> = Vec::new();
        let mut second: Vec<Submission> = Vec::new();
        let mut kept: Vec<QueueItem> = Vec::new();
        std::mem::swap(&mut rest, &mut self.items);
        let total: usize = rest.len();
        let mut n: usize = 0;
        assert(prompts_view(first@) =~= prompts_in(line.items, true, 0));
        assert(prompts_view(second@) =~= prompts_in(line.items, false, 0));
        assert(items_view(kept@) =~= steering_in(line.items, 0));
        assert(rest@ =~= given.skip(0));
        while rest.len() > 0
            invariant
                line.items == items_view(given),
                total == given.len(),
                n + rest@.len() == total,
                rest@ == given.skip(n as int),
                prompts_view(first@) == prompts_in(line.items, true, n as int),
                prompts_view(second@) == prompts_in(line.items, false, n as int),
                items_view(kept@) == steering_in(line.items, n as int),
            decreases rest@.len(),
        {
            let ghost a = prompts_view(first@);
            let ghost b = prompts_view(second@);
            let ghost c = items_view(kept@);
            let item: QueueItem = rest.remove(0);
            assert(item@ == line.items[n as int]);
            match item.state {
                ItemState::Interrupted { .. } => {
                    let prompt: Submission = item.prompt;
                    first.push(prompt);
                    assert(prompts_view(first@) =~= a.push(prompt@));
                },
                ItemState::Ready => {
                    let prompt: Submission = item.prompt;
                    second.push(prompt);
                    assert(prompts_view(second@) =~= b.push(prompt@));
                },
                ItemState::Steering { .. } => {
                    kept.push(item);
                    assert(items_view(kept@) =~= c.push(item@));
                },
            }
            n = n + 1;
            assert(rest@ =~= given.skip(n as int));
        }
        let ghost a = prompts_view(first@);
        let ghost b = prompts_view(second@);
        first.append(&mut second);
        assert(prompts_view(first@) =~= a + b);
        self.items = kept;
        self.settle();
        first
    }

    /// Handles an event.
    pub fn update(&mut self, event: &Event) -> (update: ComponentUpdate<QueueEffect>)
        requires
            old(self)@.wf(),
        ensures
            final(self)@ == old(self)@.on_event(*event).line,
            line_answers(update, old(self)@.on_event(*event)),
            final(self)@.wf(),
    {
        let key: &KeyEvent = match event {
            Event::Key(key) => key,
            _ => return ComponentUpdate::none(),
        };
        if !key.is_down() {
            return ComponentUpdate::none();
        }
        let count: usize = self.items.len();
        assert(self@.items.len() == count);
        let waits: bool = if self.selected < count {
            assert(self@.items[self.selected as int] == self.items@[self.selected as int]@);
            match self.items[self.selected].state {
                ItemState::Ready => true,
                _ => false,
            }
        } else {
            false
        };
        match key.code {
            KeyCode::Up => {
                self.selected = self.selected.saturating_sub(1);
                ComponentUpdate::render(RenderRequest::Immediate)
            },
            KeyCode::Down => {
                if count > 0 && self.selected < count - 1 {
                    self.selected = self.selected + 1;
                }
                ComponentUpdate::render(RenderRequest::Immediate)
            },
            KeyCode::Enter => {
                if !waits {
                    return ComponentUpdate::none();
                }
                let id: u64 = self.items[self.selected].id;
                let prompt: Submission = self.items[self.selected].prompt.copy();
                self.set_state(self.selected, ItemState::Steering { admitted: false });
                ComponentUpdate::one(QueueEffect::Steer { id, prompt }, RenderRequest::Immediate)
            },
            KeyCode::Char('e') => {
                if !waits {
                    return ComponentUpdate::none();
                }
                let index: usize = self.selected;
                let prompt: Submission = self.take(index);
                ComponentUpdate::one(
                    QueueEffect::Edit { index, text: prompt.text },
                    RenderRequest::Immediate,
                )
            },
            KeyCode::Esc => {
                self.focused = false;
                ComponentUpdate::one(QueueEffect::Blur, RenderRequest::Immediate)
            },
            _ => ComponentUpdate::none(),
        }
    }

    /// The rows that the queue wants.
    pub fn desired_height(&self) -> (rows: u16)
        ensures
            rows == self@.height(),
    {
        if self.items.len() == 0 {
            0
        } else {
            to_cell(self.items.len()).saturating_add(2)
        }
    }

    /// Selects the prompt in a row of the queue's area, and gives the queue the focus.
    pub fn focus_row(&mut self, row: u16, area: Rect)
        ensures
            final(self)@ == old(self)@.row_focused(row as int, area),
            final(self)@.wf(),
    {
        let last: usize = self.items.len().saturating_sub(1);
        let at: usize = (row.saturating_sub(area.y).saturating_sub(1)) as usize;
        self.selected = if at <= last {
            at
        } else {
            last
        };
        self.focused = self.items.len() > 0;
    }
}

pub open spec fn prompt_view(prompt: Option<Submission>) -> Option<PromptModel> {
    match prompt {
        Some(found) => Some(found@),
        None => None,
    }
}

/// The symbol of a prompt's state.
pub open spec fn state_mark(state: ItemState) -> Seq<char> {
    match state {
        ItemState::Ready => "  "@,
        ItemState::Steering { .. } => "» "@,
        ItemState::Interrupted { .. } => "! "@,
    }
}

impl Line {
    /// The row of a prompt.
    pub open spec fn row(self, i: int, body: Rect) -> Stroke {
        let chosen = self.focused && i == self.selected;
        Stroke::Line {
            area: Rect { x: body.x, y: (body.y + i) as u16, width: body.width, height: 1 },
            line: seq![
                Word {
                    text: state_mark(self.items[i].state) + self.items[i].prompt.text,
                    look: if chosen {
                        bold_colored(Tone::Accent)
                    } else {
                        colored(Tone::Text)
                    },
                },
            ],
            centered: false,
        }
    }

    /// The first `n` rows.
    pub open spec fn row_strokes(self, body: Rect, n: int) -> Seq<Stroke> {
        Seq::new(n as nat, |i: int| self.row(i, body))
    }

    /// What the queue draws over an area.
    pub open spec fn picture(self, area: Rect) -> Seq<Stroke> {
        let body = inside(area);
        if area.empty() {
            Seq::empty()
        } else {
            seq![
                Stroke::Border {
                    area,
                    title: " Queued "@,
                    border: if self.focused {
                        Tone::Accent
                    } else {
                        Tone::Border
                    },
                    title_tone: Tone::Accent,
                },
            ] + self.row_strokes(body, least(self.items.len() as int, body.height as int))
        }
    }
}

impl MessageQueue {
    /// Draws the queue over an area.
    pub fn render(&self, area: Rect, paints: &mut Vec<Paint>)
        requires
            area.fits(),
        ensures
            strokes(final(paints)@) == strokes(old(paints)@) + self@.picture(area),
    {
        let ghost start = strokes(paints@);
        if area.is_empty() {
            assert(strokes(paints@) =~= start + self@.picture(area));
            return ;
        }
        let body: Rect = crate::geometry::inner(area);
        paint(
            paints,
            Paint::Border {
                area,
                title: " Queued ".to_owned(),
                border: if self.focused {
                    Tone::Accent
                } else {
                    Tone::Border
                },
                title_tone: Tone::Accent,
            },
        );
        let ghost framed = strokes(paints@);
        let rows: u16 = smaller(to_cell(self.items.len()), body.height);
        let mut i: u16 = 0;
        assert(strokes(paints@) =~= framed + self@.row_strokes(body, 0));
        while i < rows
            invariant
                rows <= self.items@.len(),
                rows <= body.height,
                body.fits(),
                i <= rows,
                strokes(paints@) == framed + self@.row_strokes(body, i as int),
            decreases rows - i,
        {
            let item: &QueueItem = &self.items[i as usize];
            assert(self@.items[i as int] == item@);
            let mark: &str = match item.state {
                ItemState::Ready => "  ",
                ItemState::Steering { .. } => "» ",
                ItemState::Interrupted { .. } => "! ",
            };
            let look: Look = if self.focused && i as usize == self.selected {
                Look::bold(Tone::Accent)
            } else {
                Look::plain(Tone::Text)
            };
            let mut line: Vec<Words> = Vec::new();
            say(&mut line, concat(mark, item.prompt.text.as_str()), look);
            assert(words(line@) =~= seq![
                Word { text: state_mark(item.state) + item.prompt@.text, look },
            ]);
            paint(
                paints,
                Paint::Line {
                    area: Rect { x: body.x, y: body.y + i, width: body.width, height: 1 },
                    line,
                    centered: false,
                },
            );
            i = i + 1;
            assert(strokes(paints@) =~= framed + self@.row_strokes(body, i as int));
        }
        assert(strokes(paints@) =~= start + self@.picture(area));
    }
}

/// The prompts among the first `n` that are on their way to the agent.
pub open spec fn on_the_way(items: Seq<Item>, n: int) -> Seq<PromptModel>
    decreases n,
{
    if n <= 0 {
        Seq::empty()
    } else if items[n - 1].state is Ready {
        on_the_way(items, n - 1)
    } else {
        on_the_way(items, n - 1).push(items[n - 1].prompt)
    }
}

/// An interrupted turn sends nothing twice: every prompt that was on its way comes back first, in its
/// order, the others follow in theirs, and none is left that is sent into a turn.
pub proof fn law_interruption_keeps_every_prompt(line: Line)
    ensures
        !line.cancelled().steers(),
        line.cancelled().drained().items.len() == 0,
        line.cancelled().ready() == on_the_way(line.items, line.items.len() as int) + prompts_in(
            line.items,
            false,
            line.items.len() as int,
        ),
{
    let after = line.cancelled();
    lemma_nothing_steers(after.items, after.items.len() as int);
    lemma_interrupted(line, line.items.len() as int);
}

proof fn lemma_interrupted(line: Line, n: int)
    requires
        0 <= n <= line.items.len(),
    ensures
        prompts_in(line.cancelled().items, true, n) == on_the_way(line.items, n),
        prompts_in(line.cancelled().items, false, n) == prompts_in(line.items, false, n),
    decreases n,
{
    if n > 0 {
        lemma_interrupted(line, n - 1);
        assert(line.cancelled().items[n - 1] == interrupted(line.items[n - 1]));
    }
}

proof fn lemma_nothing_steers(items: Seq<Item>, n: int)
    requires
        0 <= n <= items.len(),
        forall|i: int| 0 <= i < items.len() ==> !((#[trigger] items[i]).state is Steering),
    ensures
        steering_in(items, n).len() == 0,
    decreases n,
{
    if n > 0 {
        lemma_nothing_steers(items, n - 1);
        assert(!(items[n - 1].state is Steering));
    }
}

/// The prompts of some items.
pub open spec fn prompts_of(items: Seq<Item>) -> Seq<PromptModel> {
    items.map_values(|item: Item| item.prompt)
}

proof fn lemma_parted(items: Seq<Item>, n: int)
    requires
        0 <= n <= items.len(),
    ensures
        prompts_in(items, true, n).to_multiset().add(prompts_in(items, false, n).to_multiset()).add(
            prompts_of(steering_in(items, n)).to_multiset(),
        ) == prompts_of(items.take(n)).to_multiset(),
    decreases n,
{
    broadcast use vstd::seq_lib::group_to_multiset_ensures;

    if n > 0 {
        lemma_parted(items, n - 1);
        let prompt = items[n - 1].prompt;
        assert(prompts_of(items.take(n)) =~= prompts_of(items.take(n - 1)).push(prompt));
        let steering = steering_in(items, n - 1);
        assert(prompts_of(steering.push(items[n - 1])) =~= prompts_of(steering).push(prompt));
        let before = prompts_in(items, true, n - 1).to_multiset().add(
            prompts_in(items, false, n - 1).to_multiset(),
        ).add(prompts_of(steering).to_multiset());
        let after = prompts_in(items, true, n).to_multiset().add(
            prompts_in(items, false, n).to_multiset(),
        ).add(prompts_of(steering_in(items, n)).to_multiset());
        assert(after =~= before.insert(prompt));
    } else {
        assert(prompts_of(items.take(0)) =~= Seq::<PromptModel>::empty());
        assert(prompts_of(steering_in(items, 0)) =~= Seq::<PromptModel>::empty());
        assert(Seq::<PromptModel>::empty().to_multiset().add(
            Seq::<PromptModel>::empty().to_multiset(),
        ).add(Seq::<PromptModel>::empty().to_multiset()) =~= Seq::<PromptModel>::empty().to_multiset());
    }
}

/// Taking the prompts for the next turn loses none and doubles none: each is taken or stays.
pub proof fn law_draining_loses_nothing(line: Line)
    ensures
        line.ready().to_multiset().add(prompts_of(line.drained().items).to_multiset())
            == prompts_of(line.items).to_multiset(),
{
    let n = line.items.len() as int;
    lemma_parted(line.items, n);
    assert(line.items.take(n) =~= line.items);
    vstd::seq_lib::lemma_multiset_commutative(
        prompts_in(line.items, true, n),
        prompts_in(line.items, false, n),
    );
}

/// A prompt that the agent applied leaves the queue, so it is not sent again; the others stay in
/// their order.
pub proof fn law_applied_prompts_leave(line: Line)
    requires
        line.applied().1 is Some,
    ensures
        ({
            let i = admitted_index(line.items, 0);
            &&& 0 <= i < line.items.len()
            &&& line.applied().1 == Some(line.items[i].prompt)
            &&& line.applied().0.items == line.items.remove(i)
        }),
{
    lemma_admitted_index(line.items, 0);
}

proof fn lemma_admitted_index(items: Seq<Item>, from: int)
    requires
        0 <= from <= items.len(),
    ensures
        from <= admitted_index(items, from) <= items.len(),
    decreases items.len() - from,
{
    if from < items.len() && !is_admitted(items[from].state) {
        lemma_admitted_index(items, from + 1);
    }
}

/// The agent may tell that it applied a prompt before or after it tells that it took it: the prompt
/// leaves the queue once, and the queue is the same in the end.
pub proof fn law_acknowledgements_may_come_late(line: Line, id: u64)
    requires
        item_index(line.items, id, 0) < line.items.len(),
        is_unacknowledged(line.items[item_index(line.items, id, 0)].state),
        admitted_index(line.items, 0) == line.items.len(),
        line.early == 0,
    ensures
        ({
            let i = item_index(line.items, id, 0);
            let early = line.applied().0.admitted(id);
            let late = line.admitted(id).0.applied();
            &&& line.applied().1 is None
            &&& line.admitted(id).1 is None
            &&& early == late
            &&& early == (line.removed(i), Some(line.items[i].prompt))
        }),
{
    let i = item_index(line.items, id, 0);
    lemma_item_index(line.items, id, 0);
    let taken = line.admitted(id).0;
    lemma_first_admitted(line.items, i, 0);
    assert(taken.items == line.items.update(i, acknowledged(line.items[i])));
    assert(taken.items.remove(i) =~= line.items.remove(i));
    assert(line.applied().0.items == line.items);
}

pub proof fn lemma_item_index(items: Seq<Item>, id: u64, from: int)
    requires
        0 <= from <= items.len(),
    ensures
        from <= item_index(items, id, from) <= items.len(),
    decreases items.len() - from,
{
    if from < items.len() && items[from].id != id {
        lemma_item_index(items, id, from + 1);
    }
}

proof fn lemma_first_admitted(items: Seq<Item>, i: int, from: int)
    requires
        0 <= from <= i < items.len(),
        is_unacknowledged(items[i].state),
        admitted_index(items, from) == items.len(),
    ensures
        admitted_index(items.update(i, acknowledged(items[i])), from) == i,
    decreases i - from,
{
    if from < i {
        lemma_first_admitted(items, i, from + 1);
    }
}

/// A prompt that is taken out to be edited and put back stands where it was.
pub proof fn law_editing_keeps_the_place(line: Line, text: Seq<char>)
    requires
        line.wf(),
        line.items.len() > 0,
        line.items[line.selected].state is Ready,
    ensures
        ({
            let back = line.removed(line.selected).restored(line.selected, text);
            &&& back.items.len() == line.items.len()
            &&& back.selected == line.selected
            &&& back.items[line.selected].prompt == plain(text)
            &&& forall|i: int|
                0 <= i < line.items.len() && i != line.selected ==> #[trigger] back.items[i]
                    == line.items[i]
        }),
{
}

} // verus!
