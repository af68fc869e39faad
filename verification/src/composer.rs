//! The prompt composer: keys and pastes become edits, submissions and requests.

use crate::draft::{Draft, Editing};
use crate::event::{Event, KeyCode, KeyEvent};
use crate::format::{shorten_home, shortened};
use crate::geometry::{least, Rect};
use crate::history::{PromptHistory, Recall};
use crate::layout::VisualLayout;
use crate::prompt::{tokens, PastedImage, PromptModel, Submission, Token};
use crate::root_view::{earlier, earlier_of};
use crate::settings::ReasoningEffort;
use crate::text::{
    before, blank_prefix, byte_len, characters, cut, is_offset, is_white_space, offset_at, slice,
    starts_with, trim, trim_bounds, trim_leading, trimmed, white_space, without_leading,
};
use crate::tool::str_view;
use vstd::prelude::*;

verus! {

/// The number of tokens that the model can attend to.
pub const MODEL_WINDOW_TOKENS: u64 = 272_000;

/// What the composer asks of its owner.
#[derive(Debug)]
pub enum ComposerEffect {
    Submit(Submission),
    RunShell(String),
    OpenDraftEditor,
}

/// A request as mathematical values.
pub enum Request {
    Submit(PromptModel),
    RunShell(Seq<char>),
    OpenDraftEditor,
}

impl View for ComposerEffect {
    type V = Request;

    open spec fn view(&self) -> Request {
        match self {
            ComposerEffect::Submit(prompt) => Request::Submit(prompt@),
            ComposerEffect::RunShell(command) => Request::RunShell(command@),
            ComposerEffect::OpenDraftEditor => Request::OpenDraftEditor,
        }
    }
}

/// A part of the composer's border that answers to a click.
#[derive(Clone, Copy, Debug, PartialEq, Eq, Structural)]
pub enum ComposerChromeTarget {
    Effort,
    Subagents,
}

/// What happens to the composer.
#[derive(Debug)]
pub enum ComposerEvent {
    Terminal(Event),
    PasteImage(String),
    ContextTokens(u64),
    Insert(String),
    ReplaceDraft(String),
    ReplaceRange { start: usize, end: usize, text: String },
    SetEffort(ReasoningEffort),
    SetFastMode(bool),
    Activity { active: bool, status: Option<String> },
    ActiveSubagents { count: usize },
    /// A frame of the animations, which says whether each of them looks different now.
    AnimationFrame { activity: bool, subagents: bool },
}

/// A layout with the width and the cursor that it was made for.
#[derive(Debug)]
pub struct CachedLayout {
    pub width: usize,
    pub cursor: usize,
    pub value: VisualLayout,
}

/// The prompt composer.
#[derive(Debug)]
pub struct Composer {
    pub edit: Draft,
    pub scroll: usize,
    pub last_width: usize,
    pub context_tokens: u64,
    pub workspace: String,
    pub thinking: ReasoningEffort,
    pub fast_mode: bool,
    pub activity_status: Option<String>,
    pub active_subagents: usize,
    pub effort_hit_area: Option<Rect>,
    pub subagent_hit_area: Option<Rect>,
    pub layout: Option<CachedLayout>,
    pub history: PromptHistory,
}

/// A composer as mathematical values.
pub struct ComposerModel {
    pub edit: Editing,
    pub scroll: int,
    pub width: int,
    pub history: Recall,
    pub tokens: int,
    pub effort: ReasoningEffort,
    pub fast: bool,
    pub status: Option<Seq<char>>,
    pub subagents: int,
}

/// The characters of an optional string.
pub open spec fn option_view(text: Option<String>) -> Option<Seq<char>> {
    match text {
        Some(value) => Some(value@),
        None => None,
    }
}

impl View for Composer {
    type V = ComposerModel;

    open spec fn view(&self) -> ComposerModel {
        ComposerModel {
            edit: self.edit@,
            scroll: self.scroll as int,
            width: self.last_width as int,
            history: self.history@,
            tokens: self.context_tokens as int,
            effort: self.thinking,
            fast: self.fast_mode,
            status: option_view(self.activity_status),
            subagents: self.active_subagents as int,
        }
    }
}

/// Whether the composer changed, and what it asks for.
#[derive(Debug)]
pub struct ComposerUpdate {
    pub effect: Option<ComposerEffect>,
    pub changed: bool,
}

/// The composer after an event, whether it changed, and what it asks for.
pub struct Reaction {
    pub model: ComposerModel,
    pub effect: Option<Request>,
    pub changed: bool,
}

impl ComposerUpdate {
    /// The request as mathematical values.
    pub open spec fn request(self) -> Option<Request> {
        match self.effect {
            Some(effect) => Some(effect@),
            None => None,
        }
    }

    /// Nothing changed.
    pub fn unchanged() -> (update: Self)
        ensures
            update.effect is None,
            !update.changed,
    {
        ComposerUpdate { effect: None, changed: false }
    }

    /// Something changed.
    pub fn changed() -> (update: Self)
        ensures
            update.effect is None,
            update.changed,
    {
        ComposerUpdate { effect: None, changed: true }
    }

    /// A request.
    pub fn effect(effect: ComposerEffect, changed: bool) -> (update: Self)
        ensures
            update.effect == Some(effect),
            update.changed == changed,
    {
        ComposerUpdate { effect: Some(effect), changed }
    }

    /// Something changed or not.
    pub fn from_change(changed: bool) -> (update: Self)
        ensures
            update.effect is None,
            update.changed == changed,
    {
        ComposerUpdate { effect: None, changed }
    }
}

/// What submitting a draft means.
pub enum Outcome {
    Nothing,
    Shell(Seq<char>),
    Prompt(PromptModel),
}

/// The tokens among the first `n` that lie between two offsets, counted from the first offset.
pub open spec fn tokens_between(images: Seq<Token>, n: int, start: int, end: int) -> Seq<Token>
    decreases n,
{
    if n <= 0 {
        Seq::empty()
    } else {
        let rest = tokens_between(images, n - 1, start, end);
        let t = images[n - 1];
        if start <= t.start && t.end <= end {
            rest.push(Token { start: t.start - start, end: t.end - start, data_url: t.data_url })
        } else {
            rest
        }
    }
}

/// A blank draft submits nothing. A draft that begins with `!` and holds no image is a shell
/// command, unless nothing is left of it; any other draft is a prompt. White space at the ends is
/// cut off.
pub open spec fn outcome(edit: Editing) -> Outcome {
    let text = trimmed(edit.text);
    let command = trimmed(without_leading(text, '!'));
    let start = byte_len(edit.text.take(blank_prefix(edit.text))) as int;
    if text.len() == 0 {
        Outcome::Nothing
    } else if edit.images.len() == 0 && edit.text[0] == '!' {
        if command.len() == 0 {
            Outcome::Nothing
        } else {
            Outcome::Shell(command)
        }
    } else {
        Outcome::Prompt(
            PromptModel {
                text,
                images: tokens_between(
                    edit.images,
                    edit.images.len() as int,
                    start,
                    start + byte_len(text),
                ),
            },
        )
    }
}

/// The share of the model's window that a number of tokens takes, in percent, rounded.
pub open spec fn percent_of_window(tokens: int) -> int {
    least(least(tokens * 100, u64::MAX as int) + 136_000, u64::MAX as int) / 272_000
}

impl Editing {
    /// The cursor stands at the start of the text or behind white space.
    pub open spec fn at_token_boundary(self) -> bool {
        let head = before(self.text, self.cursor);
        head.len() == 0 || is_white_space(head.last())
    }
}

impl ComposerModel {
    /// When one of the composer's labels changes by itself. `activity` and `subagents` say when the
    /// highlights of the status and of the subagents' count step on; there is one where there is
    /// such a label.
    pub open spec fn deadline(self, activity: Option<u64>, subagents: Option<u64>) -> Option<u64> {
        earlier(
            if self.status is Some {
                activity
            } else {
                None
            },
            if self.subagents > 0 {
                subagents
            } else {
                None
            },
        )
    }

    pub open spec fn wf(self) -> bool {
        self.edit.wf() && self.history.wf()
    }

    /// A composer without a draft.
    pub open spec fn fresh(thinking: ReasoningEffort) -> ComposerModel {
        ComposerModel {
            edit: Editing::replaced(Seq::empty()),
            scroll: 0,
            width: 78,
            history: Recall { entries: Seq::empty(), position: None, draft: Seq::empty() },
            tokens: 0,
            effort: thinking,
            fast: false,
            status: None,
            subagents: 0,
        }
    }

    /// Other work goes on.
    pub open spec fn busy(self, active: bool, status: Option<Seq<char>>) -> Reaction {
        let shown = if active {
            status
        } else {
            None
        };
        if self.status == shown {
            self.ignored()
        } else {
            ComposerModel { status: shown, ..self }.noticed()
        }
    }

    /// A text is put in place of another one.
    pub open spec fn exchanged(self, start: int, end: int, text: Seq<char>) -> Reaction {
        if start <= end && is_offset(self.edit.text, start) && is_offset(self.edit.text, end) {
            ComposerModel {
                edit: self.edit.cut_out(start, end).inserted(text),
                ..self.detached()
            }.noticed()
        } else {
            self.ignored()
        }
    }

    pub open spec fn detached(self) -> ComposerModel {
        ComposerModel { history: self.history.detached(), ..self }
    }

    /// The composer with another text, scrolled to its top.
    pub open spec fn replaced(self, text: Seq<char>) -> ComposerModel {
        ComposerModel { edit: Editing::replaced(text), scroll: 0, ..self }
    }

    pub open spec fn inserted(self, text: Seq<char>) -> ComposerModel {
        ComposerModel { edit: self.edit.inserted(text), ..self }
    }

    /// Nothing happens.
    pub open spec fn ignored(self) -> Reaction {
        Reaction { model: self, effect: None, changed: false }
    }

    /// The composer changes and asks for nothing.
    pub open spec fn noticed(self) -> Reaction {
        Reaction { model: self, effect: None, changed: true }
    }

    /// An edit that takes place or not.
    pub open spec fn tried(self, step: Option<Editing>) -> Reaction {
        match step {
            Some(edit) => ComposerModel { edit, ..self }.noticed(),
            None => self.ignored(),
        }
    }

    /// The draft is submitted, recorded and cleared.
    pub open spec fn submitted(self) -> Reaction {
        match outcome(self.edit) {
            Outcome::Nothing => self.ignored(),
            Outcome::Shell(command) => Reaction {
                model: ComposerModel {
                    history: self.history.recorded("!"@ + command),
                    ..self
                }.replaced(Seq::empty()),
                effect: Some(Request::RunShell(command)),
                changed: true,
            },
            Outcome::Prompt(prompt) => Reaction {
                model: ComposerModel {
                    history: self.history.recorded(prompt.text),
                    ..self
                }.replaced(Seq::empty()),
                effect: Some(Request::Submit(prompt)),
                changed: true,
            },
        }
    }

    /// The cursor moves up a row; in the first row an earlier prompt is recalled.
    pub open spec fn moved_up(self) -> Reaction {
        if self.history.position is None && self.edit.up(self.width) is Some {
            self.tried(self.edit.up(self.width))
        } else if self.history.has_previous() {
            let history = self.history.back(self.edit.text);
            ComposerModel { history, ..self }.replaced(history.shown()).noticed()
        } else {
            self.ignored()
        }
    }

    /// The cursor moves down a row; while a prompt is recalled, the next one or the draft returns.
    pub open spec fn moved_down(self) -> Reaction {
        if self.history.position is None {
            self.tried(self.edit.down(self.width))
        } else {
            let history = self.history.forward();
            let text = if history.position is Some {
                history.shown()
            } else {
                self.history.draft
            };
            ComposerModel { history, ..self }.replaced(text).noticed()
        }
    }

    /// A key is pressed.
    pub open spec fn on_key(self, key: KeyEvent) -> Reaction {
        if !key.down() {
            self.ignored()
        } else if key.modifiers.control {
            match key.code {
                KeyCode::Char('g') => Reaction {
                    model: self,
                    effect: Some(Request::OpenDraftEditor),
                    changed: false,
                },
                KeyCode::Char('j') => self.detached().inserted("\n"@).noticed(),
                _ => self.ignored(),
            }
        } else {
            let free = self.detached();
            match key.code {
                KeyCode::Enter => if key.modifiers.shift {
                    free.inserted("\n"@).noticed()
                } else {
                    self.submitted()
                },
                KeyCode::Char(c) => free.inserted(seq![c]).noticed(),
                KeyCode::Left => free.tried(self.edit.left()),
                KeyCode::Right => free.tried(self.edit.right()),
                KeyCode::Up => self.moved_up(),
                KeyCode::Down => self.moved_down(),
                KeyCode::Home => free.tried(self.edit.at_edge(false, self.width)),
                KeyCode::End => free.tried(self.edit.at_edge(true, self.width)),
                KeyCode::Backspace => free.tried(self.edit.without_previous()),
                KeyCode::Delete => free.tried(self.edit.without_next()),
                _ => self.ignored(),
            }
        }
    }

    /// An event arrives.
    pub open spec fn on_event(self, event: ComposerEvent) -> Reaction {
        match event {
            ComposerEvent::Terminal(Event::Key(key)) => self.on_key(key),
            ComposerEvent::Terminal(Event::Paste(text)) => self.detached().inserted(text@).noticed(),
            ComposerEvent::Terminal(_) => self.ignored(),
            ComposerEvent::PasteImage(data_url) => ComposerModel {
                edit: self.edit.with_image(data_url@),
                ..self.detached()
            }.noticed(),
            ComposerEvent::ContextTokens(tokens) => if self.tokens == tokens {
                self.ignored()
            } else {
                ComposerModel { tokens: tokens as int, ..self }.noticed()
            },
            ComposerEvent::Insert(text) => self.detached().inserted(text@).noticed(),
            ComposerEvent::ReplaceDraft(text) => self.detached().replaced(text@).noticed(),
            ComposerEvent::ReplaceRange { start, end, text } => self.exchanged(
                start as int,
                end as int,
                text@,
            ),
            ComposerEvent::SetEffort(effort) => if self.effort == effort {
                self.ignored()
            } else {
                ComposerModel { effort, ..self }.noticed()
            },
            ComposerEvent::SetFastMode(fast) => if self.fast == fast {
                self.ignored()
            } else {
                ComposerModel { fast, ..self }.noticed()
            },
            ComposerEvent::Activity { active, status } => self.busy(active, option_view(status)),
            ComposerEvent::ActiveSubagents { count } => if self.subagents == count {
                self.ignored()
            } else {
                ComposerModel { subagents: count as int, ..self }.noticed()
            },
            ComposerEvent::AnimationFrame { activity, subagents } => Reaction {
                model: self,
                effect: None,
                changed: (self.status is Some && activity) || (self.subagents > 0 && subagents),
            },
        }
    }
}

/// The share of the model's window that a number of tokens takes, in percent, rounded.
pub fn context_percent(tokens: u64) -> (percent: u64)
    ensures
        percent == percent_of_window(tokens as int),
{
    let hundredfold: u64 = if tokens > 184467440737095516 {
        u64::MAX
    } else {
        tokens * 100
    };
    hundredfold.saturating_add(MODEL_WINDOW_TOKENS / 2) / MODEL_WINDOW_TOKENS
}

impl Composer {
    /// The composer's parts fit together.
    pub open spec fn wf(self) -> bool {
        &&& self@.wf()
        &&& self.layout matches Some(cached) ==> cached.value.describes(
            self.edit@.text,
            cached.cursor as int,
            cached.width as int,
        )
    }

    /// The composer answers an event.
    pub open spec fn answers(
        old_self: Composer,
        new_self: Composer,
        update: ComposerUpdate,
        reaction: Reaction,
    ) -> bool {
        &&& new_self@ == reaction.model
        &&& update.request() == reaction.effect
        &&& update.changed == reaction.changed
        &&& new_self.wf()
        &&& new_self.workspace == old_self.workspace
        &&& new_self.effort_hit_area == old_self.effort_hit_area
        &&& new_self.subagent_hit_area == old_self.subagent_hit_area
    }

    /// The composer without a draft. It shows the directory `workspace`, shortened against the home
    /// directory.
    pub fn new(workspace: &str, home: Option<&str>, thinking: ReasoningEffort) -> (composer: Self)
        ensures
            composer.wf(),
            composer@ == ComposerModel::fresh(thinking),
            composer.workspace@ == shortened(workspace@, str_view(home)),
            composer.effort_hit_area is None,
            composer.subagent_hit_area is None,
    {
        let composer = Composer {
            edit: Draft::new(),
            scroll: 0,
            last_width: 78,
            context_tokens: 0,
            workspace: shorten_home(workspace, home),
            thinking,
            fast_mode: false,
            activity_status: None,
            active_subagents: 0,
            effort_hit_area: None,
            subagent_hit_area: None,
            layout: None,
            history: PromptHistory::new(),
        };
        assert(composer@.history.entries =~= Seq::<Seq<char>>::empty());
        assert(composer@.history.draft =~= Seq::<char>::empty());
        composer
    }

    /// When one of the composer's labels changes by itself. `activity` and `subagents` say when the
    /// highlights of the status and of the subagents' count step on.
    pub fn animation_deadline(&self, activity: Option<u64>, subagents: Option<u64>) -> (time: Option<
        u64,
    >)
        ensures
            time == self@.deadline(activity, subagents),
    {
        earlier_of(
            if self.activity_status.is_some() {
                activity
            } else {
                None
            },
            if self.active_subagents > 0 {
                subagents
            } else {
                None
            },
        )
    }

    /// The number of tokens of the context.
    pub fn context_tokens(&self) -> (tokens: u64)
        ensures
            tokens == self@.tokens,
    {
        self.context_tokens
    }

    /// Whether the fast mode is on.
    pub fn fast_mode(&self) -> (fast: bool)
        ensures
            fast == self@.fast,
    {
        self.fast_mode
    }

    /// Whether the cursor stands at the start of the text or behind white space.
    pub fn cursor_is_at_token_boundary(&self) -> (yes: bool)
        requires
            self.wf(),
        ensures
            yes == self@.edit.at_token_boundary(),
    {
        let (head, _) = cut(self.edit.text.as_str(), self.edit.cursor);
        let chars = characters(head);
        chars.len() == 0 || white_space(chars[chars.len() - 1])
    }

    /// The text under edit.
    pub fn draft(&self) -> (text: &str)
        ensures
            text@ == self@.edit.text,
    {
        self.edit.text.as_str()
    }

    /// The byte offset of the cursor.
    pub fn cursor(&self) -> (at: usize)
        ensures
            at == self@.edit.cursor,
    {
        self.edit.cursor
    }

    /// The reasoning effort that is shown.
    pub fn effort(&self) -> (effort: ReasoningEffort)
        ensures
            effort == self@.effort,
    {
        self.thinking
    }

    /// Puts a text in place of the draft.
    pub fn replace_draft(&mut self, draft: String)
        requires
            old(self).wf(),
        ensures
            Self::answers(
                *old(self),
                *final(self),
                (ComposerUpdate { effect: None, changed: true }),
                old(self)@.replaced(draft@).noticed(),
            ),
    {
        self.edit.replace_draft(draft);
        self.scroll = 0;
        self.layout = None;
    }

    fn insert(&mut self, text: &str)
        requires
            old(self).wf(),
        ensures
            Self::answers(
                *old(self),
                *final(self),
                (ComposerUpdate { effect: None, changed: true }),
                old(self)@.detached().inserted(text@).noticed(),
            ),
    {
        self.history.detach();
        self.edit.insert(text);
        self.layout = None;
    }

    /// Submits the draft.
    pub fn submit(&mut self) -> (update: ComposerUpdate)
        requires
            old(self).wf(),
        ensures
            Self::answers(*old(self), *final(self), update, old(self)@.submitted()),
    {
        let ghost edit = self@.edit;
        let (start, end) = trim_bounds(self.edit.text.as_str());
        let text: String = slice(self.edit.text.as_str(), start, end).to_owned();
        if text.as_str().is_empty() {
            return ComposerUpdate::unchanged();
        }
        proof {
            assert(edit.text.len() > 0) by {
                if edit.text.len() == 0 {
                    assert(trimmed(edit.text).len() == 0);
                }
            }
        }
        if self.edit.images.len() == 0 && starts_with(self.edit.text.as_str(), '!') {
            let command: String = trim(trim_leading(text.as_str(), '!')).to_owned();
            if command.as_str().is_empty() {
                return ComposerUpdate::unchanged();
            }
            self.history.record(crate::text::concat("!", command.as_str()));
            self.replace_draft(String::new());
            return ComposerUpdate::effect(ComposerEffect::RunShell(command), true);
        }
        let mut images: Vec<PastedImage> = Vec::new();
        let mut i: usize = 0;
        while i < self.edit.images.len()
            invariant
                i <= self.edit.images.len(),
                self.edit@ == edit,
                edit.wf(),
                start <= end,
                tokens(images@) == tokens_between(
                    edit.images,
                    i as int,
                    start as int,
                    end as int,
                ),
            decreases self.edit.images.len() - i,
        {
            let ghost sofar = tokens(images@);
            assert(edit.images[i as int] == self.edit.images@[i as int]@);
            let image = &self.edit.images[i];
            if start <= image.start && image.end <= end {
                assert(edit.images[i as int].start < edit.images[i as int].end);
                images.push(
                    PastedImage {
                        start: image.start - start,
                        end: image.end - start,
                        data_url: image.data_url.clone(),
                    },
                );
                assert(tokens(images@) =~= sofar.push(images@.last()@));
            }
            i = i + 1;
        }
        let prompt = Submission::multimodal(text.clone(), images);
        self.history.record(text);
        self.replace_draft(String::new());
        ComposerUpdate::effect(ComposerEffect::Submit(prompt), true)
    }

    /// Moves the cursor up a row, or recalls an earlier prompt.
    pub fn move_up(&mut self) -> (changed: bool)
        requires
            old(self).wf(),
        ensures
            Self::answers(
                *old(self),
                *final(self),
                (ComposerUpdate { effect: None, changed }),
                old(self)@.moved_up(),
            ),
    {
        if !self.history.is_browsing() && self.edit.move_vertical(true, self.last_width) {
            return true;
        }
        match self.history.previous(self.edit.text.as_str()) {
            None => false,
            Some(prompt) => {
                self.replace_draft(prompt);
                true
            },
        }
    }

    /// Moves the cursor down a row, or goes on to the next recalled prompt.
    pub fn move_down(&mut self) -> (changed: bool)
        requires
            old(self).wf(),
        ensures
            Self::answers(
                *old(self),
                *final(self),
                (ComposerUpdate { effect: None, changed }),
                old(self)@.moved_down(),
            ),
    {
        if !self.history.is_browsing() {
            return self.edit.move_vertical(false, self.last_width);
        }
        match self.history.next() {
            None => false,
            Some(prompt) => {
                self.replace_draft(prompt);
                true
            },
        }
    }

    /// Handles a key.
    pub fn handle_key(&mut self, key: KeyEvent) -> (update: ComposerUpdate)
        requires
            old(self).wf(),
        ensures
            Self::answers(*old(self), *final(self), update, old(self)@.on_key(key)),
    {
        if !key.is_down() {
            return ComposerUpdate::unchanged();
        }
        if key.modifiers.control {
            return match key.code {
                KeyCode::Char('g') => ComposerUpdate::effect(
                    ComposerEffect::OpenDraftEditor,
                    false,
                ),
                KeyCode::Char('j') => {
                    self.insert("\n");
                    ComposerUpdate::changed()
                },
                _ => ComposerUpdate::unchanged(),
            };
        }
        match key.code {
            KeyCode::Enter => {
                if key.modifiers.shift {
                    self.insert("\n");
                    ComposerUpdate::changed()
                } else {
                    self.submit()
                }
            },
            KeyCode::Char(character) => {
                let mut text = String::new();
                text.push(character);
                assert(text@ =~= seq![character]);
                self.insert(text.as_str());
                ComposerUpdate::changed()
            },
            KeyCode::Left => {
                self.history.detach();
                ComposerUpdate::from_change(self.edit.move_left())
            },
            KeyCode::Right => {
                self.history.detach();
                ComposerUpdate::from_change(self.edit.move_right())
            },
            KeyCode::Up => ComposerUpdate::from_change(self.move_up()),
            KeyCode::Down => ComposerUpdate::from_change(self.move_down()),
            KeyCode::Home => {
                self.history.detach();
                ComposerUpdate::from_change(
                    self.edit.move_to_visual_edge(false, self.last_width),
                )
            },
            KeyCode::End => {
                self.history.detach();
                ComposerUpdate::from_change(self.edit.move_to_visual_edge(true, self.last_width))
            },
            KeyCode::Backspace => {
                self.history.detach();
                let changed: bool = self.edit.backspace();
                if changed {
                    self.layout = None;
                }
                ComposerUpdate::from_change(changed)
            },
            KeyCode::Delete => {
                self.history.detach();
                let changed: bool = self.edit.delete();
                if changed {
                    self.layout = None;
                }
                ComposerUpdate::from_change(changed)
            },
            _ => ComposerUpdate::unchanged(),
        }
    }

    /// Handles an event.
    pub fn update(&mut self, event: ComposerEvent) -> (update: ComposerUpdate)
        requires
            old(self).wf(),
        ensures
            Self::answers(*old(self), *final(self), update, old(self)@.on_event(event)),
    {
        match event {
            ComposerEvent::Terminal(Event::Key(key)) => self.handle_key(key),
            ComposerEvent::Terminal(Event::Paste(text)) => {
                self.insert(text.as_str());
                ComposerUpdate::changed()
            },
            ComposerEvent::Terminal(_) => ComposerUpdate::unchanged(),
            ComposerEvent::PasteImage(data_url) => {
                self.history.detach();
                self.edit.insert_image(data_url);
                self.layout = None;
                ComposerUpdate::changed()
            },
            ComposerEvent::ContextTokens(tokens) => {
                if self.context_tokens == tokens {
                    return ComposerUpdate::unchanged();
                }
                self.context_tokens = tokens;
                ComposerUpdate::changed()
            },
            ComposerEvent::Insert(text) => {
                self.insert(text.as_str());
                ComposerUpdate::changed()
            },
            ComposerEvent::ReplaceDraft(draft) => {
                self.history.detach();
                self.replace_draft(draft);
                ComposerUpdate::changed()
            },
            ComposerEvent::ReplaceRange { start, end, text } => {
                if start > end || !offset_at(self.edit.text.as_str(), start) || !offset_at(
                    self.edit.text.as_str(),
                    end,
                ) {
                    return ComposerUpdate::unchanged();
                }
                self.history.detach();
                self.edit.replace_range(start, end, text.as_str());
                self.layout = None;
                ComposerUpdate::changed()
            },
            ComposerEvent::SetEffort(effort) => {
                if self.thinking == effort {
                    return ComposerUpdate::unchanged();
                }
                self.thinking = effort;
                ComposerUpdate::changed()
            },
            ComposerEvent::SetFastMode(enabled) => {
                if self.fast_mode == enabled {
                    return ComposerUpdate::unchanged();
                }
                self.fast_mode = enabled;
                ComposerUpdate::changed()
            },
            ComposerEvent::Activity { active, status } => {
                let status: Option<String> = if active {
                    status
                } else {
                    None
                };
                if same_status(&self.activity_status, &status) {
                    return ComposerUpdate::unchanged();
                }
                self.activity_status = status;
                ComposerUpdate::changed()
            },
            ComposerEvent::ActiveSubagents { count } => {
                if self.active_subagents == count {
                    return ComposerUpdate::unchanged();
                }
                self.active_subagents = count;
                ComposerUpdate::changed()
            },
            ComposerEvent::AnimationFrame { activity, subagents } => {
                ComposerUpdate::from_change(
                    (self.activity_status.is_some() && activity) || (self.active_subagents > 0
                        && subagents),
                )
            },
        }
    }
}

/// Whether two optional strings are equal.
pub fn same_status(a: &Option<String>, b: &Option<String>) -> (yes: bool)
    ensures
        yes == (option_view(*a) == option_view(*b)),
{
    match (a, b) {
        (Some(x), Some(y)) => crate::text::same(x.as_str(), y.as_str()),
        (None, None) => true,
        _ => false,
    }
}

} // verus!
