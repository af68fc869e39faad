//! A picker of prompts from this session or from all sessions.

use crate::actions::indices;
use crate::draw::{
    bold_colored, colored, items, lines, paint, say, strokes, words, Look, Paint, Stroke, Tone, Word,
    Words,
};
use crate::event::{Event, KeyCode, KeyEvent};
use crate::floating::{popup, Floating};
use crate::geometry::{least, minus, smaller, sum16, Rect};
use crate::node::{ComponentUpdate, RenderRequest};
use crate::numeral::{decimal, decimal_text};
use crate::search::{first_row, split_first_row};
use crate::session::RecentPrompt;
use crate::text::{characters, is_white_space, joined_with, same, white_space};
use vstd::prelude::*;

verus! {

/// The rows of the list at most.
pub const LIST_HEIGHT: u16 = 7;

/// What the picker asks of its owner.
#[derive(Debug)]
pub enum RecentPromptPickerEffect {
    Dismiss,
    Insert(String),
}

/// A request as mathematical values.
pub enum RecentRequest {
    Dismiss,
    Insert(Seq<char>),
}

impl View for RecentPromptPickerEffect {
    type V = RecentRequest;

    open spec fn view(&self) -> RecentRequest {
        match self {
            RecentPromptPickerEffect::Dismiss => RecentRequest::Dismiss,
            RecentPromptPickerEffect::Insert(text) => RecentRequest::Insert(text@),
        }
    }
}

/// What happens to the picker.
#[derive(Debug)]
pub enum RecentPromptPickerEvent {
    Terminal(Event),
}

/// Whose prompts are listed.
#[derive(Clone, Copy, Debug, PartialEq, Eq, Structural)]
pub enum RecentPromptScope {
    Global,
    CurrentSession,
}

/// The picker: prompts, the ones that are listed, and the selected one with its preview.
#[derive(Debug)]
pub struct RecentPromptPicker {
    pub prompts: Vec<RecentPrompt>,
    pub current_session_id: String,
    pub scope: RecentPromptScope,
    pub visible: Vec<usize>,
    pub selected: usize,
    pub preview_scroll: u16,
}

/// The indices of the first `n` prompts that are listed, in their order.
pub open spec fn listed(
    prompts: Seq<RecentPrompt>,
    current: Seq<char>,
    scope: RecentPromptScope,
    n: int,
) -> Seq<int>
    decreases n,
{
    if n <= 0 {
        Seq::empty()
    } else if scope == RecentPromptScope::Global || prompts[n - 1].session_id@ == current {
        listed(prompts, current, scope, n - 1).push(n - 1)
    } else {
        listed(prompts, current, scope, n - 1)
    }
}

proof fn lemma_listed(
    prompts: Seq<RecentPrompt>,
    current: Seq<char>,
    scope: RecentPromptScope,
    n: int,
)
    requires
        0 <= n <= prompts.len(),
    ensures
        forall|i: int|
            0 <= i < listed(prompts, current, scope, n).len() ==> 0 <= #[trigger] listed(
                prompts,
                current,
                scope,
                n,
            )[i] < n,
    decreases n,
{
    if n > 0 {
        lemma_listed(prompts, current, scope, n - 1);
        let rest = listed(prompts, current, scope, n - 1);
        let all = listed(prompts, current, scope, n);
        assert forall|i: int| 0 <= i < all.len() implies 0 <= #[trigger] all[i] < n by {
            if i < rest.len() {
                assert(all[i] == rest[i]);
            }
        }
    }
}

/// A picker as mathematical values.
pub struct RecentModel {
    pub prompts: Seq<RecentPrompt>,
    pub current: Seq<char>,
    pub scope: RecentPromptScope,
    pub visible: Seq<int>,
    pub selected: int,
    pub scroll: int,
}

impl View for RecentPromptPicker {
    type V = RecentModel;

    open spec fn view(&self) -> RecentModel {
        RecentModel {
            prompts: self.prompts@,
            current: self.current_session_id@,
            scope: self.scope,
            visible: indices(self.visible@),
            selected: self.selected as int,
            scroll: self.preview_scroll as int,
        }
    }
}

/// The picker after an event, and its answer.
pub struct RecentStep {
    pub picker: RecentModel,
    pub effect: Option<RecentRequest>,
    pub render: RenderRequest,
}

impl RecentModel {
    /// The listed prompts are those of the scope, and one of them is selected if there is any.
    pub open spec fn wf(self) -> bool {
        &&& self.visible == listed(
            self.prompts,
            self.current,
            self.scope,
            self.prompts.len() as int,
        )
        &&& self.selected == 0 || 0 <= self.selected < self.visible.len()
    }

    pub open spec fn idle(self) -> RecentStep {
        RecentStep { picker: self, effect: None, render: RenderRequest::Idle }
    }

    pub open spec fn shown(self) -> RecentStep {
        RecentStep { picker: self, effect: None, render: RenderRequest::Immediate }
    }

    pub open spec fn asking(self, effect: RecentRequest) -> RecentStep {
        RecentStep { picker: self, effect: Some(effect), render: RenderRequest::Immediate }
    }

    /// The picker in another scope, with its first prompt selected.
    pub open spec fn scoped(self, scope: RecentPromptScope) -> RecentModel {
        RecentModel {
            scope,
            visible: listed(self.prompts, self.current, scope, self.prompts.len() as int),
            selected: 0,
            scroll: 0,
            ..self
        }
    }

    pub open spec fn rescoped(self) -> RecentModel {
        self.scoped(
            match self.scope {
                RecentPromptScope::Global => RecentPromptScope::CurrentSession,
                RecentPromptScope::CurrentSession => RecentPromptScope::Global,
            },
        )
    }

    /// The selected prompt.
    pub open spec fn chosen(self) -> Option<RecentPrompt> {
        if self.visible.len() == 0 {
            None
        } else {
            Some(self.prompts[self.visible[self.selected]])
        }
    }

    pub open spec fn inserting(self) -> RecentStep {
        match self.chosen() {
            Some(prompt) => self.asking(RecentRequest::Insert(prompt.text@)),
            None => self.idle(),
        }
    }

    pub open spec fn on_key(self, key: KeyEvent) -> RecentStep {
        if !key.down() {
            self.idle()
        } else {
            match key.code {
                KeyCode::Esc => self.asking(RecentRequest::Dismiss),
                KeyCode::Up => RecentModel {
                    selected: minus(self.selected, 1),
                    scroll: 0,
                    ..self
                }.shown(),
                KeyCode::Down => RecentModel {
                    selected: if self.selected + 1 < self.visible.len() {
                        self.selected + 1
                    } else {
                        self.selected
                    },
                    scroll: 0,
                    ..self
                }.shown(),
                KeyCode::PageUp => RecentModel { scroll: minus(self.scroll, 1), ..self }.shown(),
                KeyCode::PageDown => RecentModel { scroll: sum16(self.scroll, 1), ..self }.shown(),
                KeyCode::Enter | KeyCode::Tab => self.inserting(),
                KeyCode::Char('f') => if key.modifiers.empty() {
                    self.rescoped().shown()
                } else {
                    self.idle()
                },
                _ => self.idle(),
            }
        }
    }

    pub open spec fn on_event(self, event: RecentPromptPickerEvent) -> RecentStep {
        match event {
            RecentPromptPickerEvent::Terminal(Event::Key(key)) => self.on_key(key),
            RecentPromptPickerEvent::Terminal(_) => self.idle(),
        }
    }
}

/// The answer of a step.
pub open spec fn replies(
    update: ComponentUpdate<RecentPromptPickerEffect>,
    step: RecentStep,
) -> bool {
    &&& update.render == step.render
    &&& match step.effect {
        Some(effect) => update.effects@.len() == 1 && update.effects@[0]@ == effect,
        None => update.effects@.len() == 0,
    }
}

/// The first `n` characters on one line: white space at the start is left out, and white space
/// between two words is one blank.
pub open spec fn on_one_line(s: Seq<char>, n: int) -> Seq<char>
    decreases n,
{
    if n <= 0 {
        Seq::empty()
    } else {
        let rest = on_one_line(s, n - 1);
        if is_white_space(s[n - 1]) {
            rest
        } else if rest.len() > 0 && n >= 2 && is_white_space(s[n - 2]) {
            rest.push(' ').push(s[n - 1])
        } else {
            rest.push(s[n - 1])
        }
    }
}

/// A text on one line, with one blank between its words.
pub fn one_line_preview(text: &str) -> (line: String)
    ensures
        line@ == on_one_line(text@, text@.len() as int),
{
    let chars = characters(text);
    let mut line = String::new();
    let mut started: bool = false;
    let mut gap: bool = false;
    let mut i: usize = 0;
    assert(line@ =~= on_one_line(text@, 0));
    while i < chars.len()
        invariant
            chars@ == text@,
            i <= chars@.len(),
            line@ == on_one_line(text@, i as int),
            started == (line@.len() > 0),
            gap == (i > 0 && is_white_space(text@[i - 1])),
        decreases chars@.len() - i,
    {
        if white_space(chars[i]) {
            gap = true;
        } else {
            if started && gap {
                line.push(' ');
            }
            line.push(chars[i]);
            started = true;
            gap = false;
        }
        i = i + 1;
    }
    line
}

/// The words of the first `n` characters: what stands between white space.
pub open spec fn words_in(s: Seq<char>, n: int) -> Seq<Seq<char>>
    decreases n,
{
    if n <= 0 {
        Seq::empty()
    } else {
        let words = words_in(s, n - 1);
        if is_white_space(s[n - 1]) {
            words
        } else if n >= 2 && !is_white_space(s[n - 2]) {
            words.drop_last().push(words.last().push(s[n - 1]))
        } else {
            words.push(seq![s[n - 1]])
        }
    }
}

/// Some characters without white space.
pub open spec fn is_word(word: Seq<char>) -> bool {
    &&& word.len() > 0
    &&& forall|i: int| 0 <= i < word.len() ==> !is_white_space(#[trigger] word[i])
}

/// Words with one blank between them.
pub open spec fn spaced(words: Seq<Seq<char>>) -> Seq<char> {
    joined_with(words, seq![' '])
}

proof fn lemma_words(s: Seq<char>, n: int)
    requires
        0 <= n <= s.len(),
    ensures
        forall|i: int| 0 <= i < words_in(s, n).len() ==> is_word(#[trigger] words_in(s, n)[i]),
        n > 0 && !is_white_space(s[n - 1]) ==> words_in(s, n).len() > 0,
        on_one_line(s, n) == spaced(words_in(s, n)),
        spaced(words_in(s, n)).len() > 0 <==> words_in(s, n).len() > 0,
    decreases n,
{
    if n > 0 {
        lemma_words(s, n - 1);
        let words = words_in(s, n - 1);
        let c = s[n - 1];
        if is_white_space(c) {
        } else if n >= 2 && !is_white_space(s[n - 2]) {
            let longer = words.drop_last().push(words.last().push(c));
            assert(is_word(words[words.len() - 1]));
            assert(is_word(words.last().push(c)));
            assert(longer.drop_last() =~= words.drop_last());
            assert(spaced(longer) =~= spaced(words).push(c));
        } else {
            let longer = words.push(seq![c]);
            assert(is_word(seq![c]));
            assert(longer.drop_last() =~= words);
            if words.len() > 0 {
                assert(spaced(longer) =~= spaced(words).push(' ').push(c));
            } else {
                assert(spaced(longer) =~= spaced(words).push(c));
            }
        }
    }
}

proof fn lemma_same_words(s: Seq<char>, t: Seq<char>, n: int)
    requires
        0 <= n <= s.len(),
        n <= t.len(),
        s.take(n) == t.take(n),
    ensures
        words_in(s, n) == words_in(t, n),
    decreases n,
{
    if n > 0 {
        assert(s[n - 1] == s.take(n)[n - 1] && t[n - 1] == t.take(n)[n - 1]);
        if n >= 2 {
            assert(s[n - 2] == s.take(n)[n - 2] && t[n - 2] == t.take(n)[n - 2]);
        }
        assert(s.take(n - 1) =~= s.take(n).take(n - 1));
        assert(t.take(n - 1) =~= t.take(n).take(n - 1));
        lemma_same_words(s, t, n - 1);
    }
}

proof fn lemma_another_word(t: Seq<char>, word: Seq<char>, k: int)
    requires
        is_word(word),
        1 <= k <= word.len(),
        t.len() > 0 ==> is_white_space(t.last()),
    ensures
        words_in(t + word, t.len() + k) == words_in(t, t.len() as int).push(word.take(k)),
    decreases k,
{
    let s = t + word;
    let n = t.len() + k;
    assert(s[n - 1] == word[k - 1]);
    if k == 1 {
        assert(s.take(t.len() as int) =~= t.take(t.len() as int));
        lemma_same_words(s, t, t.len() as int);
        assert(word.take(1) =~= seq![word[0]]);
        if n >= 2 {
            assert(s[n - 2] == t.last());
        }
    } else {
        lemma_another_word(t, word, k - 1);
        assert(s[n - 2] == word[k - 2]);
        let words = words_in(t, t.len() as int);
        assert(word.take(k) =~= word.take(k - 1).push(word[k - 1]));
        assert(words.push(word.take(k - 1)).drop_last() =~= words);
    }
}

proof fn lemma_spaced_words(words: Seq<Seq<char>>)
    requires
        forall|i: int| 0 <= i < words.len() ==> is_word(#[trigger] words[i]),
    ensures
        words_in(spaced(words), spaced(words).len() as int) == words,
    decreases words.len(),
{
    reveal(is_white_space);
    let line = spaced(words);
    if words.len() > 0 {
        let rest = words.drop_last();
        let word = words.last();
        assert(is_word(words[words.len() - 1]));
        assert forall|i: int| 0 <= i < rest.len() implies is_word(#[trigger] rest[i]) by {
            assert(rest[i] == words[i]);
        }
        lemma_spaced_words(rest);
        let front = if rest.len() == 0 {
            Seq::empty()
        } else {
            spaced(rest).push(' ')
        };
        if rest.len() > 0 {
            let n = spaced(rest).len() as int;
            assert(front.take(n) =~= spaced(rest).take(n));
            lemma_same_words(front, spaced(rest), n);
            assert(front[n] == ' ');
            assert(words_in(front, n + 1) == words_in(front, n));
        } else {
            assert(words[0] == words.last());
        }
        lemma_another_word(front, word, word.len() as int);
        assert(front + word =~= line);
        assert(word.take(word.len() as int) =~= word);
        assert(words_in(front, front.len() as int) =~= rest);
        assert(rest.push(word) =~= words);
    }
}

/// The only white space is a blank between two characters that are none.
pub open spec fn is_single_spaced(line: Seq<char>) -> bool {
    forall|i: int|
        0 <= i < line.len() && is_white_space(#[trigger] line[i]) ==> {
            &&& line[i] == ' '
            &&& 0 < i < line.len() - 1
            &&& !is_white_space(line[i - 1])
            &&& !is_white_space(line[i + 1])
        }
}

proof fn lemma_single_spaced(words: Seq<Seq<char>>)
    requires
        forall|i: int| 0 <= i < words.len() ==> is_word(#[trigger] words[i]),
    ensures
        is_single_spaced(spaced(words)),
        words.len() > 0 ==> spaced(words).len() > 0 && !is_white_space(spaced(words).last()),
    decreases words.len(),
{
    let line = spaced(words);
    if words.len() > 0 {
        let rest = words.drop_last();
        let word = words.last();
        assert(is_word(words[words.len() - 1]));
        assert forall|i: int| 0 <= i < rest.len() implies is_word(#[trigger] rest[i]) by {
            assert(rest[i] == words[i]);
        }
        lemma_single_spaced(rest);
        let front = spaced(rest);
        let n = if rest.len() == 0 {
            0
        } else {
            front.len() + 1
        };
        assert(line.len() == n + word.len());
        assert forall|i: int| 0 <= i < word.len() implies line[n + i] == #[trigger] word[i] by {}
        assert(line.last() == word[word.len() - 1]);
        assert forall|i: int| 0 <= i < line.len() && is_white_space(#[trigger] line[i]) implies {
            &&& line[i] == ' '
            &&& 0 < i < line.len() - 1
            &&& !is_white_space(line[i - 1])
            &&& !is_white_space(line[i + 1])
        } by {
            if i >= n {
                assert(line[i] == word[i - n]);
            } else if i == n - 1 {
                assert(line[i - 1] == front.last());
                assert(line[i + 1] == word[0]);
            } else {
                assert(line[i] == front[i]);
                assert(line[i - 1] == front[i - 1] && line[i + 1] == front[i + 1]);
            }
        }
    }
}

/// A text on one line has the words of the text in their order, with one blank between them and no
/// other white space. Put on one line again, it stays as it is.
pub proof fn law_previews_keep_the_words(s: Seq<char>)
    ensures
        ({
            let line = on_one_line(s, s.len() as int);
            let words = words_in(s, s.len() as int);
            &&& forall|i: int| 0 <= i < words.len() ==> is_word(#[trigger] words[i])
            &&& line == spaced(words)
            &&& is_single_spaced(line)
            &&& words_in(line, line.len() as int) == words
            &&& on_one_line(line, line.len() as int) == line
        }),
{
    let line = on_one_line(s, s.len() as int);
    lemma_words(s, s.len() as int);
    lemma_spaced_words(words_in(s, s.len() as int));
    lemma_single_spaced(words_in(s, s.len() as int));
    lemma_words(line, line.len() as int);
}

impl RecentPromptPicker {
    /// The picker with the prompts of all sessions.
    pub fn new(prompts: Vec<RecentPrompt>, current_session_id: String) -> (picker: Self)
        ensures
            picker@.wf(),
            picker@.prompts == prompts@,
            picker@.current == current_session_id@,
            picker@.scope == RecentPromptScope::Global,
            picker@.visible == listed(
                prompts@,
                current_session_id@,
                RecentPromptScope::Global,
                prompts@.len() as int,
            ),
            picker@.selected == 0,
            picker@.scroll == 0,
    {
        let mut picker = RecentPromptPicker {
            prompts,
            current_session_id,
            scope: RecentPromptScope::Global,
            visible: Vec::new(),
            selected: 0,
            preview_scroll: 0,
        };
        picker.refresh_visible();
        picker
    }

    /// Whose prompts are listed.
    pub fn scope(&self) -> (scope: RecentPromptScope)
        ensures
            scope == self@.scope,
    {
        self.scope
    }

    /// Lists the prompts of the scope again and selects the first one.
    pub fn refresh_visible(&mut self)
        ensures
            final(self)@ == old(self)@.scoped(old(self)@.scope),
            final(self)@.wf(),
    {
        let mut visible: Vec<usize> = Vec::new();
        let mut i: usize = 0;
        assert(indices(visible@) =~= listed(
            self.prompts@,
            self.current_session_id@,
            self.scope,
            0,
        ));
        while i < self.prompts.len()
            invariant
                i <= self.prompts@.len(),
                indices(visible@) == listed(
                    self.prompts@,
                    self.current_session_id@,
                    self.scope,
                    i as int,
                ),
            decreases self.prompts@.len() - i,
        {
            let ghost sofar = indices(visible@);
            if self.scope == RecentPromptScope::Global || same(
                self.prompts[i].session_id.as_str(),
                self.current_session_id.as_str(),
            ) {
                visible.push(i);
                assert(indices(visible@) =~= sofar.push(i as int));
            }
            i = i + 1;
        }
        self.visible = visible;
        self.selected = 0;
        self.preview_scroll = 0;
    }

    /// One request.
    pub fn effect(effect: RecentPromptPickerEffect) -> (update: ComponentUpdate<
        RecentPromptPickerEffect,
    >)
        ensures
            update.effects@ == seq![effect],
            update.render == RenderRequest::Immediate,
    {
        ComponentUpdate::one(effect, RenderRequest::Immediate)
    }

    /// Switches between this session and all sessions.
    pub fn toggle_scope(&mut self) -> (update: ComponentUpdate<RecentPromptPickerEffect>)
        ensures
            final(self)@ == old(self)@.rescoped(),
            final(self)@.wf(),
            update.only(RenderRequest::Immediate),
    {
        self.scope = match self.scope {
            RecentPromptScope::Global => RecentPromptScope::CurrentSession,
            RecentPromptScope::CurrentSession => RecentPromptScope::Global,
        };
        self.refresh_visible();
        ComponentUpdate::render(RenderRequest::Immediate)
    }

    /// The selected prompt.
    pub fn selected_prompt(&self) -> (prompt: Option<&RecentPrompt>)
        requires
            self@.wf(),
        ensures
            prompt is Some == self@.chosen() is Some,
            prompt matches Some(found) ==> *found == self@.chosen()->0,
    {
        if self.visible.len() == 0 {
            return None;
        }
        proof {
            lemma_listed(
                self@.prompts,
                self@.current,
                self@.scope,
                self@.prompts.len() as int,
            );
            assert(self@.visible[self@.selected] == self.visible@[self.selected as int]);
        }
        Some(&self.prompts[self.visible[self.selected]])
    }

    /// Inserts the selected prompt.
    pub fn select(&self) -> (update: ComponentUpdate<RecentPromptPickerEffect>)
        requires
            self@.wf(),
        ensures
            replies(update, self@.inserting()),
    {
        match self.selected_prompt() {
            None => ComponentUpdate::none(),
            Some(prompt) => Self::effect(RecentPromptPickerEffect::Insert(prompt.text.clone())),
        }
    }

    /// Handles a key.
    pub fn update_key(&mut self, key: KeyEvent) -> (update: ComponentUpdate<
        RecentPromptPickerEffect,
    >)
        requires
            old(self)@.wf(),
        ensures
            final(self)@ == old(self)@.on_key(key).picker,
            replies(update, old(self)@.on_key(key)),
            final(self)@.wf(),
    {
        if !key.is_down() {
            return ComponentUpdate::none();
        }
        match key.code {
            KeyCode::Esc => Self::effect(RecentPromptPickerEffect::Dismiss),
            KeyCode::Up => {
                self.selected = self.selected.saturating_sub(1);
                self.preview_scroll = 0;
                ComponentUpdate::render(RenderRequest::Immediate)
            },
            KeyCode::Down => {
                if self.visible.len() > 0 && self.selected < self.visible.len() - 1 {
                    self.selected = self.selected + 1;
                }
                self.preview_scroll = 0;
                ComponentUpdate::render(RenderRequest::Immediate)
            },
            KeyCode::PageUp => {
                self.preview_scroll = self.preview_scroll.saturating_sub(1);
                ComponentUpdate::render(RenderRequest::Immediate)
            },
            KeyCode::PageDown => {
                self.preview_scroll = self.preview_scroll.saturating_add(1);
                ComponentUpdate::render(RenderRequest::Immediate)
            },
            KeyCode::Enter | KeyCode::Tab => self.select(),
            KeyCode::Char('f') => {
                if !key.modifiers.is_empty() {
                    return ComponentUpdate::none();
                }
                self.toggle_scope()
            },
            _ => ComponentUpdate::none(),
        }
    }

    /// Handles an event.
    pub fn update(&mut self, event: RecentPromptPickerEvent) -> (update: ComponentUpdate<
        RecentPromptPickerEffect,
    >)
        requires
            old(self)@.wf(),
        ensures
            final(self)@ == old(self)@.on_event(event).picker,
            replies(update, old(self)@.on_event(event)),
            final(self)@.wf(),
    {
        match event {
            RecentPromptPickerEvent::Terminal(Event::Key(key)) => self.update_key(key),
            RecentPromptPickerEvent::Terminal(_) => ComponentUpdate::none(),
        }
    }
}

/// Switching the scope twice lists the same prompts again.
pub proof fn law_scope_toggles_back(picker: RecentModel)
    requires
        picker.wf(),
    ensures
        picker.rescoped().rescoped().scope == picker.scope,
        picker.rescoped().rescoped().visible == picker.visible,
{
}

/// The line of a prompt: its number and text, and where it is from if all sessions are listed.
pub open spec fn prompt_line(prompt: RecentPrompt, number: int, scope: RecentPromptScope) -> Seq<
    Word,
> {
    let first = seq![
        Word {
            text: decimal(number) + ". "@ + on_one_line(prompt.text@, prompt.text@.len() as int),
            look: colored(Tone::Text),
        },
    ];
    if scope == RecentPromptScope::Global {
        first.push(
            Word {
                text: "  · "@ + prompt.workspace@ + " · "@ + prompt.session_id@,
                look: colored(Tone::Muted),
            },
        )
    } else {
        first
    }
}

/// The keys that the footer names.
pub open spec fn recent_keys() -> Seq<&'static str> {
    seq!["↑↓ move", "pgup/pgdn preview", "enter/tab select", "f scope", "esc close"]
}

impl RecentModel {
    pub open spec fn scope_strokes(self, area: Rect) -> Seq<Stroke> {
        if area.empty() {
            Seq::empty()
        } else {
            seq![
                Stroke::Line {
                    area,
                    line: seq![
                        Word { text: "Scope: "@, look: colored(Tone::Muted) },
                        Word {
                            text: match self.scope {
                                RecentPromptScope::Global => "Global"@,
                                RecentPromptScope::CurrentSession => "Current session"@,
                            },
                            look: bold_colored(Tone::Text),
                        },
                    ],
                    centered: false,
                },
            ]
        }
    }

    pub open spec fn prompt_items(self) -> Seq<Seq<Seq<Word>>> {
        Seq::new(
            self.visible.len(),
            |i: int| seq![prompt_line(self.prompts[self.visible[i]], i + 1, self.scope)],
        )
    }

    pub open spec fn list_strokes(self, area: Rect) -> Seq<Stroke> {
        if area.empty() {
            Seq::empty()
        } else if self.visible.len() == 0 {
            seq![
                Stroke::Line {
                    area,
                    line: seq![
                        Word { text: "No prompts in this scope"@, look: colored(Tone::Muted) },
                    ],
                    centered: false,
                },
            ]
        } else {
            seq![
                Stroke::List {
                    area,
                    items: self.prompt_items(),
                    selected: Some(self.selected),
                    marker: true,
                    highlight: Some(colored(Tone::Accent)),
                    cursor: false,
                },
            ]
        }
    }

    pub open spec fn preview_strokes(self, area: Rect) -> Seq<Stroke> {
        if area.empty() {
            Seq::empty()
        } else {
            seq![
                Stroke::Rule { area, title: " Preview "@ },
                Stroke::Paragraph {
                    area: Rect {
                        y: (area.y + 1) as u16,
                        height: (area.height - 1) as u16,
                        ..area
                    },
                    text: match self.chosen() {
                        Some(prompt) => prompt.text@,
                        None => Seq::empty(),
                    },
                    look: colored(Tone::Text),
                    scroll: self.scroll,
                },
            ]
        }
    }

    /// The rows of the list: half of what is left below the scope, rounded up, and at most seven.
    pub open spec fn list_rows(body: Rect) -> int {
        least(LIST_HEIGHT as int, (body.height - 1 + 1) / 2)
    }

    pub open spec fn list_area(body: Rect) -> Rect {
        Rect { y: (body.y + 1) as u16, height: Self::list_rows(body) as u16, ..body }
    }

    pub open spec fn preview_area(body: Rect) -> Rect {
        Rect {
            y: (body.y + 1 + Self::list_rows(body)) as u16,
            height: (body.height - 1 - Self::list_rows(body)) as u16,
            ..body
        }
    }

    /// What the picker draws over an area.
    pub open spec fn picture(self, area: Rect) -> Seq<Stroke> {
        let frame = popup("Recent prompts"@, 82, 22, recent_keys());
        let body = frame.body(area);
        if area.empty() {
            Seq::empty()
        } else if body.empty() {
            frame.picture(area)
        } else {
            frame.picture(area) + self.scope_strokes(first_row(body)) + self.list_strokes(
                Self::list_area(body),
            ) + self.preview_strokes(Self::preview_area(body))
        }
    }
}

impl RecentPromptPicker {
    fn render_scope(&self, area: Rect, paints: &mut Vec<Paint>)
        ensures
            strokes(final(paints)@) == strokes(old(paints)@) + self@.scope_strokes(area),
    {
        let ghost start = strokes(paints@);
        if area.is_empty() {
            assert(strokes(paints@) =~= start + self@.scope_strokes(area));
            return ;
        }
        let name: &str = match self.scope {
            RecentPromptScope::Global => "Global",
            RecentPromptScope::CurrentSession => "Current session",
        };
        let mut line: Vec<Words> = Vec::new();
        say(&mut line, "Scope: ".to_owned(), Look::plain(Tone::Muted));
        say(&mut line, name.to_owned(), Look::bold(Tone::Text));
        assert(words(line@) =~= seq![
            Word { text: "Scope: "@, look: colored(Tone::Muted) },
            Word { text: name@, look: bold_colored(Tone::Text) },
        ]);
        paint(paints, Paint::Line { area, line, centered: false });
        assert(strokes(paints@) =~= start + self@.scope_strokes(area));
    }

    fn prompt_row(&self, row: usize) -> (item: Vec<Vec<Words>>)
        requires
            self@.wf(),
            row < self.visible@.len(),
        ensures
            lines(item@) == self@.prompt_items()[row as int],
    {
        proof {
            lemma_listed(
                self@.prompts,
                self@.current,
                self@.scope,
                self@.prompts.len() as int,
            );
            assert(self@.visible[row as int] == self.visible@[row as int]);
        }
        let prompt = &self.prompts[self.visible[row]];
        let count: usize = self.visible.len();
        let number: usize = row + 1;
        let mut text: String = decimal_text(number as u64);
        text.push_str(". ");
        text.push_str(one_line_preview(prompt.text.as_str()).as_str());
        let mut line: Vec<Words> = Vec::new();
        say(&mut line, text, Look::plain(Tone::Text));
        if self.scope == RecentPromptScope::Global {
            let mut origin: String = "  · ".to_owned();
            origin.push_str(prompt.workspace.as_str());
            origin.push_str(" · ");
            origin.push_str(prompt.session_id.as_str());
            say(&mut line, origin, Look::plain(Tone::Muted));
        }
        assert(words(line@) =~= prompt_line(*prompt, row + 1, self.scope));
        let mut item: Vec<Vec<Words>> = Vec::new();
        item.push(line);
        assert(lines(item@) =~= self@.prompt_items()[row as int]);
        item
    }

    fn render_prompts(&self, area: Rect, paints: &mut Vec<Paint>)
        requires
            self@.wf(),
        ensures
            strokes(final(paints)@) == strokes(old(paints)@) + self@.list_strokes(area),
    {
        let ghost start = strokes(paints@);
        if area.is_empty() {
            assert(strokes(paints@) =~= start + self@.list_strokes(area));
            return ;
        }
        if self.visible.len() == 0 {
            let mut line: Vec<Words> = Vec::new();
            say(&mut line, "No prompts in this scope".to_owned(), Look::plain(Tone::Muted));
            assert(words(line@) =~= seq![
                Word { text: "No prompts in this scope"@, look: colored(Tone::Muted) },
            ]);
            paint(paints, Paint::Line { area, line, centered: false });
            assert(strokes(paints@) =~= start + self@.list_strokes(area));
            return ;
        }
        let mut list: Vec<Vec<Vec<Words>>> = Vec::new();
        let mut row: usize = 0;
        while row < self.visible.len()
            invariant
                row <= self.visible@.len(),
                self@.wf(),
                items(list@) == self@.prompt_items().take(row as int),
            decreases self.visible@.len() - row,
        {
            let ghost sofar = items(list@);
            let item: Vec<Vec<Words>> = self.prompt_row(row);
            list.push(item);
            row = row + 1;
            assert(items(list@) =~= sofar.push(lines(item@)));
            assert(items(list@) =~= self@.prompt_items().take(row as int));
        }
        assert(items(list@) =~= self@.prompt_items());
        paint(
            paints,
            Paint::List {
                area,
                items: list,
                selected: Some(self.selected),
                marker: true,
                highlight: Some(Look::plain(Tone::Accent)),
                cursor: false,
            },
        );
        assert(strokes(paints@) =~= start + self@.list_strokes(area));
    }

    fn render_preview(&self, area: Rect, paints: &mut Vec<Paint>)
        requires
            self@.wf(),
            area.fits(),
        ensures
            strokes(final(paints)@) == strokes(old(paints)@) + self@.preview_strokes(area),
    {
        let ghost start = strokes(paints@);
        if area.is_empty() {
            assert(strokes(paints@) =~= start + self@.preview_strokes(area));
            return ;
        }
        let text: String = match self.selected_prompt() {
            Some(prompt) => prompt.text.clone(),
            None => String::new(),
        };
        paint(paints, Paint::Rule { area, title: " Preview ".to_owned() });
        paint(
            paints,
            Paint::Paragraph {
                area: Rect {
                    x: area.x,
                    y: area.y + 1,
                    width: area.width,
                    height: area.height - 1,
                },
                text,
                look: Look::plain(Tone::Text),
                scroll: self.preview_scroll,
            },
        );
        assert(strokes(paints@) =~= start + self@.preview_strokes(area));
    }

    /// Draws the picker over an area.
    pub fn render(&self, area: Rect) -> (paints: Vec<Paint>)
        requires
            self@.wf(),
            area.fits(),
        ensures
            strokes(paints@) == self@.picture(area),
    {
        let mut paints: Vec<Paint> = Vec::new();
        assert(strokes(paints@) =~= Seq::<Stroke>::empty());
        if area.is_empty() {
            return paints;
        }
        let mut keys: Vec<&'static str> = Vec::new();
        keys.push("↑↓ move");
        keys.push("pgup/pgdn preview");
        keys.push("enter/tab select");
        keys.push("f scope");
        keys.push("esc close");
        assert(keys@ =~= recent_keys());
        let frame = Floating::new("Recent prompts", 82, 22, &keys);
        let body: Rect = frame.render(area, &mut paints);
        assert(strokes(paints@) =~= frame@.picture(area));
        if body.is_empty() {
            return paints;
        }
        let (scope, rest) = split_first_row(body);
        let list_height: u16 = smaller(LIST_HEIGHT, body.height / 2);
        let list_area = Rect { x: body.x, y: rest.y, width: body.width, height: list_height };
        let preview_area = Rect {
            x: body.x,
            y: rest.y + list_height,
            width: body.width,
            height: rest.height - list_height,
        };
        assert(list_area == RecentModel::list_area(body));
        assert(preview_area == RecentModel::preview_area(body));
        self.render_scope(scope, &mut paints);
        self.render_prompts(list_area, &mut paints);
        self.render_preview(preview_area, &mut paints);
        assert(strokes(paints@) =~= self@.picture(area));
        paints
    }
}

} // verus!
