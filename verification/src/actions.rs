//! A searchable menu of actions.

use crate::draw::{
    bold_colored, colored, items, lines, paint, say, strokes, words, Look, Paint, Stroke, Tone, Word,
    Words,
};
use crate::event::{Event, KeyCode, KeyEvent};
use crate::floating::{popup, Floating};
use crate::geometry::Rect;
use crate::node::{ComponentUpdate, RenderRequest};
use crate::search::{
    contains_folded, contains_ignore_ascii_case, first_row, other_rows, pop_cluster, printable,
    push_printable, render_search, search_strokes, split_first_row, without_last_cluster, Focus,
};
use crate::text::concat;
use vstd::prelude::*;

verus! {

/// An action of the menu.
#[derive(Clone, Copy, Debug, PartialEq, Eq, Structural)]
pub enum Action {
    Subagents,
    Effort,
    Theme,
    NewSession,
    ResumeSession,
    Fork,
    Keybindings,
    ReloadConfig,
    EditConfig,
    FastMode,
}

/// The number of actions in the menu.
pub const ACTION_COUNT: usize = 10;

/// The actions in the order of the menu.
pub open spec fn action_at(index: int) -> Action {
    if index == 0 {
        Action::Effort
    } else if index == 1 {
        Action::Theme
    } else if index == 2 {
        Action::NewSession
    } else if index == 3 {
        Action::ResumeSession
    } else if index == 4 {
        Action::Fork
    } else if index == 5 {
        Action::Keybindings
    } else if index == 6 {
        Action::ReloadConfig
    } else if index == 7 {
        Action::EditConfig
    } else if index == 8 {
        Action::Subagents
    } else {
        Action::FastMode
    }
}

/// The action at an index of the menu.
pub fn nth_action(index: usize) -> (action: Action)
    ensures
        action == action_at(index as int),
{
    match index {
        0 => Action::Effort,
        1 => Action::Theme,
        2 => Action::NewSession,
        3 => Action::ResumeSession,
        4 => Action::Fork,
        5 => Action::Keybindings,
        6 => Action::ReloadConfig,
        7 => Action::EditConfig,
        8 => Action::Subagents,
        _ => Action::FastMode,
    }
}

impl Action {
    pub open spec fn name(self) -> Seq<char> {
        match self {
            Action::Subagents => "Subagents"@,
            Action::Effort => "Change effort"@,
            Action::Theme => "Select theme"@,
            Action::NewSession => "New session"@,
            Action::ResumeSession => "Resume session"@,
            Action::Fork => "Fork session"@,
            Action::Keybindings => "Keyboard shortcuts"@,
            Action::ReloadConfig => "Reload config"@,
            Action::EditConfig => "Edit config"@,
            Action::FastMode => "Fast mode"@,
        }
    }

    pub open spec fn other_name(self) -> Option<Seq<char>> {
        match self {
            Action::Subagents => Some("agents"@),
            Action::Effort => Some("thinking"@),
            Action::Theme => Some("appearance"@),
            Action::NewSession => Some("clear"@),
            Action::ResumeSession => Some("restore"@),
            Action::Fork => Some("btw"@),
            Action::ReloadConfig => Some("refresh"@),
            Action::FastMode => Some("priority"@),
            Action::Keybindings | Action::EditConfig => None,
        }
    }

    /// The action's name, or its other name, holds the query.
    pub open spec fn is_match(self, query: Seq<char>) -> bool {
        contains_folded(self.name(), query) || (self.other_name() matches Some(alias)
            && contains_folded(alias, query))
    }

    /// The name of the action.
    pub fn label(self) -> (label: &'static str)
        ensures
            label@ == self.name(),
    {
        match self {
            Action::Subagents => "Subagents",
            Action::Effort => "Change effort",
            Action::Theme => "Select theme",
            Action::NewSession => "New session",
            Action::ResumeSession => "Resume session",
            Action::Fork => "Fork session",
            Action::Keybindings => "Keyboard shortcuts",
            Action::ReloadConfig => "Reload config",
            Action::EditConfig => "Edit config",
            Action::FastMode => "Fast mode",
        }
    }

    /// Another name that the search finds.
    pub fn alias(self) -> (alias: Option<&'static str>)
        ensures
            alias is Some == self.other_name() is Some,
            alias matches Some(text) ==> text@ == self.other_name()->0,
    {
        match self {
            Action::Subagents => Some("agents"),
            Action::Effort => Some("thinking"),
            Action::Theme => Some("appearance"),
            Action::NewSession => Some("clear"),
            Action::ResumeSession => Some("restore"),
            Action::Fork => Some("btw"),
            Action::ReloadConfig => Some("refresh"),
            Action::FastMode => Some("priority"),
            Action::Keybindings | Action::EditConfig => None,
        }
    }

    /// Whether a query finds the action.
    pub fn matches(self, query: &str) -> (yes: bool)
        ensures
            yes == self.is_match(query@),
    {
        if contains_ignore_ascii_case(self.label(), query) {
            return true;
        }
        match self.alias() {
            Some(alias) => contains_ignore_ascii_case(alias, query),
            None => false,
        }
    }
}

/// Which actions can be triggered now.
#[derive(Clone, Copy, Debug, PartialEq, Eq, Structural)]
pub struct ActionAvailability {
    pub new_session: bool,
    pub fork: bool,
}

/// What the menu asks of its owner.
#[derive(Clone, Copy, Debug, PartialEq, Eq, Structural)]
pub enum ActionsEffect {
    Dismiss,
    Trigger(Action),
}

/// What happens to the menu.
#[derive(Debug)]
pub enum ActionsEvent {
    Terminal(Event),
}

/// The menu: a query, the actions that it finds, and the selected one.
#[derive(Debug)]
pub struct ActionsMenu {
    pub query: String,
    pub focus: Focus,
    pub selected: usize,
    pub matches: Vec<usize>,
    pub availability: ActionAvailability,
}

/// The indices of the first `n` actions that a query finds.
pub open spec fn found(query: Seq<char>, n: int) -> Seq<int>
    decreases n,
{
    if n <= 0 {
        Seq::empty()
    } else if action_at(n - 1).is_match(query) {
        found(query, n - 1).push(n - 1)
    } else {
        found(query, n - 1)
    }
}

/// Indices as integers.
pub open spec fn indices(list: Seq<usize>) -> Seq<int> {
    list.map_values(|i: usize| i as int)
}

/// The number of actions among the first `n` of a list that can be triggered.
pub open spec fn enabled_count(
    list: Seq<int>,
    availability: ActionAvailability,
    n: int,
) -> int
    decreases n,
{
    if n <= 0 {
        0
    } else {
        enabled_count(list, availability, n - 1) + if availability.enables(
            action_at(list[n - 1]),
        ) {
            1int
        } else {
            0
        }
    }
}

/// The first action of a list that can be triggered, from index `from` on.
pub open spec fn first_enabled(
    list: Seq<int>,
    availability: ActionAvailability,
    from: int,
) -> Action
    decreases list.len() - from,
{
    if from >= list.len() - 1 || availability.enables(action_at(list[from])) {
        action_at(list[from])
    } else {
        first_enabled(list, availability, from + 1)
    }
}

impl ActionAvailability {
    pub open spec fn enables(self, action: Action) -> bool {
        match action {
            Action::NewSession | Action::ResumeSession => self.new_session,
            Action::Fork => self.fork,
            _ => true,
        }
    }

    pub open spec fn text(self, action: Action) -> Seq<char> {
        if action == Action::NewSession && !self.new_session {
            "New session · finish active work first"@
        } else if action == Action::ResumeSession && !self.new_session {
            "Resume session · finish active work first"@
        } else if action == Action::Fork && !self.fork {
            "Fork session · one fork at a time"@
        } else {
            action.name()
        }
    }
}

/// A menu as mathematical values.
pub struct MenuModel {
    pub query: Seq<char>,
    pub focus: Focus,
    pub selected: int,
    pub matches: Seq<int>,
    pub availability: ActionAvailability,
}

impl View for ActionsMenu {
    type V = MenuModel;

    open spec fn view(&self) -> MenuModel {
        MenuModel {
            query: self.query@,
            focus: self.focus,
            selected: self.selected as int,
            matches: indices(self.matches@),
            availability: self.availability,
        }
    }
}

/// The menu after an event, and its answer.
pub struct MenuStep {
    pub menu: MenuModel,
    pub effect: Option<ActionsEffect>,
    pub render: RenderRequest,
}

impl MenuModel {
    /// The matches are those of the query, and one of them is selected if there is any.
    pub open spec fn wf(self) -> bool {
        &&& self.matches == found(self.query, ACTION_COUNT as int)
        &&& self.selected == 0 || 0 <= self.selected < self.matches.len()
    }

    /// The menu with another query, and its first match selected.
    pub open spec fn searching(self, query: Seq<char>) -> MenuModel {
        MenuModel { query, matches: found(query, ACTION_COUNT as int), selected: 0, ..self }
    }

    pub open spec fn idle(self) -> MenuStep {
        MenuStep { menu: self, effect: None, render: RenderRequest::Idle }
    }

    pub open spec fn shown(self) -> MenuStep {
        MenuStep { menu: self, effect: None, render: RenderRequest::Immediate }
    }

    pub open spec fn asking(self, effect: ActionsEffect) -> MenuStep {
        MenuStep { menu: self, effect: Some(effect), render: RenderRequest::Immediate }
    }

    /// An action is triggered if it can be.
    pub open spec fn triggering(self, action: Action) -> MenuStep {
        if self.availability.enables(action) {
            self.asking(ActionsEffect::Trigger(action))
        } else {
            self.idle()
        }
    }

    /// In the list the selected action is triggered. In the search field a single match that can
    /// be triggered is; otherwise the list gets the focus.
    pub open spec fn entered(self) -> MenuStep {
        if self.focus == Focus::List {
            if self.matches.len() == 0 {
                self.idle()
            } else {
                self.triggering(action_at(self.matches[self.selected]))
            }
        } else if enabled_count(self.matches, self.availability, self.matches.len() as int) == 1 {
            self.asking(
                ActionsEffect::Trigger(first_enabled(self.matches, self.availability, 0)),
            )
        } else {
            MenuModel { focus: self.focus.other(), ..self }.shown()
        }
    }

    pub open spec fn above(self) -> MenuModel {
        MenuModel {
            selected: if self.selected > 0 {
                self.selected - 1
            } else {
                0
            },
            ..self
        }
    }

    pub open spec fn below(self) -> MenuModel {
        if self.selected + 1 < self.matches.len() {
            MenuModel { selected: self.selected + 1, ..self }
        } else {
            self
        }
    }

    pub open spec fn on_key(self, key: KeyEvent) -> MenuStep {
        if !key.down() {
            self.idle()
        } else {
            match key.code {
                KeyCode::Esc => self.asking(ActionsEffect::Dismiss),
                KeyCode::Backspace => if self.focus == Focus::Search && self.query.len() > 0 {
                    self.searching(without_last_cluster(self.query)).shown()
                } else {
                    self.asking(ActionsEffect::Dismiss)
                },
                KeyCode::Enter => self.entered(),
                KeyCode::Tab | KeyCode::BackTab => MenuModel {
                    focus: self.focus.other(),
                    ..self
                }.shown(),
                KeyCode::Up => if self.focus == Focus::List {
                    self.above().shown()
                } else {
                    self.idle()
                },
                KeyCode::Down => if self.focus == Focus::List {
                    self.below().shown()
                } else {
                    self.idle()
                },
                KeyCode::Char(c) => if self.focus == Focus::Search && !key.modifiers.control
                    && !key.modifiers.alt {
                    self.searching(self.query.push(c)).shown()
                } else {
                    self.idle()
                },
                _ => self.idle(),
            }
        }
    }

    /// Text is pasted into the search field, without control characters.
    pub open spec fn pasted(self, text: Seq<char>) -> MenuStep {
        if self.focus == Focus::Search {
            self.searching(self.query + printable(text, text.len() as int)).shown()
        } else {
            self.idle()
        }
    }

    pub open spec fn on_event(self, event: ActionsEvent) -> MenuStep {
        match event {
            ActionsEvent::Terminal(Event::Key(key)) => self.on_key(key),
            ActionsEvent::Terminal(Event::Paste(text)) => self.pasted(text@),
            ActionsEvent::Terminal(_) => self.idle(),
        }
    }
}

/// The menu's answer is the one of a step.
pub open spec fn takes(update: ComponentUpdate<ActionsEffect>, step: MenuStep) -> bool {
    &&& update.render == step.render
    &&& update.effects@ == match step.effect {
        Some(effect) => seq![effect],
        None => Seq::empty(),
    }
}

proof fn lemma_found(query: Seq<char>, n: int)
    requires
        0 <= n <= ACTION_COUNT,
    ensures
        found(query, n).len() <= n,
        forall|i: int| 0 <= i < found(query, n).len() ==> 0 <= #[trigger] found(query, n)[i] < n,
    decreases n,
{
    if n > 0 {
        lemma_found(query, n - 1);
    }
}

impl ActionsMenu {
    /// The menu with an empty query, which finds every action.
    pub fn new(availability: ActionAvailability) -> (menu: Self)
        ensures
            menu@ == (MenuModel {
                query: Seq::empty(),
                focus: Focus::Search,
                selected: 0,
                matches: found(Seq::empty(), ACTION_COUNT as int),
                availability,
            }),
            menu@.wf(),
    {
        let mut menu = ActionsMenu {
            query: String::new(),
            focus: Focus::Search,
            selected: 0,
            matches: Vec::new(),
            availability,
        };
        menu.refresh_matches();
        menu
    }

    /// Finds the actions again and selects the first one.
    pub fn refresh_matches(&mut self)
        ensures
            final(self)@ == old(self)@.searching(old(self)@.query),
            final(self)@.wf(),
    {
        let mut matches: Vec<usize> = Vec::new();
        let mut i: usize = 0;
        assert(indices(matches@) =~= found(self.query@, 0));
        while i < ACTION_COUNT
            invariant
                i <= ACTION_COUNT,
                indices(matches@) == found(self.query@, i as int),
            decreases ACTION_COUNT - i,
        {
            let ghost sofar = indices(matches@);
            if nth_action(i).matches(self.query.as_str()) {
                matches.push(i);
                assert(indices(matches@) =~= sofar.push(i as int));
            }
            i = i + 1;
        }
        self.matches = matches;
        self.selected = 0;
    }

    /// Closes the menu.
    pub fn dismiss() -> (update: ComponentUpdate<ActionsEffect>)
        ensures
            update.effects@ == seq![ActionsEffect::Dismiss],
            update.render == RenderRequest::Immediate,
    {
        ComponentUpdate::one(ActionsEffect::Dismiss, RenderRequest::Immediate)
    }

    /// Gives the focus to the other part.
    pub fn toggle_focus(&mut self)
        ensures
            final(self)@ == (MenuModel { focus: old(self)@.focus.other(), ..old(self)@ }),
    {
        self.focus = self.focus.toggled();
    }

    /// Removes the last cluster of the query. Where the query is empty, nothing happens.
    pub fn remove_last_grapheme(&mut self)
        ensures
            old(self)@.query.len() == 0 ==> final(self)@ == old(self)@,
            old(self)@.query.len() > 0 ==> final(self)@ == old(self)@.searching(
                without_last_cluster(old(self)@.query),
            ) && final(self)@.wf(),
    {
        if self.query.as_str().is_empty() {
            return ;
        }
        pop_cluster(&mut self.query);
        self.refresh_matches();
    }

    /// Selects the match above.
    pub fn select_previous(&mut self)
        requires
            old(self)@.wf(),
        ensures
            final(self)@ == old(self)@.above(),
            final(self)@.wf(),
    {
        self.selected = self.selected.saturating_sub(1);
    }

    /// Selects the match below.
    pub fn select_next(&mut self)
        requires
            old(self)@.wf(),
        ensures
            final(self)@ == old(self)@.below(),
            final(self)@.wf(),
    {
        if self.matches.len() > 0 && self.selected < self.matches.len() - 1 {
            self.selected = self.selected + 1;
        }
    }

    /// Pastes text into the query.
    pub fn insert_paste(&mut self, text: &str) -> (update: ComponentUpdate<ActionsEffect>)
        requires
            old(self)@.wf(),
        ensures
            final(self)@ == old(self)@.pasted(text@).menu,
            takes(update, old(self)@.pasted(text@)),
            final(self)@.wf(),
    {
        if self.focus != Focus::Search {
            return ComponentUpdate::none();
        }
        push_printable(&mut self.query, text);
        self.refresh_matches();
        ComponentUpdate::render(RenderRequest::Immediate)
    }

    /// Whether an action can be triggered.
    pub fn is_enabled(&self, action: Action) -> (yes: bool)
        ensures
            yes == self@.availability.enables(action),
    {
        match action {
            Action::NewSession => self.availability.new_session,
            Action::ResumeSession => self.availability.new_session,
            Action::Fork => self.availability.fork,
            _ => true,
        }
    }

    /// The action's name, with the reason why it cannot be triggered.
    pub fn display_label(&self, action: Action) -> (label: &'static str)
        ensures
            label@ == self@.availability.text(action),
    {
        if action == Action::NewSession && !self.availability.new_session {
            "New session · finish active work first"
        } else if action == Action::ResumeSession && !self.availability.new_session {
            "Resume session · finish active work first"
        } else if action == Action::Fork && !self.availability.fork {
            "Fork session · one fork at a time"
        } else {
            action.label()
        }
    }

    /// Triggers an action if it can be.
    pub fn trigger(&self, action: Action) -> (update: ComponentUpdate<ActionsEffect>)
        ensures
            takes(update, self@.triggering(action)),
    {
        if !self.is_enabled(action) {
            return ComponentUpdate::none();
        }
        ComponentUpdate::one(ActionsEffect::Trigger(action), RenderRequest::Immediate)
    }

    /// Triggers the selected action if there is one and it can be.
    pub fn trigger_selected(&self) -> (update: ComponentUpdate<ActionsEffect>)
        requires
            self@.wf(),
        ensures
            takes(
                update,
                if self@.matches.len() == 0 {
                    self@.idle()
                } else {
                    self@.triggering(action_at(self@.matches[self@.selected]))
                },
            ),
    {
        if self.matches.len() == 0 {
            return ComponentUpdate::none();
        }
        assert(self@.matches[self@.selected] == self.matches@[self.selected as int]);
        self.trigger(nth_action(self.matches[self.selected]))
    }

    /// Handles the enter key.
    pub fn handle_enter(&mut self) -> (update: ComponentUpdate<ActionsEffect>)
        requires
            old(self)@.wf(),
        ensures
            final(self)@ == old(self)@.entered().menu,
            takes(update, old(self)@.entered()),
            final(self)@.wf(),
    {
        if self.focus == Focus::List {
            return self.trigger_selected();
        }
        let ghost list = self@.matches;
        let mut count: usize = 0;
        let mut first: Action = Action::Subagents;
        let mut i: usize = 0;
        while i < self.matches.len()
            invariant
                list == self@.matches,
                i <= self.matches.len(),
                count <= i,
                count == enabled_count(list, self.availability, i as int),
                count > 0 ==> first == first_enabled(list, self.availability, 0)
                    && self.availability.enables(first),
                count == 0 && i < list.len() ==> first_enabled(list, self.availability, 0)
                    == first_enabled(list, self.availability, i as int),
            decreases self.matches.len() - i,
        {
            assert(list[i as int] == self.matches@[i as int]);
            let action: Action = nth_action(self.matches[i]);
            if self.is_enabled(action) {
                if count == 0 {
                    first = action;
                }
                count = count + 1;
            }
            i = i + 1;
        }
        if count == 1 {
            return self.trigger(first);
        }
        self.toggle_focus();
        ComponentUpdate::render(RenderRequest::Immediate)
    }

    /// Handles a key.
    pub fn update_key(&mut self, key: KeyEvent) -> (update: ComponentUpdate<ActionsEffect>)
        requires
            old(self)@.wf(),
        ensures
            final(self)@ == old(self)@.on_key(key).menu,
            takes(update, old(self)@.on_key(key)),
            final(self)@.wf(),
    {
        if !key.is_down() {
            return ComponentUpdate::none();
        }
        match key.code {
            KeyCode::Esc => Self::dismiss(),
            KeyCode::Backspace => {
                if self.focus == Focus::Search && !self.query.as_str().is_empty() {
                    self.remove_last_grapheme();
                    ComponentUpdate::render(RenderRequest::Immediate)
                } else {
                    Self::dismiss()
                }
            },
            KeyCode::Enter => self.handle_enter(),
            KeyCode::Tab | KeyCode::BackTab => {
                self.toggle_focus();
                ComponentUpdate::render(RenderRequest::Immediate)
            },
            KeyCode::Up => {
                if self.focus != Focus::List {
                    return ComponentUpdate::none();
                }
                self.select_previous();
                ComponentUpdate::render(RenderRequest::Immediate)
            },
            KeyCode::Down => {
                if self.focus != Focus::List {
                    return ComponentUpdate::none();
                }
                self.select_next();
                ComponentUpdate::render(RenderRequest::Immediate)
            },
            KeyCode::Char(character) => {
                if self.focus != Focus::Search || key.modifiers.control || key.modifiers.alt {
                    return ComponentUpdate::none();
                }
                self.query.push(character);
                self.refresh_matches();
                ComponentUpdate::render(RenderRequest::Immediate)
            },
            _ => ComponentUpdate::none(),
        }
    }

    /// Handles an event.
    pub fn update(&mut self, event: ActionsEvent) -> (update: ComponentUpdate<ActionsEffect>)
        requires
            old(self)@.wf(),
        ensures
            final(self)@ == old(self)@.on_event(event).menu,
            takes(update, old(self)@.on_event(event)),
            final(self)@.wf(),
    {
        match event {
            ActionsEvent::Terminal(Event::Key(key)) => self.update_key(key),
            ActionsEvent::Terminal(Event::Paste(text)) => self.insert_paste(text.as_str()),
            ActionsEvent::Terminal(_) => ComponentUpdate::none(),
        }
    }
}

/// The line of an action: its name in a colour that tells whether it can be triggered and is
/// selected, and its other name.
pub open spec fn action_line(
    action: Action,
    availability: ActionAvailability,
    chosen: bool,
) -> Seq<Word> {
    let tone = if !availability.enables(action) {
        Tone::Muted
    } else if chosen {
        Tone::Accent
    } else {
        Tone::Text
    };
    let name = seq![Word { text: availability.text(action), look: colored(tone) }];
    match action.other_name() {
        Some(alias) => name.push(
            Word { text: " (alias: "@ + alias + ")"@, look: colored(Tone::Muted) },
        ),
        None => name,
    }
}

impl MenuModel {
    /// The lines of the matches.
    pub open spec fn action_items(self) -> Seq<Seq<Seq<Word>>> {
        Seq::new(
            self.matches.len(),
            |i: int|
                seq![
                    action_line(
                        action_at(self.matches[i]),
                        self.availability,
                        self.focus == Focus::List && i == self.selected,
                    ),
                ],
        )
    }

    /// The list of matches.
    pub open spec fn list_strokes(self, area: Rect) -> Seq<Stroke> {
        let focused = self.focus == Focus::List;
        if area.empty() {
            Seq::empty()
        } else {
            seq![
                Stroke::List {
                    area,
                    items: self.action_items(),
                    selected: if self.matches.len() == 0 {
                        None
                    } else {
                        Some(self.selected)
                    },
                    marker: focused,
                    highlight: if focused && self.matches.len() > 0 && self.availability.enables(
                        action_at(self.matches[self.selected]),
                    ) {
                        Some(bold_colored(Tone::Plain))
                    } else {
                        None
                    },
                    cursor: focused && self.matches.len() > 0,
                },
            ]
        }
    }
}

/// The keys that the menu's footer names.
pub open spec fn actions_keys() -> Seq<&'static str> {
    seq!["tab focus", "↑↓ move", "enter focus/open", "esc close"]
}

/// What the menu draws over an area.
pub open spec fn actions_picture(menu: MenuModel, area: Rect) -> Seq<Stroke> {
    let frame = popup("Actions"@, 58, 13, actions_keys());
    let body = frame.body(area);
    if area.empty() {
        Seq::empty()
    } else if body.empty() {
        frame.picture(area)
    } else {
        frame.picture(area) + search_strokes(
            menu.query,
            menu.focus == Focus::Search,
            first_row(body),
        ) + menu.list_strokes(other_rows(body))
    }
}

impl ActionsMenu {
    fn action_row(&self, row: usize) -> (item: Vec<Vec<Words>>)
        requires
            row < self.matches@.len(),
        ensures
            lines(item@) == self@.action_items()[row as int],
    {
        assert(self@.matches[row as int] == self.matches@[row as int]);
        let action: Action = nth_action(self.matches[row]);
        let tone: Tone = if !self.is_enabled(action) {
            Tone::Muted
        } else if self.focus == Focus::List && row == self.selected {
            Tone::Accent
        } else {
            Tone::Text
        };
        let mut line: Vec<Words> = Vec::new();
        say(&mut line, self.display_label(action).to_owned(), Look::plain(tone));
        match action.alias() {
            Some(alias) => {
                let mut text: String = concat(" (alias: ", alias);
                text.push_str(")");
                say(&mut line, text, Look::plain(Tone::Muted));
            },
            None => {},
        }
        assert(words(line@) =~= action_line(
            action,
            self.availability,
            self.focus == Focus::List && row == self.selected,
        ));
        let mut item: Vec<Vec<Words>> = Vec::new();
        item.push(line);
        assert(lines(item@) =~= self@.action_items()[row as int]);
        item
    }

    /// Draws the list of matches.
    pub fn render_actions(&self, area: Rect, paints: &mut Vec<Paint>)
        requires
            self@.wf(),
        ensures
            strokes(final(paints)@) == strokes(old(paints)@) + self@.list_strokes(area),
    {
        let ghost start = strokes(paints@);
        if area.is_empty() {
            assert(strokes(paints@) =~= start + self@.list_strokes(area));
            return ;
        }
        let mut list: Vec<Vec<Vec<Words>>> = Vec::new();
        let mut row: usize = 0;
        while row < self.matches.len()
            invariant
                row <= self.matches@.len(),
                items(list@) == self@.action_items().take(row as int),
            decreases self.matches@.len() - row,
        {
            let ghost sofar = items(list@);
            let item: Vec<Vec<Words>> = self.action_row(row);
            list.push(item);
            row = row + 1;
            assert(items(list@) =~= sofar.push(lines(item@)));
            assert(items(list@) =~= self@.action_items().take(row as int));
        }
        assert(items(list@) =~= self@.action_items());
        let focused: bool = self.focus == Focus::List;
        let some: bool = self.matches.len() > 0;
        let selected: Option<usize> = if some {
            Some(self.selected)
        } else {
            None
        };
        proof {
            if some {
                assert(self@.matches[self@.selected] == self.matches@[self.selected as int]);
            }
        }
        let highlight: Option<Look> = if focused && some && self.is_enabled(
            nth_action(self.matches[self.selected]),
        ) {
            Some(Look::bold(Tone::Plain))
        } else {
            None
        };
        paint(
            paints,
            Paint::List {
                area,
                items: list,
                selected,
                marker: focused,
                highlight,
                cursor: focused && some,
            },
        );
        assert(strokes(paints@) =~= start + self@.list_strokes(area));
    }

    /// Draws the menu over an area.
    pub fn render(&self, area: Rect) -> (paints: Vec<Paint>)
        requires
            self@.wf(),
            area.fits(),
        ensures
            strokes(paints@) == actions_picture(self@, area),
    {
        let mut paints: Vec<Paint> = Vec::new();
        assert(strokes(paints@) =~= Seq::<Stroke>::empty());
        if area.is_empty() {
            return paints;
        }
        let mut keys: Vec<&'static str> = Vec::new();
        keys.push("tab focus");
        keys.push("↑↓ move");
        keys.push("enter focus/open");
        keys.push("esc close");
        assert(keys@ =~= actions_keys());
        let frame = Floating::new("Actions", 58, 13, &keys);
        let body: Rect = frame.render(area, &mut paints);
        assert(strokes(paints@) =~= frame@.picture(area));
        if body.is_empty() {
            return paints;
        }
        let (search, rest) = split_first_row(body);
        render_search(self.query.as_str(), self.focus == Focus::Search, search, &mut paints);
        self.render_actions(rest, &mut paints);
        assert(strokes(paints@) =~= actions_picture(self@, area));
        paints
    }
}

} // verus!
