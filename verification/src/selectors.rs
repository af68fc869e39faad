//! The selectors of the reasoning effort and of the palette.

use crate::draw::{
    bold_colored, colored, items, lines, paint, say, strokes, words, Look, Paint, Stroke, Tone, Word,
    Words,
};
use crate::event::{Event, KeyCode, KeyEvent};
use crate::floating::{popup, Floating};
use crate::geometry::Rect;
use crate::node::{ComponentUpdate, RenderRequest};
use crate::settings::{ReasoningEffort, ThemeMode};
use vstd::prelude::*;

verus! {

/// What a selector asks of its owner.
#[derive(Clone, Copy, Debug, PartialEq, Eq, Structural)]
pub enum EffortEffect {
    Dismiss,
    Apply(ReasoningEffort),
}

/// The selector of the reasoning effort.
#[derive(Clone, Copy, Debug, PartialEq, Eq, Structural)]
pub struct EffortSelector {
    pub selected: ReasoningEffort,
}

/// What a selector answers to an event.
pub struct Choice<E> {
    pub effect: Option<E>,
    pub render: RenderRequest,
}

/// The answer of a selector.
pub open spec fn chooses<E>(update: ComponentUpdate<E>, choice: Choice<E>) -> bool {
    &&& update.render == choice.render
    &&& match choice.effect {
        Some(effect) => update.effects@ == seq![effect],
        None => update.effects@ == Seq::<E>::empty(),
    }
}

pub open spec fn waits<E>() -> Choice<E> {
    Choice { effect: None, render: RenderRequest::Idle }
}

pub open spec fn redraws<E>() -> Choice<E> {
    Choice { effect: None, render: RenderRequest::Immediate }
}

pub open spec fn asks<E>(effect: E) -> Choice<E> {
    Choice { effect: Some(effect), render: RenderRequest::Immediate }
}

impl ReasoningEffort {
    /// The next level up.
    pub open spec fn more(self) -> ReasoningEffort {
        match self {
            ReasoningEffort::Low => ReasoningEffort::Medium,
            ReasoningEffort::Medium => ReasoningEffort::High,
            ReasoningEffort::High => ReasoningEffort::XHigh,
            _ => ReasoningEffort::Max,
        }
    }

    /// The next level down.
    pub open spec fn less(self) -> ReasoningEffort {
        match self {
            ReasoningEffort::Max => ReasoningEffort::XHigh,
            ReasoningEffort::XHigh => ReasoningEffort::High,
            ReasoningEffort::High => ReasoningEffort::Medium,
            _ => ReasoningEffort::Low,
        }
    }
}

impl EffortSelector {
    /// The selector with a level selected.
    pub fn new(effort: ReasoningEffort) -> (selector: Self)
        ensures
            selector.selected == effort,
    {
        EffortSelector { selected: effort }
    }

    pub open spec fn on_key(self, key: KeyEvent) -> (EffortSelector, Choice<EffortEffect>) {
        if !key.down() {
            (self, waits())
        } else {
            match key.code {
                KeyCode::Right | KeyCode::Up => (
                    EffortSelector { selected: self.selected.more() },
                    redraws(),
                ),
                KeyCode::Left | KeyCode::Down => (
                    EffortSelector { selected: self.selected.less() },
                    redraws(),
                ),
                KeyCode::Enter => (self, asks(EffortEffect::Apply(self.selected))),
                KeyCode::Esc => (self, asks(EffortEffect::Dismiss)),
                _ => (self, waits()),
            }
        }
    }

    pub open spec fn on_event(self, event: Event) -> (EffortSelector, Choice<EffortEffect>) {
        match event {
            Event::Key(key) => self.on_key(key),
            _ => (self, waits()),
        }
    }

    /// Handles an event.
    pub fn update(&mut self, event: &Event) -> (update: ComponentUpdate<EffortEffect>)
        ensures
            *final(self) == old(self).on_event(*event).0,
            chooses(update, old(self).on_event(*event).1),
    {
        let key: &KeyEvent = match event {
            Event::Key(key) => key,
            _ => return ComponentUpdate::none(),
        };
        if !key.is_down() {
            return ComponentUpdate::none();
        }
        match key.code {
            KeyCode::Right | KeyCode::Up => {
                self.selected = match self.selected {
                    ReasoningEffort::Low => ReasoningEffort::Medium,
                    ReasoningEffort::Medium => ReasoningEffort::High,
                    ReasoningEffort::High => ReasoningEffort::XHigh,
                    _ => ReasoningEffort::Max,
                };
                ComponentUpdate::render(RenderRequest::Immediate)
            },
            KeyCode::Left | KeyCode::Down => {
                self.selected = match self.selected {
                    ReasoningEffort::Max => ReasoningEffort::XHigh,
                    ReasoningEffort::XHigh => ReasoningEffort::High,
                    ReasoningEffort::High => ReasoningEffort::Medium,
                    _ => ReasoningEffort::Low,
                };
                ComponentUpdate::render(RenderRequest::Immediate)
            },
            KeyCode::Enter => ComponentUpdate::one(
                EffortEffect::Apply(self.selected),
                RenderRequest::Immediate,
            ),
            KeyCode::Esc => ComponentUpdate::one(EffortEffect::Dismiss, RenderRequest::Immediate),
            _ => ComponentUpdate::none(),
        }
    }

    /// The keys that the footer names.
    pub open spec fn keys() -> Seq<&'static str> {
        seq!["←→ level", "enter apply", "esc close"]
    }

    /// What the selector draws over an area.
    pub open spec fn picture(self, area: Rect) -> Seq<Stroke> {
        let frame = popup("Effort"@, 36, 5, Self::keys());
        let body = frame.body(area);
        if body.empty() {
            frame.picture(area)
        } else {
            frame.picture(area).push(
                Stroke::Line {
                    area: body,
                    line: seq![
                        Word {
                            text: self.selected.title(),
                            look: bold_colored(Tone::Effort(self.selected)),
                        },
                    ],
                    centered: true,
                },
            )
        }
    }

    /// Draws the selector over an area.
    pub fn render(&self, area: Rect, paints: &mut Vec<Paint>)
        requires
            area.fits(),
        ensures
            strokes(final(paints)@) == strokes(old(paints)@) + self.picture(area),
    {
        let ghost start = strokes(paints@);
        let mut keys: Vec<&'static str> = Vec::new();
        keys.push("←→ level");
        keys.push("enter apply");
        keys.push("esc close");
        assert(keys@ =~= Self::keys());
        let frame = Floating::new("Effort", 36, 5, &keys);
        let body: Rect = frame.render(area, paints);
        if body.is_empty() {
            return ;
        }
        let mut line: Vec<Words> = Vec::new();
        say(
            &mut line,
            self.selected.as_title().to_owned(),
            Look::bold(Tone::Effort(self.selected)),
        );
        assert(words(line@) =~= seq![
            Word {
                text: self.selected.title(),
                look: bold_colored(Tone::Effort(self.selected)),
            },
        ]);
        paint(paints, Paint::Line { area: body, line, centered: true });
        assert(strokes(paints@) =~= start + self.picture(area));
    }
}

/// What the palette's selector asks of its owner.
#[derive(Clone, Copy, Debug, PartialEq, Eq, Structural)]
pub enum ThemeSelectorEffect {
    Dismiss,
    Apply(ThemeMode),
}

/// The selector of the palette.
#[derive(Clone, Copy, Debug, PartialEq, Eq, Structural)]
pub struct ThemeSelector {
    pub selected: ThemeMode,
}

/// The index of a palette in the list.
pub open spec fn mode_index(mode: ThemeMode) -> int {
    match mode {
        ThemeMode::Auto => 0,
        ThemeMode::Light => 1,
        ThemeMode::Dark => 2,
    }
}

impl ThemeSelector {
    /// The selector with a palette selected.
    pub fn new(mode: ThemeMode) -> (selector: Self)
        ensures
            selector.selected == mode,
    {
        ThemeSelector { selected: mode }
    }

    pub open spec fn on_key(self, key: KeyEvent) -> (ThemeSelector, Choice<ThemeSelectorEffect>) {
        if !key.down() {
            (self, waits())
        } else {
            match key.code {
                KeyCode::Down => (
                    ThemeSelector {
                        selected: match self.selected {
                            ThemeMode::Auto => ThemeMode::Light,
                            _ => ThemeMode::Dark,
                        },
                    },
                    redraws(),
                ),
                KeyCode::Up => (
                    ThemeSelector {
                        selected: match self.selected {
                            ThemeMode::Dark => ThemeMode::Light,
                            _ => ThemeMode::Auto,
                        },
                    },
                    redraws(),
                ),
                KeyCode::Enter => (self, asks(ThemeSelectorEffect::Apply(self.selected))),
                KeyCode::Esc => (self, asks(ThemeSelectorEffect::Dismiss)),
                _ => (self, waits()),
            }
        }
    }

    pub open spec fn on_event(self, event: Event) -> (ThemeSelector, Choice<ThemeSelectorEffect>) {
        match event {
            Event::Key(key) => self.on_key(key),
            _ => (self, waits()),
        }
    }

    /// Handles an event.
    pub fn update(&mut self, event: &Event) -> (update: ComponentUpdate<ThemeSelectorEffect>)
        ensures
            *final(self) == old(self).on_event(*event).0,
            chooses(update, old(self).on_event(*event).1),
    {
        let key: &KeyEvent = match event {
            Event::Key(key) => key,
            _ => return ComponentUpdate::none(),
        };
        if !key.is_down() {
            return ComponentUpdate::none();
        }
        match key.code {
            KeyCode::Down => {
                self.selected = match self.selected {
                    ThemeMode::Auto => ThemeMode::Light,
                    _ => ThemeMode::Dark,
                };
                ComponentUpdate::render(RenderRequest::Immediate)
            },
            KeyCode::Up => {
                self.selected = match self.selected {
                    ThemeMode::Dark => ThemeMode::Light,
                    _ => ThemeMode::Auto,
                };
                ComponentUpdate::render(RenderRequest::Immediate)
            },
            KeyCode::Enter => ComponentUpdate::one(
                ThemeSelectorEffect::Apply(self.selected),
                RenderRequest::Immediate,
            ),
            KeyCode::Esc => ComponentUpdate::one(
                ThemeSelectorEffect::Dismiss,
                RenderRequest::Immediate,
            ),
            _ => ComponentUpdate::none(),
        }
    }

    /// The keys that the footer names.
    pub open spec fn keys() -> Seq<&'static str> {
        seq!["↑↓ select", "enter apply", "esc close"]
    }

    /// The items of the list.
    pub open spec fn mode_items() -> Seq<Seq<Seq<Word>>> {
        seq![
            seq![seq![Word { text: "Auto"@, look: colored(Tone::Text) }]],
            seq![seq![Word { text: "Light"@, look: colored(Tone::Text) }]],
            seq![seq![Word { text: "Dark"@, look: colored(Tone::Text) }]],
        ]
    }

    /// What the selector draws over an area.
    pub open spec fn picture(self, area: Rect) -> Seq<Stroke> {
        let frame = popup("Theme"@, 36, 6, Self::keys());
        let body = frame.body(area);
        if body.empty() {
            frame.picture(area)
        } else {
            frame.picture(area).push(
                Stroke::List {
                    area: body,
                    items: Self::mode_items(),
                    selected: Some(mode_index(self.selected)),
                    marker: true,
                    highlight: Some(colored(Tone::Accent)),
                    cursor: false,
                },
            )
        }
    }

    /// Draws the selector over an area.
    pub fn render(&self, area: Rect, paints: &mut Vec<Paint>)
        requires
            area.fits(),
        ensures
            strokes(final(paints)@) == strokes(old(paints)@) + self.picture(area),
    {
        let ghost start = strokes(paints@);
        let mut keys: Vec<&'static str> = Vec::new();
        keys.push("↑↓ select");
        keys.push("enter apply");
        keys.push("esc close");
        assert(keys@ =~= Self::keys());
        let frame = Floating::new("Theme", 36, 6, &keys);
        let body: Rect = frame.render(area, paints);
        if body.is_empty() {
            return ;
        }
        let mut list: Vec<Vec<Vec<Words>>> = Vec::new();
        push_item(&mut list, "Auto");
        push_item(&mut list, "Light");
        push_item(&mut list, "Dark");
        assert(items(list@) =~= Self::mode_items());
        let index: usize = match self.selected {
            ThemeMode::Auto => 0,
            ThemeMode::Light => 1,
            ThemeMode::Dark => 2,
        };
        paint(
            paints,
            Paint::List {
                area: body,
                items: list,
                selected: Some(index),
                marker: true,
                highlight: Some(Look::plain(Tone::Accent)),
                cursor: false,
            },
        );
        assert(strokes(paints@) =~= start + self.picture(area));
    }
}

fn push_item(list: &mut Vec<Vec<Vec<Words>>>, text: &str)
    ensures
        items(final(list)@) == items(old(list)@).push(
            seq![seq![Word { text: text@, look: colored(Tone::Text) }]],
        ),
{
    let ghost start = items(list@);
    let mut line: Vec<Words> = Vec::new();
    say(&mut line, text.to_owned(), Look::plain(Tone::Text));
    assert(words(line@) =~= seq![Word { text: text@, look: colored(Tone::Text) }]);
    let mut item: Vec<Vec<Words>> = Vec::new();
    item.push(line);
    assert(lines(item@) =~= seq![seq![Word { text: text@, look: colored(Tone::Text) }]]);
    list.push(item);
    assert(items(list@) =~= start.push(lines(item@)));
}

} // verus!
