//! The list of keyboard shortcuts.

use crate::draw::{
    bold_colored, colored, paint, say, strokes, words, Look, Paint, Stroke, Tone, Word, Words,
};
use crate::event::{Event, KeyCode};
use crate::floating::{popup, Floating};
use crate::geometry::Rect;
use crate::node::{ComponentUpdate, RenderRequest};
use crate::text::concat;
use vstd::prelude::*;

verus! {

/// What happens to the list.
#[derive(Debug)]
pub enum KeybindingsEvent {
    Terminal(Event),
}

/// What the list asks of its owner.
#[derive(Clone, Copy, Debug, PartialEq, Eq, Structural)]
pub enum KeybindingsEffect {
    Dismiss,
}

/// The list of keyboard shortcuts.
#[derive(Clone, Copy, Debug)]
pub struct KeybindingsHelp;

/// The escape key closes the list.
pub open spec fn closes(event: KeybindingsEvent) -> bool {
    event matches KeybindingsEvent::Terminal(Event::Key(key)) && key.down() && key.code
        == KeyCode::Esc
}

/// The keys and what they do.
pub open spec fn bindings() -> Seq<(&'static str, &'static str)> {
    seq![
        ("ctrl+s", "change reasoning effort"),
        ("ctrl+f", "fork session · when available"),
        ("ctrl+g", "edit prompt in $EDITOR"),
        ("ctrl/cmd+v", "paste clipboard image"),
        ("ctrl+o", "expand · collapse all tool calls"),
        ("ctrl+c", "clear focused draft · split closes pane · else exit"),
        ("esc esc", "interrupt the active response"),
        ("enter", "submit prompt"),
        ("shift+enter/ctrl+j", "insert newline"),
        ("↑/↓", "move cursor · prompt history at edge"),
        ("tab", "focus queue · when present"),
        ("/", "open actions · empty prompt only"),
        ("@", "insert workspace file"),
        ("!", "local shell command · prompt start"),
        ("mouse click/drag", "open links/tools · copy text"),
        ("pgup/pgdn · wheel", "scroll transcript"),
        ("ctrl+home/end", "jump to start · follow latest"),
    ]
}

/// A text followed by blanks up to a number of characters.
pub open spec fn padded(text: Seq<char>, length: int) -> Seq<char>
    decreases length - text.len(),
{
    if text.len() >= length {
        text
    } else {
        padded(text.push(' '), length)
    }
}

/// The line of a key: the key in a column of its own, and what it does.
pub open spec fn binding_line(binding: (&'static str, &'static str)) -> Seq<Word> {
    seq![
        Word { text: " "@ + padded(binding.0@, 18), look: bold_colored(Tone::Green) },
        Word { text: binding.1@, look: colored(Tone::Muted) },
    ]
}

/// What the list draws over an area: a line for each key as far as there are rows.
pub open spec fn help_picture(area: Rect) -> Seq<Stroke> {
    let frame = popup("Keyboard shortcuts"@, 72, 21, seq!["esc close"]);
    let body = frame.body(area);
    frame.picture(area) + if body.empty() {
        Seq::empty()
    } else {
        help_lines(body, bindings().len() as int)
    }
}

/// The lines of the first `n` keys.
pub open spec fn help_lines(body: Rect, n: int) -> Seq<Stroke>
    decreases n,
{
    if n <= 0 {
        Seq::empty()
    } else if n > body.height {
        help_lines(body, n - 1)
    } else {
        help_lines(body, n - 1).push(
            Stroke::Line {
                area: Rect { y: (body.y + n - 1) as u16, height: 1, ..body },
                line: binding_line(bindings()[n - 1]),
                centered: false,
            },
        )
    }
}

fn pad(text: &str, length: usize) -> (wide: String)
    ensures
        wide@ == padded(text@, length as int),
{
    let mut wide: String = text.to_owned();
    let mut count: usize = crate::text::characters(text).len();
    while count < length
        invariant
            count == wide@.len(),
            padded(text@, length as int) == padded(wide@, length as int),
        decreases length - count,
    {
        wide.push(' ');
        count = count + 1;
    }
    wide
}

/// The keys and what they do.
pub fn binding_list() -> (list: Vec<(&'static str, &'static str)>)
    ensures
        list@ == bindings(),
{
    let mut list: Vec<(&'static str, &'static str)> = Vec::new();
    list.push(("ctrl+s", "change reasoning effort"));
    list.push(("ctrl+f", "fork session · when available"));
    list.push(("ctrl+g", "edit prompt in $EDITOR"));
    list.push(("ctrl/cmd+v", "paste clipboard image"));
    list.push(("ctrl+o", "expand · collapse all tool calls"));
    list.push(("ctrl+c", "clear focused draft · split closes pane · else exit"));
    list.push(("esc esc", "interrupt the active response"));
    list.push(("enter", "submit prompt"));
    list.push(("shift+enter/ctrl+j", "insert newline"));
    list.push(("↑/↓", "move cursor · prompt history at edge"));
    list.push(("tab", "focus queue · when present"));
    list.push(("/", "open actions · empty prompt only"));
    list.push(("@", "insert workspace file"));
    list.push(("!", "local shell command · prompt start"));
    list.push(("mouse click/drag", "open links/tools · copy text"));
    list.push(("pgup/pgdn · wheel", "scroll transcript"));
    list.push(("ctrl+home/end", "jump to start · follow latest"));
    assert(list@ =~= bindings());
    list
}

impl KeybindingsHelp {
    /// Handles an event.
    pub fn update(&mut self, event: KeybindingsEvent) -> (update: ComponentUpdate<
        KeybindingsEffect,
    >)
        ensures
            *final(self) == *old(self),
            closes(event) ==> update.effects@ == seq![KeybindingsEffect::Dismiss] && update.render
                == RenderRequest::Immediate,
            !closes(event) ==> update.only(RenderRequest::Idle),
    {
        match event {
            KeybindingsEvent::Terminal(Event::Key(key)) => {
                if key.is_down() && key.code == KeyCode::Esc {
                    ComponentUpdate::one(KeybindingsEffect::Dismiss, RenderRequest::Immediate)
                } else {
                    ComponentUpdate::none()
                }
            },
            _ => ComponentUpdate::none(),
        }
    }

    /// Draws the list over an area.
    pub fn render(&self, area: Rect) -> (paints: Vec<Paint>)
        requires
            area.fits(),
        ensures
            strokes(paints@) == help_picture(area),
    {
        let mut paints: Vec<Paint> = Vec::new();
        assert(strokes(paints@) =~= Seq::<Stroke>::empty());
        let mut keys: Vec<&'static str> = Vec::new();
        keys.push("esc close");
        assert(keys@ =~= seq!["esc close"]);
        let frame = Floating::new("Keyboard shortcuts", 72, 21, &keys);
        let body: Rect = frame.render(area, &mut paints);
        let ghost framed = strokes(paints@);
        assert(framed =~= frame@.picture(area));
        if body.is_empty() {
            assert(strokes(paints@) =~= help_picture(area));
            return paints;
        }
        let list = binding_list();
        let mut i: usize = 0;
        assert(framed + help_lines(body, 0) =~= framed);
        while i < list.len()
            invariant
                body.fits(),
                list@ == bindings(),
                i <= list@.len(),
                strokes(paints@) == framed + help_lines(body, i as int),
            decreases list@.len() - i,
        {
            if i < body.height as usize {
                let mut line: Vec<Words> = Vec::new();
                say(
                    &mut line,
                    concat(" ", pad(list[i].0, 18).as_str()),
                    Look::bold(Tone::Green),
                );
                say(&mut line, list[i].1.to_owned(), Look::plain(Tone::Muted));
                assert(words(line@) =~= binding_line(bindings()[i as int]));
                paint(
                    &mut paints,
                    Paint::Line {
                        area: Rect {
                            x: body.x,
                            y: body.y + i as u16,
                            width: body.width,
                            height: 1,
                        },
                        line,
                        centered: false,
                    },
                );
            }
            i = i + 1;
            assert(strokes(paints@) =~= framed + help_lines(body, i as int));
        }
        assert(strokes(paints@) =~= help_picture(area));
        paints
    }
}

} // verus!
