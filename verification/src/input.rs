//! Which events stand for which requests.

use crate::event::{Event, KeyCode, MouseButton, MouseKind};
use crate::geometry::{Position, Rect};
use crate::text::characters;
use vstd::prelude::*;

verus! {

/// The character is a letter or a digit of some script.
pub uninterp spec fn is_alphanumeric(c: char) -> bool;

/// `char::is_alphanumeric`: whether the character has the `Alphabetic` property or is numeric.
#[verifier::external_body]
fn alphanumeric(c: char) -> (yes: bool)
    ensures
        yes == is_alphanumeric(c),
{
    c.is_alphanumeric()
}

/// The character may stand in the query of a file mention.
pub open spec fn in_file_query(c: char) -> bool {
    is_alphanumeric(c) || c == '_' || c == '-' || c == '.' || c == '/'
}

/// Whether the character may stand in the query of a file mention.
pub fn is_file_query_character(character: char) -> (yes: bool)
    ensures
        yes == in_file_query(character),
{
    alphanumeric(character) || character == '_' || character == '-' || character == '.' || character
        == '/'
}

/// A character is typed: no control or alt key is down.
pub open spec fn types(event: Event, c: char) -> bool {
    event matches Event::Key(key) && key.down() && key.code == KeyCode::Char(c)
        && !key.modifiers.control && !key.modifiers.alt
}

/// A character is pressed with the control key.
pub open spec fn commands(event: Event, c: char) -> bool {
    event matches Event::Key(key) && key.down() && key.code == KeyCode::Char(c)
        && key.modifiers.control
}

/// A key is pressed without any other.
pub open spec fn presses(event: Event, code: KeyCode) -> bool {
    event matches Event::Key(key) && key.down() && key.code == code && key.modifiers.empty()
}

/// The left mouse button goes down in an area.
pub open spec fn clicks_in(event: Event, area: Rect) -> bool {
    event matches Event::Mouse(mouse) && mouse.kind == MouseKind::Down(MouseButton::Left)
        && area.covers(Position { x: mouse.column, y: mouse.row })
}

fn is_typed(event: &Event, character: char) -> (yes: bool)
    ensures
        yes == types(*event, character),
{
    match event {
        Event::Key(key) => key.is_down() && key.code == KeyCode::Char(character)
            && !key.modifiers.control && !key.modifiers.alt,
        _ => false,
    }
}

/// Whether the event asks for the actions menu.
pub fn is_actions_trigger(event: &Event) -> (yes: bool)
    ensures
        yes == types(*event, '/'),
{
    is_typed(event, '/')
}

/// Whether the event asks for the file finder.
pub fn is_file_finder_trigger(event: &Event) -> (yes: bool)
    ensures
        yes == types(*event, '@'),
{
    is_typed(event, '@')
}

/// The event belongs to the file finder.
pub open spec fn navigates_files(event: Event) -> bool {
    event matches Event::Key(key) && key.down() && (key.code == KeyCode::Enter || key.code
        == KeyCode::Up || key.code == KeyCode::Down || key.code == KeyCode::Esc)
}

/// Whether the event belongs to the file finder.
pub fn is_file_finder_navigation(event: &Event) -> (yes: bool)
    ensures
        yes == navigates_files(*event),
{
    match event {
        Event::Key(key) => key.is_down() && (key.code == KeyCode::Enter || key.code == KeyCode::Up
            || key.code == KeyCode::Down || key.code == KeyCode::Esc),
        _ => false,
    }
}

/// The event edits a file mention.
pub open spec fn edits_mention(event: Event) -> bool {
    match event {
        Event::Key(key) => key.down() && (key.code == KeyCode::Backspace || key.code is Char
            && !key.modifiers.control && !key.modifiers.alt),
        Event::Paste(_) => true,
        _ => false,
    }
}

/// Whether the event edits a file mention.
pub fn is_file_mention_edit(event: &Event) -> (yes: bool)
    ensures
        yes == edits_mention(*event),
{
    match event {
        Event::Key(key) => {
            let character: bool = match key.code {
                KeyCode::Char(_) => true,
                _ => false,
            };
            key.is_down() && (key.code == KeyCode::Backspace || character && !key.modifiers.control
                && !key.modifiers.alt)
        },
        Event::Paste(_) => true,
        _ => false,
    }
}

/// Every character of a text may stand in the query of a file mention.
pub open spec fn all_in_file_query(text: Seq<char>) -> bool {
    forall|i: int| 0 <= i < text.len() ==> in_file_query(#[trigger] text[i])
}

fn is_file_query(text: &str) -> (yes: bool)
    ensures
        yes == all_in_file_query(text@),
{
    let chars = characters(text);
    let mut i: usize = 0;
    while i < chars.len()
        invariant
            chars@ == text@,
            i <= chars@.len(),
            forall|k: int| 0 <= k < i ==> in_file_query(#[trigger] text@[k]),
        decreases chars@.len() - i,
    {
        if !is_file_query_character(chars[i]) {
            assert(!in_file_query(text@[i as int]));
            return false;
        }
        i = i + 1;
    }
    true
}

/// The edit leaves a query behind that the file finder goes on with.
pub open spec fn continues_query(event: Event) -> bool {
    match event {
        Event::Key(key) => match key.code {
            KeyCode::Backspace => true,
            KeyCode::Char(c) => in_file_query(c),
            _ => false,
        },
        Event::Paste(text) => all_in_file_query(text@),
        _ => false,
    }
}

/// Whether the edit leaves a query behind that the file finder goes on with.
pub fn file_mention_edit_continues_query(event: &Event) -> (yes: bool)
    ensures
        yes == continues_query(*event),
{
    match event {
        Event::Key(key) => match key.code {
            KeyCode::Backspace => true,
            KeyCode::Char(c) => is_file_query_character(c),
            _ => false,
        },
        Event::Paste(text) => is_file_query(text.as_str()),
        _ => false,
    }
}

/// The event moves the focus.
pub open spec fn toggles_focus(event: Event) -> bool {
    event matches Event::Key(key) && key.down() && (key.code == KeyCode::Tab || key.code
        == KeyCode::BackTab)
}

/// Whether the event moves the focus.
pub fn is_focus_toggle(event: &Event) -> (yes: bool)
    ensures
        yes == toggles_focus(*event),
{
    match event {
        Event::Key(key) => key.is_down() && (key.code == KeyCode::Tab || key.code
            == KeyCode::BackTab),
        _ => false,
    }
}

/// Whether the left mouse button goes down in an area.
pub fn is_left_click_in(event: &Event, area: Rect) -> (yes: bool)
    ensures
        yes == clicks_in(*event, area),
{
    match event {
        Event::Mouse(mouse) => mouse.kind == MouseKind::Down(MouseButton::Left) && area.contains(
            Position { x: mouse.column, y: mouse.row },
        ),
        _ => false,
    }
}

/// Whether a character is pressed with the control key.
pub fn is_control_key(event: &Event, character: char) -> (yes: bool)
    ensures
        yes == commands(*event, character),
{
    match event {
        Event::Key(key) => key.is_down() && key.code == KeyCode::Char(character)
            && key.modifiers.control,
        _ => false,
    }
}

/// Whether the event interrupts.
pub fn is_control_c(event: &Event) -> (yes: bool)
    ensures
        yes == commands(*event, 'c'),
{
    is_control_key(event, 'c')
}

fn is_pressed(event: &Event, code: KeyCode) -> (yes: bool)
    ensures
        yes == presses(*event, code),
{
    match event {
        Event::Key(key) => key.is_down() && key.code == code && key.modifiers.is_empty(),
        _ => false,
    }
}

/// Whether the escape key is pressed without any other.
pub fn is_escape(event: &Event) -> (yes: bool)
    ensures
        yes == presses(*event, KeyCode::Esc),
{
    is_pressed(event, KeyCode::Esc)
}

/// Whether the enter key is pressed without any other.
pub fn is_plain_enter(event: &Event) -> (yes: bool)
    ensures
        yes == presses(*event, KeyCode::Enter),
{
    is_pressed(event, KeyCode::Enter)
}

/// Control-v or the super key with v asks for the image of the clipboard.
pub open spec fn pastes_image(event: Event) -> bool {
    event matches Event::Key(key) && key.down() && key.code == KeyCode::Char('v') && (
    key.modifiers.control || key.modifiers.super_key)
}

/// Whether an event asks for the image of the clipboard.
pub fn is_image_paste(event: &Event) -> (yes: bool)
    ensures
        yes == pastes_image(*event),
{
    match event {
        Event::Key(key) => key.is_down() && key.code == KeyCode::Char('v') && (
        key.modifiers.control || key.modifiers.super_key),
        _ => false,
    }
}

} // verus!
