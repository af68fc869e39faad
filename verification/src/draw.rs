//! Drawing commands: what a component puts where on the terminal.

use crate::geometry::{Position, Rect};
use crate::settings::{Model, ReasoningEffort};
use vstd::prelude::*;

verus! {

/// A colour by its role in the palette, or by its name.
#[derive(Clone, Copy, Debug, PartialEq, Eq, Structural)]
pub enum Tone {
    Plain,
    Text,
    Muted,
    Accent,
    Border,
    CodeText,
    Effort(ReasoningEffort),
    Model(Model),
    Yellow,
    Cyan,
    Blue,
    Green,
    Red,
    Magenta,
    DarkGray,
    Black,
    CodeBackground,
}

/// A colour with its attributes and the colour behind it; a plain one is the terminal's own.
#[derive(Clone, Copy, Debug, PartialEq, Eq, Structural)]
pub struct Look {
    pub tone: Tone,
    pub ground: Tone,
    pub bold: bool,
    pub dim: bool,
    pub italic: bool,
}

pub open spec fn colored(tone: Tone) -> Look {
    Look { tone, ground: Tone::Plain, bold: false, dim: false, italic: false }
}

pub open spec fn bold_colored(tone: Tone) -> Look {
    Look { tone, ground: Tone::Plain, bold: true, dim: false, italic: false }
}

pub open spec fn dim_colored(tone: Tone) -> Look {
    Look { tone, ground: Tone::Plain, bold: false, dim: true, italic: false }
}

/// The look of source text.
pub open spec fn code_look() -> Look {
    Look {
        tone: Tone::CodeText,
        ground: Tone::CodeBackground,
        bold: false,
        dim: false,
        italic: false,
    }
}

impl Look {
    /// A colour without attributes.
    pub fn plain(tone: Tone) -> (look: Look)
        ensures
            look == colored(tone),
    {
        Look { tone, ground: Tone::Plain, bold: false, dim: false, italic: false }
    }

    /// A colour dimmed.
    pub fn dim(tone: Tone) -> (look: Look)
        ensures
            look == dim_colored(tone),
    {
        Look { tone, ground: Tone::Plain, bold: false, dim: true, italic: false }
    }

    /// The look of source text.
    pub fn code() -> (look: Look)
        ensures
            look == code_look(),
    {
        Look {
            tone: Tone::CodeText,
            ground: Tone::CodeBackground,
            bold: false,
            dim: false,
            italic: false,
        }
    }

    /// A colour in bold.
    pub fn bold(tone: Tone) -> (look: Look)
        ensures
            look == bold_colored(tone),
    {
        Look { tone, ground: Tone::Plain, bold: true, dim: false, italic: false }
    }
}

/// Text in one look.
#[derive(Debug)]
pub struct Words {
    pub text: String,
    pub look: Look,
}

/// Text in one look, as mathematical values.
pub struct Word {
    pub text: Seq<char>,
    pub look: Look,
}

impl View for Words {
    type V = Word;

    open spec fn view(&self) -> Word {
        Word { text: self.text@, look: self.look }
    }
}

/// The words of a line.
pub open spec fn words(line: Seq<Words>) -> Seq<Word> {
    line.map_values(|part: Words| part@)
}

/// The lines of a block of text.
pub open spec fn lines(block: Seq<Vec<Words>>) -> Seq<Seq<Word>> {
    block.map_values(|line: Vec<Words>| words(line@))
}

/// The lines of every item of a list.
pub open spec fn items(list: Seq<Vec<Vec<Words>>>) -> Seq<Seq<Seq<Word>>> {
    list.map_values(|item: Vec<Vec<Words>>| lines(item@))
}

/// Appends text to a line.
pub fn say(line: &mut Vec<Words>, text: String, look: Look)
    ensures
        words(final(line)@) == words(old(line)@).push(Word { text: text@, look }),
{
    line.push(Words { text, look });
    assert(words(line@) =~= words(old(line)@).push(Word { text: text@, look }));
}

/// A copy of a line.
pub fn copy_line(line: &Vec<Words>) -> (copy: Vec<Words>)
    ensures
        words(copy@) == words(line@),
{
    let mut copy: Vec<Words> = Vec::new();
    let mut i: usize = 0;
    assert(words(copy@) =~= words(line@).take(0));
    while i < line.len()
        invariant
            i <= line@.len(),
            words(copy@) == words(line@).take(i as int),
        decreases line@.len() - i,
    {
        let ghost sofar = words(copy@);
        say(&mut copy, line[i].text.clone(), line[i].look);
        i = i + 1;
        assert(words(copy@) =~= words(line@).take(i as int));
    }
    assert(words(copy@) =~= words(line@));
    copy
}

/// One drawing command.
#[derive(Debug)]
pub enum Paint {
    /// Empties a rectangle.
    Clear { area: Rect },
    /// Draws a rounded border with a bold title in the middle of its upper side; an empty title is
    /// left out.
    Border { area: Rect, title: String, border: Tone, title_tone: Tone },
    /// Draws a line above a block of text, with a title in it.
    Rule { area: Rect, title: String },
    /// Writes a line of text.
    Line { area: Rect, line: Vec<Words>, centered: bool },
    /// Writes a line of text in the middle, wrapped between words.
    Wrapped { area: Rect, message: Vec<Words> },
    /// Writes text over several rows, from a row of it on.
    Paragraph { area: Rect, text: String, look: Look, scroll: u16 },
    /// Writes a list of which one item is marked, and scrolls so that it is seen. `cursor` puts the
    /// cursor into the first row of the marked item.
    List {
        area: Rect,
        items: Vec<Vec<Vec<Words>>>,
        selected: Option<usize>,
        marker: bool,
        highlight: Option<Look>,
        cursor: bool,
    },
    /// Writes a list two columns to the right, with one item in another look, and scrolls so that it
    /// is seen.
    Tree { area: Rect, items: Vec<Vec<Vec<Words>>>, row: usize, look: Look },
    /// Gives every cell of a rectangle a look.
    Fill { area: Rect, look: Look },
    /// Puts a character into a cell.
    Symbol { x: u16, y: u16, symbol: char, look: Look },
    /// Writes text from a cell on, at most `limit` columns of it.
    Text { x: u16, y: u16, text: String, limit: usize, look: Look },
    /// Writes animated text from a cell on, up to the column `end`.
    Wave { x: u16, y: u16, text: String, end: u16, tone: Tone },
    /// Draws a frame of a model's artwork.
    Artwork { area: Rect, model: Model, frame: usize },
    /// Shows the cursor in a cell.
    Cursor { position: Position },
}

/// A drawing command as mathematical values.
pub enum Stroke {
    Clear { area: Rect },
    Border { area: Rect, title: Seq<char>, border: Tone, title_tone: Tone },
    Rule { area: Rect, title: Seq<char> },
    Line { area: Rect, line: Seq<Word>, centered: bool },
    Wrapped { area: Rect, message: Seq<Word> },
    Paragraph { area: Rect, text: Seq<char>, look: Look, scroll: int },
    List {
        area: Rect,
        items: Seq<Seq<Seq<Word>>>,
        selected: Option<int>,
        marker: bool,
        highlight: Option<Look>,
        cursor: bool,
    },
    Tree { area: Rect, items: Seq<Seq<Seq<Word>>>, row: int, look: Look },
    Fill { area: Rect, look: Look },
    Symbol { x: int, y: int, symbol: char, look: Look },
    Text { x: int, y: int, text: Seq<char>, limit: int, look: Look },
    Wave { x: int, y: int, text: Seq<char>, end: int, tone: Tone },
    Artwork { area: Rect, model: Model, frame: int },
    Cursor { x: int, y: int },
}

impl View for Paint {
    type V = Stroke;

    open spec fn view(&self) -> Stroke {
        match self {
            Paint::Clear { area } => Stroke::Clear { area: *area },
            Paint::Border { area, title, border, title_tone } => Stroke::Border {
                area: *area,
                title: title@,
                border: *border,
                title_tone: *title_tone,
            },
            Paint::Rule { area, title } => Stroke::Rule { area: *area, title: title@ },
            Paint::Line { area, line, centered } => Stroke::Line {
                area: *area,
                line: words(line@),
                centered: *centered,
            },
            Paint::Wrapped { area, message } => Stroke::Wrapped {
                area: *area,
                message: words(message@),
            },
            Paint::Paragraph { area, text, look, scroll } => Stroke::Paragraph {
                area: *area,
                text: text@,
                look: *look,
                scroll: *scroll as int,
            },
            Paint::List { area, items, selected, marker, highlight, cursor } => Stroke::List {
                area: *area,
                items: crate::draw::items(items@),
                selected: match selected {
                    Some(index) => Some(*index as int),
                    None => None,
                },
                marker: *marker,
                highlight: *highlight,
                cursor: *cursor,
            },
            Paint::Tree { area, items, row, look } => Stroke::Tree {
                area: *area,
                items: crate::draw::items(items@),
                row: *row as int,
                look: *look,
            },
            Paint::Fill { area, look } => Stroke::Fill { area: *area, look: *look },
            Paint::Symbol { x, y, symbol, look } => Stroke::Symbol {
                x: *x as int,
                y: *y as int,
                symbol: *symbol,
                look: *look,
            },
            Paint::Text { x, y, text, limit, look } => Stroke::Text {
                x: *x as int,
                y: *y as int,
                text: text@,
                limit: *limit as int,
                look: *look,
            },
            Paint::Wave { x, y, text, end, tone } => Stroke::Wave {
                x: *x as int,
                y: *y as int,
                text: text@,
                end: *end as int,
                tone: *tone,
            },
            Paint::Artwork { area, model, frame } => Stroke::Artwork {
                area: *area,
                model: *model,
                frame: *frame as int,
            },
            Paint::Cursor { position } => Stroke::Cursor {
                x: position.x as int,
                y: position.y as int,
            },
        }
    }
}

/// The strokes of a list of commands.
pub open spec fn strokes(paints: Seq<Paint>) -> Seq<Stroke> {
    paints.map_values(|paint: Paint| paint@)
}

/// Appends commands.
pub fn paint_all(paints: &mut Vec<Paint>, next: Vec<Paint>)
    ensures
        strokes(final(paints)@) == strokes(old(paints)@) + strokes(next@),
{
    let ghost front = paints@;
    let ghost back = next@;
    let mut next = next;
    paints.append(&mut next);
    assert(strokes(paints@) =~= strokes(front) + strokes(back));
}

/// Appends a command.
pub fn paint(paints: &mut Vec<Paint>, next: Paint)
    ensures
        strokes(final(paints)@) == strokes(old(paints)@).push(next@),
{
    paints.push(next);
    assert(strokes(paints@) =~= strokes(old(paints)@).push(next@));
}

} // verus!
