//! Chrome and layout of modal popups.

use crate::composer::option_view;
use crate::draw::{colored, paint, say, strokes, words, Look, Paint, Stroke, Tone, Word, Words};
use crate::geometry::{
    centered, inner, inside, middle, split_footer, top_centered, top_middle, Rect,
};
use crate::text::concat;
use vstd::prelude::*;

verus! {

/// A popup: a border with a title, and a footer if there are keys to name.
#[derive(Debug)]
pub struct Floating {
    pub title: String,
    pub width: u16,
    pub height: u16,
    pub footer: Option<String>,
    pub at_top: bool,
    pub border: Tone,
    pub title_tone: Tone,
}

/// A popup as mathematical values.
pub struct Popup {
    pub title: Seq<char>,
    pub width: int,
    pub height: int,
    pub footer: Option<Seq<char>>,
    pub at_top: bool,
    pub border: Tone,
    pub title_tone: Tone,
}

impl View for Floating {
    type V = Popup;

    open spec fn view(&self) -> Popup {
        Popup {
            title: self.title@,
            width: self.width as int,
            height: self.height as int,
            footer: option_view(self.footer),
            at_top: self.at_top,
            border: self.border,
            title_tone: self.title_tone,
        }
    }
}

/// A centred popup in the palette's colours.
pub open spec fn popup(title: Seq<char>, width: int, height: int, keys: Seq<&'static str>) -> Popup {
    Popup {
        title,
        width,
        height,
        footer: if keys.len() == 0 {
            None
        } else {
            Some(dotted(keys, keys.len() as int))
        },
        at_top: false,
        border: Tone::Border,
        title_tone: Tone::Accent,
    }
}

/// The first `n` texts with a dot between them.
pub open spec fn dotted(parts: Seq<&'static str>, n: int) -> Seq<char>
    decreases n,
{
    if n <= 0 {
        Seq::empty()
    } else if n == 1 {
        parts[0]@
    } else {
        dotted(parts, n - 1) + " · "@ + parts[n - 1]@
    }
}

/// Joins texts with a dot between them.
pub fn join_dotted(parts: &Vec<&'static str>) -> (text: String)
    ensures
        text@ == dotted(parts@, parts@.len() as int),
{
    let mut text = String::new();
    let mut i: usize = 0;
    assert(text@ =~= dotted(parts@, 0));
    while i < parts.len()
        invariant
            i <= parts.len(),
            text@ == dotted(parts@, i as int),
        decreases parts.len() - i,
    {
        if i > 0 {
            text.push_str(" · ");
        }
        text.push_str(parts[i]);
        i = i + 1;
        assert(text@ =~= dotted(parts@, i as int));
    }
    text
}

impl Popup {
    /// The popup's rectangle.
    pub open spec fn place(self, area: Rect) -> Rect {
        if self.at_top {
            top_middle(area, self.width, self.height)
        } else {
            middle(area, self.width, self.height)
        }
    }

    /// The part of the popup that its contents may use.
    pub open spec fn body(self, area: Rect) -> Rect {
        let free = inside(self.place(area));
        if self.footer is None || free.empty() {
            free
        } else {
            Rect { height: (free.height - 1) as u16, ..free }
        }
    }

    /// What the popup draws around its contents.
    pub open spec fn picture(self, area: Rect) -> Seq<Stroke> {
        let place = self.place(area);
        let free = inside(place);
        let title = if self.title.len() == 0 {
            Seq::empty()
        } else {
            " "@ + self.title + " "@
        };
        let shell = seq![
            Stroke::Clear { area: place },
            Stroke::Border {
                area: place,
                title,
                border: self.border,
                title_tone: self.title_tone,
            },
        ];
        if self.footer is None || free.empty() {
            shell
        } else {
            shell.push(
                Stroke::Line {
                    area: Rect { y: (free.y + free.height - 1) as u16, height: 1, ..free },
                    line: seq![Word { text: self.footer->0, look: colored(Tone::Border) }],
                    centered: true,
                },
            )
        }
    }
}

impl Floating {
    /// A centred popup in the palette's colours.
    pub fn new(title: &str, width: u16, height: u16, keys: &Vec<&'static str>) -> (popup: Self)
        ensures
            popup@ == crate::floating::popup(title@, width as int, height as int, keys@),
    {
        Floating {
            title: title.to_owned(),
            width,
            height,
            footer: if keys.len() == 0 {
                None
            } else {
                Some(join_dotted(keys))
            },
            at_top: false,
            border: Tone::Border,
            title_tone: Tone::Accent,
        }
    }

    /// Draws the popup; returns the part that its contents may use.
    pub fn render(&self, area: Rect, paints: &mut Vec<Paint>) -> (body: Rect)
        requires
            area.fits(),
        ensures
            strokes(final(paints)@) == strokes(old(paints)@) + self@.picture(area),
            body == self@.body(area),
            body.fits(),
    {
        let ghost start = strokes(paints@);
        let place: Rect = if self.at_top {
            top_centered(area, self.width, self.height)
        } else {
            centered(area, self.width, self.height)
        };
        let free: Rect = inner(place);
        paint(paints, Paint::Clear { area: place });
        let mut title = String::new();
        if !self.title.as_str().is_empty() {
            title = concat(" ", self.title.as_str());
            title.push_str(" ");
        }
        paint(
            paints,
            Paint::Border {
                area: place,
                title,
                border: self.border,
                title_tone: self.title_tone,
            },
        );
        let keys: String = match &self.footer {
            Some(footer) => footer.clone(),
            None => {
                assert(strokes(paints@) =~= start + self@.picture(area));
                return free;
            },
        };
        if free.is_empty() {
            assert(strokes(paints@) =~= start + self@.picture(area));
            return free;
        }
        let (body, footer) = split_footer(free);
        let mut line: Vec<Words> = Vec::new();
        say(&mut line, keys, Look::plain(Tone::Border));
        assert(words(line@) =~= seq![Word { text: keys@, look: colored(Tone::Border) }]);
        paint(paints, Paint::Line { area: footer, line, centered: true });
        assert(strokes(paints@) =~= start + self@.picture(area));
        body
    }
}

} // verus!
