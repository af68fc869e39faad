//! A picker of the range of changes to review.

use crate::draw::{
    bold_colored, colored, items, lines, paint, say, strokes, words, Look, Paint, Stroke, Tone, Word,
    Words,
};
use crate::event::{Event, KeyCode, KeyEvent};
use crate::floating::{popup, Floating};
use crate::geometry::{least, minus, Rect};
use crate::node::{ComponentUpdate, RenderRequest};
use vstd::prelude::*;

verus! {

/// A range of changes as it is shown.
#[derive(Debug)]
pub struct ReviewRange {
    pub label: String,
    pub detail: String,
}

/// What happens to the picker.
#[derive(Debug)]
pub enum ReviewRangeEvent {
    Terminal(Event),
}

/// What the picker asks of its owner: to review the range at an index, or to close.
#[derive(Clone, Copy, Debug, PartialEq, Eq, Structural)]
pub enum ReviewRangeEffect {
    Selected(usize),
    Dismiss,
}

/// The picker: ranges, and the selected one.
#[derive(Debug)]
pub struct ReviewRangePicker {
    pub ranges: Vec<ReviewRange>,
    pub selected: usize,
}

/// The selection after a key.
pub open spec fn selection_after(code: KeyCode, selected: int, count: int) -> int {
    match code {
        KeyCode::Up => minus(selected, 1),
        KeyCode::Down => least(selected + 1, minus(count, 1)),
        _ => selected,
    }
}

/// The request that a key makes.
pub open spec fn request_of(code: KeyCode, selected: int, count: int) -> Seq<ReviewRangeEffect> {
    match code {
        KeyCode::Esc => seq![ReviewRangeEffect::Dismiss],
        KeyCode::Enter => if selected < count {
            seq![ReviewRangeEffect::Selected(selected as usize)]
        } else {
            Seq::empty()
        },
        _ => Seq::empty(),
    }
}

/// Whether a key changes what is seen.
pub open spec fn redraws(code: KeyCode, selected: int, count: int) -> bool {
    match code {
        KeyCode::Up | KeyCode::Down | KeyCode::Esc => true,
        KeyCode::Enter => selected < count,
        _ => false,
    }
}

impl ReviewRangePicker {
    /// A range is selected if there is any.
    pub open spec fn wf(self) -> bool {
        self.selected == 0 || self.selected < self.ranges@.len()
    }

    /// The picker with the last range selected.
    pub fn new(ranges: Vec<ReviewRange>) -> (picker: Self)
        ensures
            picker.ranges == ranges,
            picker.selected == minus(ranges@.len() as int, 1),
            picker.wf(),
    {
        let selected: usize = ranges.len().saturating_sub(1);
        ReviewRangePicker { selected, ranges }
    }

    fn update_key(&mut self, key: KeyEvent) -> (update: ComponentUpdate<ReviewRangeEffect>)
        requires
            old(self).wf(),
        ensures
            final(self).wf(),
            final(self).ranges == old(self).ranges,
            final(self).selected == (if key.down() {
                selection_after(
                    key.code,
                    old(self).selected as int,
                    old(self).ranges@.len() as int,
                )
            } else {
                old(self).selected as int
            }),
            update.effects@ == (if key.down() {
                request_of(key.code, old(self).selected as int, old(self).ranges@.len() as int)
            } else {
                Seq::empty()
            }),
            update.render == (if key.down() && redraws(
                key.code,
                old(self).selected as int,
                old(self).ranges@.len() as int,
            ) {
                RenderRequest::Immediate
            } else {
                RenderRequest::Idle
            }),
    {
        if !key.is_down() {
            return ComponentUpdate::none();
        }
        match key.code {
            KeyCode::Esc => ComponentUpdate::one(
                ReviewRangeEffect::Dismiss,
                RenderRequest::Immediate,
            ),
            KeyCode::Up => {
                self.selected = self.selected.saturating_sub(1);
                ComponentUpdate::render(RenderRequest::Immediate)
            },
            KeyCode::Down => {
                let last: usize = self.ranges.len().saturating_sub(1);
                self.selected = if self.selected < last {
                    self.selected + 1
                } else {
                    last
                };
                ComponentUpdate::render(RenderRequest::Immediate)
            },
            KeyCode::Enter => {
                if self.selected >= self.ranges.len() {
                    return ComponentUpdate::none();
                }
                ComponentUpdate::one(
                    ReviewRangeEffect::Selected(self.selected),
                    RenderRequest::Immediate,
                )
            },
            _ => ComponentUpdate::none(),
        }
    }

    /// Handles an event.
    pub fn update(&mut self, event: ReviewRangeEvent) -> (update: ComponentUpdate<
        ReviewRangeEffect,
    >)
        requires
            old(self).wf(),
        ensures
            final(self).wf(),
            final(self).ranges == old(self).ranges,
            match event {
                ReviewRangeEvent::Terminal(Event::Key(key)) if key.down() => {
                    let count = old(self).ranges@.len() as int;
                    let at = old(self).selected as int;
                    &&& final(self).selected == selection_after(key.code, at, count)
                    &&& update.effects@ == request_of(key.code, at, count)
                    &&& update.render == if redraws(key.code, at, count) {
                        RenderRequest::Immediate
                    } else {
                        RenderRequest::Idle
                    }
                },
                _ => final(self).selected == old(self).selected && update.only(
                    RenderRequest::Idle,
                ),
            },
    {
        match event {
            ReviewRangeEvent::Terminal(Event::Key(key)) => self.update_key(key),
            _ => ComponentUpdate::none(),
        }
    }

    /// The lines of the ranges.
    pub open spec fn range_items(self) -> Seq<Seq<Seq<Word>>> {
        Seq::new(
            self.ranges@.len(),
            |i: int|
                seq![
                    seq![Word { text: self.ranges@[i].label@, look: colored(Tone::Text) }],
                    seq![Word { text: self.ranges@[i].detail@, look: colored(Tone::Muted) }],
                ],
        )
    }

    /// What the picker draws over an area.
    pub open spec fn picture(self, area: Rect) -> Seq<Stroke> {
        let frame = popup(
            "Select changes to review"@,
            72,
            least((self.ranges@.len() * 2) as int, 18) + 4,
            seq!["↑↓ select", "enter review", "esc cancel"],
        );
        frame.picture(area).push(
            Stroke::List {
                area: frame.body(area),
                items: self.range_items(),
                selected: Some(self.selected as int),
                marker: true,
                highlight: Some(bold_colored(Tone::Accent)),
                cursor: false,
            },
        )
    }

    /// Draws the picker over an area.
    pub fn render(&self, area: Rect) -> (paints: Vec<Paint>)
        requires
            area.fits(),
        ensures
            strokes(paints@) == self.picture(area),
    {
        let mut paints: Vec<Paint> = Vec::new();
        assert(strokes(paints@) =~= Seq::<Stroke>::empty());
        let mut keys: Vec<&'static str> = Vec::new();
        keys.push("↑↓ select");
        keys.push("enter review");
        keys.push("esc cancel");
        assert(keys@ =~= seq!["↑↓ select", "enter review", "esc cancel"]);
        let height: u16 = if self.ranges.len() >= 9 {
            22
        } else {
            (self.ranges.len() * 2) as u16 + 4
        };
        let frame = Floating::new("Select changes to review", 72, height, &keys);
        let body: Rect = frame.render(area, &mut paints);
        assert(strokes(paints@) =~= frame@.picture(area));
        let mut list: Vec<Vec<Vec<Words>>> = Vec::new();
        let mut i: usize = 0;
        while i < self.ranges.len()
            invariant
                i <= self.ranges@.len(),
                items(list@) == self.range_items().take(i as int),
            decreases self.ranges@.len() - i,
        {
            let ghost sofar = items(list@);
            let mut first: Vec<Words> = Vec::new();
            say(&mut first, self.ranges[i].label.clone(), Look::plain(Tone::Text));
            let mut second: Vec<Words> = Vec::new();
            say(&mut second, self.ranges[i].detail.clone(), Look::plain(Tone::Muted));
            let ghost expected = self.range_items()[i as int];
            assert(words(first@) =~= expected[0]);
            assert(words(second@) =~= expected[1]);
            let mut item: Vec<Vec<Words>> = Vec::new();
            item.push(first);
            item.push(second);
            assert(lines(item@) =~= expected);
            list.push(item);
            i = i + 1;
            assert(items(list@) =~= sofar.push(lines(item@)));
            assert(items(list@) =~= self.range_items().take(i as int));
        }
        assert(items(list@) =~= self.range_items());
        paint(
            &mut paints,
            Paint::List {
                area: body,
                items: list,
                selected: Some(self.selected),
                marker: true,
                highlight: Some(Look::bold(Tone::Accent)),
                cursor: false,
            },
        );
        assert(strokes(paints@) =~= self.picture(area));
        paints
    }
}

} // verus!
