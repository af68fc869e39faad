//! What a session draws.

use crate::actions::actions_picture;
use crate::composer::{Composer, ComposerModel};
use crate::draw::{
    copy_line, paint, paint_all, strokes, words, Paint, Stroke, Tone, Word, Words,
};
use crate::floating::{Floating, Popup};
use crate::geometry::{least, smaller, times, to_cell, Rect};
use crate::keybindings::help_picture;
use crate::root::{Cover, Frames, Overlay, Root, RootNode};
use crate::selection::{captured_rows, row_texts, SelectedRow, Selection};
use crate::subagents::{Forest, SubagentOverlay};
use crate::text::{display_width, width};
use vstd::prelude::*;

verus! {

/// Where the parts of a session stand.
#[derive(Clone, Copy, Debug, PartialEq, Eq, Structural)]
pub struct Places {
    pub composer: Rect,
    pub queue: Rect,
    pub transcript: Rect,
    /// The text of the composer, inside its border.
    pub content: Rect,
}

impl Root {
    /// The composer stands at the bottom and the queue above it, a little narrower; the transcript
    /// gets the rest.
    pub open spec fn places(self, area: Rect) -> Places {
        let height = least(self.composer.height_in(area.width as int), area.height as int);
        let composer = Rect {
            y: (area.y + area.height - height) as u16,
            height: height as u16,
            ..area
        };
        let queue_height = least(self.queue.height(), area.height - height);
        let queue_width = least(area.width * 95, u16::MAX as int) / 100;
        Places {
            composer,
            queue: Rect {
                x: (area.x + (area.width - queue_width) / 2) as u16,
                y: (composer.y - queue_height) as u16,
                width: queue_width as u16,
                height: queue_height as u16,
            },
            transcript: Rect { height: (area.height - height - queue_height) as u16, ..area },
            content: if composer.width >= 2 && composer.height >= 3 {
                Rect {
                    x: (composer.x + 1) as u16,
                    y: (composer.y + 1) as u16,
                    width: (composer.width - 2) as u16,
                    height: (composer.height - 2) as u16,
                }
            } else {
                composer
            },
        }
    }

    /// What lies over the session draws.
    pub open spec fn cover_picture(self, area: Rect, unix_ms: int) -> Seq<Stroke> {
        match self.overlay {
            None => Seq::empty(),
            Some(Cover::Actions(menu)) => actions_picture(menu, area),
            Some(Cover::Effort(selector)) => selector.picture(area),
            Some(Cover::Theme(selector)) => selector.picture(area),
            Some(Cover::FileFinder { finder, .. }) => finder.picture(area),
            Some(Cover::Keybindings) => help_picture(area),
            Some(Cover::Sessions(picker)) => picker.picture(area, unix_ms),
            Some(Cover::Subagents(SubagentOverlay::Tree)) => self.subagents.tree_picture(area),
            Some(Cover::Subagents(SubagentOverlay::Transcript(id))) =>
                self.subagents.transcript_picture(id, area),
        }
    }

    /// The subagents after a frame.
    pub open spec fn subagents_drawn(self, area: Rect) -> Forest {
        match self.overlay {
            Some(Cover::Subagents(SubagentOverlay::Transcript(id))) =>
                self.subagents.transcript_rendered(id, area),
            _ => self.subagents,
        }
    }

    /// The composer shows the cursor.
    pub open spec fn composer_focused(self, focused: bool) -> bool {
        focused && !self.transcript.tools_focused && !self.queue.focused
    }
}

impl Composer {
    /// The composer after a frame.
    pub open spec fn drawn(self, area: Rect) -> ComposerModel {
        if area.width < 2 || area.height < 3 {
            self@
        } else {
            ComposerModel {
                width: Composer::inner_columns(area),
                scroll: self.shown_scroll(area),
                ..self@
            }
        }
    }
}

impl RootNode {
    /// What a frame draws, but for the selection and the notification.
    pub open spec fn picture(self, area: Rect, model: Seq<char>, focused: bool, unix_ms: int) -> Seq<
        Stroke,
    > {
        let places = self@.places(area);
        self@.transcript.picture(places.transcript) + self@.queue.picture(places.queue)
            + self.composer.picture(places.composer, model, self@.composer_focused(focused))
            + self@.cover_picture(area, unix_ms)
    }

    /// The session after a frame.
    pub open spec fn drawn(self, area: Rect, model: Seq<char>) -> Root {
        let places = self@.places(area);
        let bare = places.composer.width < 2 || places.composer.height < 3;
        Root {
            transcript: self@.transcript.rendered(places.transcript),
            composer: self.composer.drawn(places.composer),
            effort_area: if bare {
                self@.effort_area
            } else {
                self.composer.labels(model).effort_area(places.composer)
            },
            subagent_area: if bare {
                self@.subagent_area
            } else {
                self.composer.labels(model).subagent_area(places.composer)
            },
            subagents: self@.subagents_drawn(area),
            transcript_area: places.transcript,
            composer_area: places.composer,
            content_area: places.content,
            queue_area: places.queue,
            ..self@
        }
    }

    fn arrange(&mut self, area: Rect) -> (places: Places)
        requires
            old(self).wf(),
            area.fits(),
        ensures
            final(self).wf(),
            places == old(self)@.places(area),
            places.composer.fits(),
            places.queue.fits(),
            places.transcript.fits(),
            *final(self) == (RootNode {
                composer: final(self).composer,
                transcript_area: places.transcript,
                composer_area: places.composer,
                composer_content_area: places.content,
                queue_area: places.queue,
                ..*old(self)
            }),
            final(self).composer == (Composer {
                layout: final(self).composer.layout,
                ..old(self).composer
            }),
    {
        let wanted: u16 = self.composer.desired_height(area.width);
        let height: u16 = smaller(wanted, area.height);
        let composer = Rect {
            x: area.x,
            y: area.y + area.height - height,
            width: area.width,
            height,
        };
        let queue_height: u16 = smaller(self.queue.desired_height(), area.height - height);
        let queue_width: u16 = times(area.width, 95) / 100;
        let queue = Rect {
            x: area.x + (area.width - queue_width) / 2,
            y: composer.y - queue_height,
            width: queue_width,
            height: queue_height,
        };
        let transcript = Rect {
            x: area.x,
            y: area.y,
            width: area.width,
            height: area.height - height - queue_height,
        };
        let content = if composer.width >= 2 && composer.height >= 3 {
            Rect {
                x: composer.x + 1,
                y: composer.y + 1,
                width: composer.width - 2,
                height: composer.height - 2,
            }
        } else {
            composer
        };
        self.composer_area = composer;
        self.queue_area = queue;
        self.transcript_area = transcript;
        self.composer_content_area = content;
        Places { composer, queue, transcript, content }
    }

    fn render_overlay(&mut self, area: Rect, unix_ms: u64, paints: &mut Vec<Paint>)
        requires
            old(self).wf(),
            area.fits(),
        ensures
            final(self).wf(),
            final(self)@ == (Root { subagents: old(self)@.subagents_drawn(area), ..old(self)@ }),
            strokes(final(paints)@) == strokes(old(paints)@) + old(self)@.cover_picture(
                area,
                unix_ms as int,
            ),
    {
        let ghost start = strokes(paints@);
        let mut inspected: Option<u64> = None;
        let mut tree: bool = false;
        match &self.overlay {
            None => {
                assert(start =~= start + self@.cover_picture(area, unix_ms as int));
            },
            Some(Overlay::Actions(menu)) => paint_all(paints, menu.render(area)),
            Some(Overlay::Effort(selector)) => selector.render(area, paints),
            Some(Overlay::Theme(selector)) => selector.render(area, paints),
            Some(Overlay::FileFinder(mention)) => paint_all(paints, mention.finder.render(area)),
            Some(Overlay::Keybindings(help)) => paint_all(paints, help.render(area)),
            Some(Overlay::Sessions(picker)) => paint_all(paints, picker.render(area, unix_ms)),
            Some(Overlay::Subagents(SubagentOverlay::Tree)) => {
                tree = true;
            },
            Some(Overlay::Subagents(SubagentOverlay::Transcript(id))) => {
                inspected = Some(*id);
            },
        }
        if tree {
            let count: usize = self.subagents.nodes.len();
            assert(self@.subagents.nodes.len() == count);
            self.subagents.render_tree(area, paints);
        }
        match inspected {
            Some(id) => self.subagents.render_transcript(id, area, paints),
            None => {},
        }
    }

    /// Draws the session, but for the selection and the notification. `unix_ms` is the time in
    /// milliseconds since 1970.
    pub fn render_root(&mut self, area: Rect, model: &str, focused: bool, unix_ms: u64) -> (paints:
        Vec<Paint>)
        requires
            old(self).wf(),
            area.fits(),
        ensures
            final(self).wf(),
            final(self)@ == old(self).drawn(area, model@),
            strokes(paints@) == old(self).picture(area, model@, focused, unix_ms as int),
    {
        let ghost before = *self;
        let places = self.arrange(area);
        let mut paints: Vec<Paint> = Vec::new();
        assert(strokes(paints@) =~= Seq::<Stroke>::empty());
        self.transcript.render(places.transcript, &mut paints);
        self.queue.render(places.queue, &mut paints);
        let shown: bool = focused && !self.transcript.tools_focused() && !self.queue.focused();
        let ghost composer = self.composer;
        let drawn = self.composer.render_focused(places.composer, model, shown);
        assert(composer.picture(places.composer, model@, shown) == before.composer.picture(
            places.composer,
            model@,
            shown,
        ));
        paint_all(&mut paints, drawn);
        self.render_overlay(area, unix_ms, &mut paints);
        assert(strokes(paints@) =~= before.picture(area, model@, focused, unix_ms as int));
        paints
    }

    /// Remembers the cells of the selection's area, given row by row, and returns the rows to
    /// highlight.
    pub fn capture_selection(&mut self, area: Rect, cells: &Vec<Vec<String>>) -> (rows: Vec<
        SelectedRow,
    >)
        requires
            old(self).wf(),
        ensures
            final(self).wf(),
            final(self)@ == (Root {
                selection: Selection {
                    snapshot: final(self)@.selection.snapshot,
                    ..old(self)@.selection
                },
                ..old(self)@
            }),
            old(self)@.selection.start() is None ==> final(self)@ == old(self)@,
            old(self)@.selection.start() is Some ==> (final(self)@.selection.snapshot matches Some(
                snapshot,
            ) && snapshot.area == area && row_texts(snapshot.rows@) == captured_rows(cells@)),
            rows@ == (match old(self)@.selection.range {
                Some(range) => range.rows(area),
                None => Seq::empty(),
            }),
    {
        self.selection.capture_and_render(area, cells)
    }
}

/// The columns of the first `n` words of a line.
pub open spec fn columns_of(line: Seq<Word>, n: int) -> int
    decreases n,
{
    if n <= 0 {
        0
    } else {
        least(
            columns_of(line, n - 1) + display_width(line[n - 1].text),
            usize::MAX as int,
        )
    }
}

/// The columns of a line.
pub fn line_columns(line: &Vec<Words>) -> (columns: usize)
    ensures
        columns == columns_of(words(line@), line@.len() as int),
{
    let mut total: usize = 0;
    let mut i: usize = 0;
    while i < line.len()
        invariant
            i <= line@.len(),
            total == columns_of(words(line@), i as int),
        decreases line@.len() - i,
    {
        assert(words(line@)[i as int] == line@[i as int]@);
        total = total.saturating_add(width(line[i].text.as_str()));
        i = i + 1;
    }
    total
}

/// The popup of a notification: as wide as its message, at the top.
pub open spec fn notice_popup(message: Seq<Word>, color: Tone) -> Popup {
    Popup {
        title: Seq::empty(),
        width: least(columns_of(message, message.len() as int) + 4, u16::MAX as int),
        height: 3,
        footer: None,
        at_top: true,
        border: color,
        title_tone: color,
    }
}

/// What a notification draws.
pub open spec fn notice_picture(message: Seq<Word>, color: Tone, area: Rect) -> Seq<Stroke> {
    if area.empty() {
        Seq::empty()
    } else {
        let popup = notice_popup(message, color);
        popup.picture(area).push(Stroke::Wrapped { area: popup.body(area), message })
    }
}

/// Draws a notification.
pub fn render_notification(area: Rect, message: &Vec<Words>, color: Tone, paints: &mut Vec<Paint>)
    requires
        area.fits(),
    ensures
        strokes(final(paints)@) == strokes(old(paints)@) + notice_picture(
            words(message@),
            color,
            area,
        ),
{
    let ghost start = strokes(paints@);
    if area.is_empty() {
        assert(start =~= start + notice_picture(words(message@), color, area));
        return ;
    }
    let columns: u16 = to_cell(line_columns(message).saturating_add(4));
    let keys: Vec<&'static str> = Vec::new();
    let mut frame = Floating::new("", columns, 3, &keys);
    frame.at_top = true;
    frame.border = color;
    frame.title_tone = color;
    proof {
        reveal_strlit("");
        assert(frame@.title =~= Seq::<char>::empty());
        assert(frame@ == notice_popup(words(message@), color));
    }
    let body: Rect = frame.render(area, paints);
    paint(paints, Paint::Wrapped { area: body, message: copy_line(message) });
    assert(strokes(paints@) =~= start + notice_picture(words(message@), color, area));
}

impl RootNode {
    /// Draws the notification, if there is one.
    pub fn render_notice(&self, area: Rect, paints: &mut Vec<Paint>)
        requires
            area.fits(),
        ensures
            strokes(final(paints)@) == strokes(old(paints)@) + (match self@.notification {
                Some(notice) => notice_picture(notice.message, notice.color, area),
                None => Seq::empty(),
            }),
    {
        match &self.notification {
            Some(notice) => render_notification(area, &notice.message, notice.color, paints),
            None => {
                assert(strokes(paints@) =~= strokes(paints@) + Seq::<Stroke>::empty());
            },
        }
    }
}

/// The earlier of two times.
pub open spec fn earlier(a: Option<u64>, b: Option<u64>) -> Option<u64> {
    match (a, b) {
        (Some(x), Some(y)) => if x <= y {
            a
        } else {
            b
        },
        (Some(_), None) => a,
        (None, _) => b,
    }
}

/// The earlier of two times.
pub fn earlier_of(a: Option<u64>, b: Option<u64>) -> (time: Option<u64>)
    ensures
        time == earlier(a, b),
{
    match (a, b) {
        (Some(x), Some(y)) => if x <= y {
            a
        } else {
            b
        },
        (Some(_), None) => a,
        (None, _) => b,
    }
}

impl Root {
    /// When the session changes by itself. The effort selector counts while it is open.
    pub open spec fn deadline(self, frames: Frames) -> Option<u64> {
        let effort = if self.overlay matches Some(Cover::Effort(_)) {
            frames.effort
        } else {
            None
        };
        let notice = match self.notification {
            Some(notice) => Some(notice.deadline),
            None => None,
        };
        let shown = earlier(
            earlier(
                earlier(effort, self.transcript.deadline()),
                self.composer.deadline(frames.activity, frames.subagents),
            ),
            frames.queue,
        );
        earlier(
            earlier(earlier(shown, self.escape_deadline), notice),
            self.subagents.deadline(self.subagents.nodes.len() as int),
        )
    }
}

impl RootNode {
    /// When the session changes by itself. `frames` says when the animations that are timed outside
    /// of it show their next frames.
    pub fn animation_deadline(&self, frames: Frames) -> (time: Option<u64>)
        ensures
            time == self@.deadline(frames),
    {
        let effort: Option<u64> = match &self.overlay {
            Some(Overlay::Effort(_)) => frames.effort,
            _ => None,
        };
        let notice: Option<u64> = match &self.notification {
            Some(notice) => Some(notice.deadline),
            None => None,
        };
        let first = earlier_of(effort, self.transcript.animation_deadline());
        let waves = self.composer.animation_deadline(frames.activity, frames.subagents);
        let shown = earlier_of(earlier_of(first, waves), frames.queue);
        let own = earlier_of(earlier_of(shown, self.escape_deadline), notice);
        earlier_of(own, self.subagents.animation_deadline())
    }
}

} // verus!
