//! What the program draws.

use crate::draw::{dim_colored, colored, paint, strokes, Look, Paint, Stroke, Tone};
use crate::geometry::{larger, least, minus, most, to_cell, Rect};
use crate::panes::{
    App, AppNode, Fork, ForkPane, MIN_SPLIT_HINT_WIDTH, SPLIT_HINT,
};
use crate::root::{Frames, Root, RootNode};
use crate::root_view::{earlier, earlier_of};
use crate::settings::PaneId;
use crate::text::{display_width, width};
use vstd::prelude::*;

verus! {

/// Where the panes stand: the whole of each, and the part that its session draws in.
#[derive(Clone, Copy, Debug, PartialEq, Eq, Structural)]
pub struct Split {
    pub main: Rect,
    pub fork: Rect,
    pub main_content: Rect,
    pub fork_content: Rect,
    pub divider: u16,
}

/// The hint fits over the panes.
pub open spec fn hint_fits(area: Rect) -> bool {
    area.width >= MIN_SPLIT_HINT_WIDTH && area.height >= 2 && display_width(SPLIT_HINT@)
        <= area.width
}

/// Two panes side by side: the divider stands in the middle, and the hint takes the first row.
pub open spec fn split(area: Rect) -> Split {
    let divider = area.x + minus(area.width as int, 1) / 2;
    let hint: int = if hint_fits(area) {
        1
    } else {
        0
    };
    let main = Rect { width: (divider - area.x) as u16, ..area };
    let fork = Rect {
        x: (divider + 1) as u16,
        width: (area.x + area.width - divider - 1) as u16,
        ..area
    };
    Split {
        main,
        fork,
        main_content: Rect {
            y: (area.y + hint) as u16,
            height: (area.height - hint) as u16,
            ..main
        },
        fork_content: Rect {
            y: (area.y + hint) as u16,
            height: (area.height - hint) as u16,
            ..fork
        },
        divider: divider as u16,
    }
}

/// The first `n` rows of the divider.
pub open spec fn divider_strokes(area: Rect, x: int, n: int) -> Seq<Stroke>
    decreases n,
{
    if n <= 0 {
        Seq::empty()
    } else {
        divider_strokes(area, x, n - 1).push(
            Stroke::Symbol { x, y: area.y + n - 1, symbol: '│', look: colored(Tone::Border) },
        )
    }
}

/// The hint in the middle of the first row.
pub open spec fn hint_strokes(area: Rect, divider: int) -> Seq<Stroke> {
    if hint_fits(area) {
        let columns = least(display_width(SPLIT_HINT@) as int, u16::MAX as int);
        seq![
            Stroke::Text {
                x: most(minus(divider, columns / 2), area.x as int),
                y: area.y as int,
                text: SPLIT_HINT@,
                limit: usize::MAX as int,
                look: dim_colored(Tone::Muted),
            },
        ]
    } else {
        Seq::empty()
    }
}

/// What a frame draws: the primary session, its fork, and what stands between them.
#[derive(Debug)]
pub struct AppFrame {
    pub main: Vec<Paint>,
    pub fork: Vec<Paint>,
    pub frame: Vec<Paint>,
}

/// Where the sessions draw.
#[derive(Clone, Copy, Debug, PartialEq, Eq, Structural)]
pub enum Arrangement {
    Nothing,
    One(Rect),
    Two(Split),
}

impl App {
    pub open spec fn arrangement(self, area: Rect) -> Arrangement {
        if area.empty() {
            Arrangement::Nothing
        } else if self.fork is None {
            Arrangement::One(area)
        } else {
            Arrangement::Two(split(area))
        }
    }

    /// The program with the areas of its panes.
    pub open spec fn arranged(self, area: Rect) -> App {
        let nowhere = Rect { x: 0, y: 0, width: 0, height: 0 };
        match self.arrangement(area) {
            Arrangement::Nothing => App { main_area: nowhere, fork_area: nowhere, ..self },
            Arrangement::One(whole) => App { main_area: whole, fork_area: nowhere, ..self },
            Arrangement::Two(split) => App {
                main_area: split.main,
                fork_area: split.fork,
                ..self
            },
        }
    }
}

impl Arrangement {
    pub open spec fn main_place(self) -> Option<Rect> {
        match self {
            Arrangement::Nothing => None,
            Arrangement::One(area) => Some(area),
            Arrangement::Two(split) => Some(split.main_content),
        }
    }

    pub open spec fn fork_place(self) -> Option<Rect> {
        match self {
            Arrangement::Two(split) => Some(split.fork_content),
            _ => None,
        }
    }
}

/// A session after it drew in a place.
pub open spec fn root_drawn(root: RootNode, place: Option<Rect>, model: Seq<char>) -> Root {
    match place {
        Some(area) => root.drawn(area, model),
        None => root@,
    }
}

/// What a session draws in a place.
pub open spec fn root_strokes(
    root: Option<RootNode>,
    place: Option<Rect>,
    model: Seq<char>,
    focused: bool,
    unix_ms: int,
) -> Seq<Stroke> {
    match (root, place) {
        (Some(root), Some(area)) => root.picture(area, model, focused, unix_ms),
        _ => Seq::empty(),
    }
}

/// Whether the hint fits over the panes.
pub fn split_hint_visible(area: Rect) -> (yes: bool)
    ensures
        yes == hint_fits(area),
{
    area.width >= MIN_SPLIT_HINT_WIDTH && area.height >= 2 && width(SPLIT_HINT)
        <= area.width as usize
}

/// Divides an area into two panes.
pub fn split_area(area: Rect) -> (parts: Split)
    requires
        area.fits(),
        !area.empty(),
    ensures
        parts == split(area),
        parts.main_content.fits(),
        parts.fork_content.fits(),
{
    let divider: u16 = area.x + (area.width - 1) / 2;
    let hint: u16 = if split_hint_visible(area) {
        1
    } else {
        0
    };
    let main = Rect { x: area.x, y: area.y, width: divider - area.x, height: area.height };
    let fork = Rect {
        x: divider + 1,
        y: area.y,
        width: area.width - (divider - area.x) - 1,
        height: area.height,
    };
    Split {
        main,
        fork,
        main_content: Rect {
            x: main.x,
            y: main.y + hint,
            width: main.width,
            height: main.height - hint,
        },
        fork_content: Rect {
            x: fork.x,
            y: fork.y + hint,
            width: fork.width,
            height: fork.height - hint,
        },
        divider,
    }
}

/// Draws what stands between two panes.
pub fn render_split(area: Rect, divider: u16, paints: &mut Vec<Paint>)
    requires
        area.fits(),
    ensures
        strokes(final(paints)@) == strokes(old(paints)@) + divider_strokes(
            area,
            divider as int,
            area.height as int,
        ) + hint_strokes(area, divider as int),
{
    let ghost start = strokes(paints@);
    let mut row: u16 = 0;
    assert(start =~= start + divider_strokes(area, divider as int, 0));
    while row < area.height
        invariant
            area.fits(),
            row <= area.height,
            strokes(paints@) == start + divider_strokes(area, divider as int, row as int),
        decreases area.height - row,
    {
        paint(
            paints,
            Paint::Symbol {
                x: divider,
                y: area.y + row,
                symbol: '│',
                look: Look::plain(Tone::Border),
            },
        );
        row = row + 1;
        assert(strokes(paints@) =~= start + divider_strokes(area, divider as int, row as int));
    }
    let ghost middle = strokes(paints@);
    if split_hint_visible(area) {
        let columns: u16 = to_cell(width(SPLIT_HINT));
        let x: u16 = larger(divider.saturating_sub(columns / 2), area.x);
        paint(
            paints,
            Paint::Text {
                x,
                y: area.y,
                text: SPLIT_HINT.to_owned(),
                limit: usize::MAX,
                look: Look::dim(Tone::Muted),
            },
        );
    }
    assert(strokes(paints@) =~= middle + hint_strokes(area, divider as int));
}

impl AppNode {
    /// What stands between the panes.
    pub open spec fn frame_strokes(self, area: Rect) -> Seq<Stroke> {
        match self@.arrangement(area) {
            Arrangement::Two(split) => divider_strokes(
                area,
                split.divider as int,
                area.height as int,
            ) + hint_strokes(area, split.divider as int),
            _ => Seq::empty(),
        }
    }

    pub open spec fn fork_root(self) -> Option<RootNode> {
        match self.fork {
            Some(fork) => Some(fork.root),
            None => None,
        }
    }

    /// The program after a frame.
    pub open spec fn drawn(self, area: Rect, model: Seq<char>) -> App {
        let arrangement = self@.arrangement(area);
        App {
            main: match self.main {
                Some(root) => Some(root_drawn(root, arrangement.main_place(), model)),
                None => None,
            },
            fork: match self.fork {
                Some(fork) => Some(
                    Fork {
                        id: fork.id,
                        root: root_drawn(fork.root, arrangement.fork_place(), model),
                    },
                ),
                None => None,
            },
            ..self@.arranged(area)
        }
    }

    fn arrange(&mut self, area: Rect) -> (arrangement: Arrangement)
        requires
            old(self).wf(),
            area.fits(),
        ensures
            arrangement == old(self)@.arrangement(area),
            final(self)@ == old(self)@.arranged(area),
            final(self).main == old(self).main,
            final(self).fork == old(self).fork,
            final(self).focus == old(self).focus,
            arrangement.main_place() matches Some(place) ==> place.fits(),
            arrangement.fork_place() matches Some(place) ==> place.fits(),
    {
        if area.is_empty() {
            self.main_area = Rect::none();
            self.fork_area = Rect::none();
            return Arrangement::Nothing;
        }
        if self.fork.is_none() {
            self.main_area = area;
            self.fork_area = Rect::none();
            return Arrangement::One(area);
        }
        let parts = split_area(area);
        self.main_area = parts.main;
        self.fork_area = parts.fork;
        Arrangement::Two(parts)
    }

    /// Draws the program, but for selections and notifications. `unix_ms` is the time in
    /// milliseconds since 1970.
    pub fn render(&mut self, area: Rect, model: &str, unix_ms: u64) -> (frame: AppFrame)
        requires
            old(self).wf(),
            area.fits(),
        ensures
            final(self).wf(),
            final(self)@ == old(self).drawn(area, model@),
            strokes(frame.main@) == root_strokes(
                old(self).main,
                old(self)@.arrangement(area).main_place(),
                model@,
                old(self)@.focus == PaneId::Main,
                unix_ms as int,
            ),
            strokes(frame.fork@) == root_strokes(
                old(self).fork_root(),
                old(self)@.arrangement(area).fork_place(),
                model@,
                old(self).fork matches Some(fork) && old(self)@.focus == PaneId::Fork(fork.id),
                unix_ms as int,
            ),
            strokes(frame.frame@) == old(self).frame_strokes(area),
    {
        let arrangement = self.arrange(area);
        let mut main_paints: Vec<Paint> = Vec::new();
        let mut fork_paints: Vec<Paint> = Vec::new();
        let mut frame: Vec<Paint> = Vec::new();
        assert(strokes(main_paints@) =~= Seq::<Stroke>::empty());
        assert(strokes(fork_paints@) =~= Seq::<Stroke>::empty());
        assert(strokes(frame@) =~= Seq::<Stroke>::empty());
        let (main_place, fork_place): (Option<Rect>, Option<Rect>) = match arrangement {
            Arrangement::Nothing => (None, None),
            Arrangement::One(whole) => (Some(whole), None),
            Arrangement::Two(split) => (Some(split.main_content), Some(split.fork_content)),
        };
        let main_focused: bool = self.focus == PaneId::Main;
        match self.main.take() {
            Some(root) => {
                let mut root = root;
                match main_place {
                    Some(place) => {
                        main_paints = root.render_root(place, model, main_focused, unix_ms);
                    },
                    None => {},
                }
                self.main = Some(root);
            },
            None => {},
        }
        match self.fork.take() {
            Some(fork) => {
                let mut root = fork.root;
                let id: u64 = fork.id;
                match fork_place {
                    Some(place) => {
                        let focused: bool = self.focus == PaneId::Fork(id);
                        fork_paints = root.render_root(place, model, focused, unix_ms);
                    },
                    None => {},
                }
                self.fork = Some(ForkPane { id, root });
            },
            None => {},
        }
        match arrangement {
            Arrangement::Two(parts) => render_split(area, parts.divider, &mut frame),
            _ => {},
        }
        assert(strokes(frame@) =~= old(self).frame_strokes(area));
        AppFrame { main: main_paints, fork: fork_paints, frame }
    }

    /// When the program changes by itself. `main` and `fork` say when the animations
    /// that are timed outside show their next frames.
    pub fn animation_deadline(&self, main: Frames, fork: Frames) -> (time: Option<u64>)
        ensures
            time == self@.deadline(main, fork),
    {
        let first: Option<u64> = match &self.main {
            Some(root) => root.animation_deadline(main),
            None => None,
        };
        let second: Option<u64> = match &self.fork {
            Some(pane) => pane.root.animation_deadline(fork),
            None => None,
        };
        earlier_of(first, second)
    }
}

impl App {
    /// When the program changes by itself.
    pub open spec fn deadline(self, main: Frames, fork: Frames) -> Option<u64> {
        earlier(
            match self.main {
                Some(root) => root.deadline(main),
                None => None,
            },
            match self.fork {
                Some(pane) => pane.root.deadline(fork),
                None => None,
            },
        )
    }
}

} // verus!
