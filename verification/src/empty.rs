//! The animation of an empty transcript.

use crate::draw::{bold_colored, paint, strokes, Look, Paint, Stroke, Tone};
use crate::geometry::{cell16, least, minus, most, to_cell, Rect};
use crate::settings::Model;
use crate::spinner::due;
use crate::text::{display_width, width};
use vstd::prelude::*;

verus! {

/// The milliseconds between two frames.
pub const FRAME_INTERVAL_MS: u64 = 120;

/// The number of frames.
pub const FRAME_COUNT: u64 = 120;

/// The animation: when it started, when its next frame is due, and the frame that is shown. Times
/// are in milliseconds.
#[derive(Clone, Copy, Debug, PartialEq, Eq, Structural)]
pub struct EmptyLogo {
    pub started_at: u64,
    pub next_frame: u64,
    pub frame: usize,
}

/// The frame that belongs to a time.
pub open spec fn frame_at(started_at: int, now: int) -> int {
    (minus(now, started_at) / FRAME_INTERVAL_MS as int) % FRAME_COUNT as int
}

impl EmptyLogo {
    /// The animation that starts now.
    pub fn new(now: u64) -> (logo: Self)
        ensures
            logo == (EmptyLogo {
                started_at: now,
                next_frame: due(now as int, FRAME_INTERVAL_MS as int),
                frame: 0,
            }),
    {
        EmptyLogo {
            started_at: now,
            next_frame: now.saturating_add(FRAME_INTERVAL_MS),
            frame: 0,
        }
    }

    /// When the next frame is due.
    pub fn deadline(&self) -> (time: u64)
        ensures
            time == self.next_frame,
    {
        self.next_frame
    }

    /// The animation at a time.
    pub open spec fn at(self, now: int) -> EmptyLogo {
        if now < self.next_frame {
            self
        } else {
            EmptyLogo {
                started_at: self.started_at,
                next_frame: due(now, FRAME_INTERVAL_MS as int),
                frame: frame_at(self.started_at as int, now) as usize,
            }
        }
    }

    /// Shows the frame that belongs to a time if the next one is due.
    pub fn advance(&mut self, now: u64) -> (changed: bool)
        ensures
            *final(self) == old(self).at(now as int),
            changed == (old(self).at(now as int).frame != old(self).frame),
    {
        if now < self.next_frame {
            return false;
        }
        let elapsed: u64 = now.saturating_sub(self.started_at);
        let frame: usize = ((elapsed / FRAME_INTERVAL_MS) % FRAME_COUNT) as usize;
        self.next_frame = now.saturating_add(FRAME_INTERVAL_MS);
        if frame == self.frame {
            return false;
        }
        self.frame = frame;
        true
    }

    /// What the animation draws over an area: the artwork, and the wordmark in its middle.
    pub open spec fn picture(self, area: Rect, model: Model) -> Seq<Stroke> {
        match canvas_of(area) {
            None => Seq::empty(),
            Some(canvas) => {
                let columns = cell16(display_width("𝒕𝒂𝒄𝒕"@) as int);
                let artwork = Stroke::Artwork { area: canvas, model, frame: self.frame as int };
                if columns > canvas.width {
                    seq![artwork]
                } else {
                    seq![
                        artwork,
                        Stroke::Text {
                            x: canvas.x + minus(canvas.width as int, columns) / 2,
                            y: canvas.y + canvas.height / 2,
                            text: "𝒕𝒂𝒄𝒕"@,
                            limit: columns,
                            look: bold_colored(Tone::Model(model)),
                        },
                    ]
                }
            },
        }
    }

    /// Draws the animation over an area.
    pub fn render(&self, area: Rect, model: Model, paints: &mut Vec<Paint>)
        requires
            area.fits(),
        ensures
            strokes(final(paints)@) == strokes(old(paints)@) + self.picture(area, model),
    {
        let ghost start = strokes(paints@);
        let body: Rect = match canvas(area) {
            Some(body) => body,
            None => {
                assert(strokes(paints@) =~= start + self.picture(area, model));
                return ;
            },
        };
        paint(paints, Paint::Artwork { area: body, model, frame: self.frame });
        let columns: u16 = to_cell(width("𝒕𝒂𝒄𝒕"));
        if columns <= body.width {
            paint(
                paints,
                Paint::Text {
                    x: body.x + (body.width - columns) / 2,
                    y: body.y + body.height / 2,
                    text: "𝒕𝒂𝒄𝒕".to_owned(),
                    limit: columns as usize,
                    look: Look::bold(Tone::Model(model)),
                },
            );
        }
        assert(strokes(paints@) =~= start + self.picture(area, model));
    }
}

/// The part of an area that the artwork is drawn in: at most 35 columns and 17 rows in the middle,
/// with a margin where there is room for one.
pub open spec fn canvas_of(area: Rect) -> Option<Rect> {
    if area.empty() {
        None
    } else {
        let margin_x = least(2, area.width - 1);
        let margin_y = least(1, area.height - 1);
        let columns = most(least(35, area.width - margin_x), 1);
        let rows = most(least(17, area.height - margin_y), 1);
        Some(
            Rect {
                x: (area.x + (area.width - columns) / 2) as u16,
                y: (area.y + (area.height - rows) / 2) as u16,
                width: columns as u16,
                height: rows as u16,
            },
        )
    }
}

/// The part of an area that the artwork is drawn in.
pub fn canvas(area: Rect) -> (body: Option<Rect>)
    requires
        area.fits(),
    ensures
        body == canvas_of(area),
        body matches Some(inside) ==> inside.fits() && !inside.empty() && area.x <= inside.x
            && inside.x + inside.width <= area.x + area.width && area.y <= inside.y && inside.y
            + inside.height <= area.y + area.height,
{
    if area.is_empty() {
        return None;
    }
    let margin_x: u16 = if area.width > 2 {
        2
    } else {
        area.width - 1
    };
    let margin_y: u16 = if area.height > 1 {
        1
    } else {
        0
    };
    let columns: u16 = if area.width - margin_x > 35 {
        35
    } else {
        area.width - margin_x
    };
    let rows: u16 = if area.height - margin_y > 17 {
        17
    } else {
        area.height - margin_y
    };
    Some(
        Rect {
            x: area.x + (area.width - columns) / 2,
            y: area.y + (area.height - rows) / 2,
            width: columns,
            height: rows,
        },
    )
}

} // verus!
