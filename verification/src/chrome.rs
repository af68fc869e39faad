//! What the composer draws: its border with the labels in it, the visible rows and the cursor.

use crate::composer::{context_percent, percent_of_window, CachedLayout, Composer};
use crate::draw::{bold_colored, colored, dim_colored, paint, strokes, Look, Paint, Stroke, Tone};
use crate::geometry::{
    cell16, least, minus, most, smaller, sum16, to_cell, Position, Rect,
};
use crate::layout::{is_row, rows, Row, VisualLayout, VisualLine};
use crate::numeral::{decimal, decimal_text};
use crate::prompt::{placed, tokens, PastedImage, Token};
use crate::settings::ReasoningEffort;
use crate::text::{
    between, byte_len, bytes_in, concat, display_width, is_offset, lemma_char_index, slice,
    starts_with, width,
};
use vstd::prelude::*;

verus! {

/// The least and the largest number of rows that the composer shows.
pub const MIN_CONTENT_ROWS: usize = 3;

pub const MAX_CONTENT_ROWS: usize = 6;

/// What the labels in the border depend on.
pub struct Labels {
    pub shell: bool,
    pub blank: bool,
    pub tokens: int,
    pub status: Option<Seq<char>>,
    pub subagents: int,
    pub model: Seq<char>,
    pub effort: ReasoningEffort,
    pub workspace: Seq<char>,
}

/// One stroke where a condition holds.
pub open spec fn when(condition: bool, stroke: Stroke) -> Seq<Stroke> {
    if condition {
        seq![stroke]
    } else {
        Seq::empty()
    }
}

/// The first `n` cells of the upper and of the lower border.
pub open spec fn edges(area: Rect, look: Look, n: int) -> Seq<Stroke>
    decreases n,
{
    if n <= 0 {
        Seq::empty()
    } else {
        edges(area, look, n - 1).push(
            Stroke::Symbol { x: area.x + n - 1, y: area.y as int, symbol: '─', look },
        ).push(
            Stroke::Symbol {
                x: area.x + n - 1,
                y: area.y + area.height - 1,
                symbol: '─',
                look,
            },
        )
    }
}

/// The border without labels.
pub open spec fn frame_strokes(area: Rect, look: Look) -> Seq<Stroke> {
    let right = area.x + area.width - 1;
    let bottom = area.y + area.height - 1;
    edges(area, look, area.width as int) + seq![
        Stroke::Symbol { x: area.x as int, y: area.y as int, symbol: '╭', look },
        Stroke::Symbol { x: right, y: area.y as int, symbol: '╮', look },
        Stroke::Symbol { x: area.x as int, y: bottom, symbol: '╰', look },
        Stroke::Symbol { x: right, y: bottom, symbol: '╯', look },
    ]
}

impl Labels {
    /// Yellow for shell commands.
    pub open spec fn border(self) -> Look {
        colored(
            if self.shell {
                Tone::Yellow
            } else {
                Tone::Border
            },
        )
    }

    pub open spec fn usage_prefix(self) -> Seq<char> {
        " "@ + decimal(percent_of_window(self.tokens)) + "%/272k "@
    }

    /// The context usage and, while the agent works, its status.
    pub open spec fn usage_with_status(self) -> Seq<char> {
        match self.status {
            Some(status) => self.usage_prefix() + status + " "@,
            None => self.usage_prefix(),
        }
    }

    pub open spec fn subagent_label(self) -> Seq<char> {
        decimal(self.subagents) + " subagents"@
    }

    /// All of the left label.
    pub open spec fn usage(self) -> Seq<char> {
        if self.subagents > 0 {
            self.usage_with_status() + self.subagent_label() + " "@
        } else {
            self.usage_with_status()
        }
    }

    pub open spec fn model_label(self) -> Seq<char> {
        " "@ + self.model + " "@
    }

    pub open spec fn effort_label(self) -> Seq<char> {
        " "@ + self.effort.name() + " "@
    }

    pub open spec fn directory_label(self) -> Seq<char> {
        " "@ + self.workspace + " "@
    }

    /// The columns of the labels on the right.
    pub open spec fn right_columns(self) -> int {
        display_width(self.model_label()) + display_width(self.effort_label()) + (if self.shell {
            display_width(" shell "@) as int
        } else {
            0
        })
    }

    /// The column at which the labels on the right begin.
    pub open spec fn right_start(self, area: Rect) -> int {
        area.x + 2 + minus(area.width - 4, self.right_columns())
    }

    pub open spec fn subagent_start(self, area: Rect) -> int {
        sum16(area.x + 2, cell16(display_width(self.usage_with_status()) as int))
    }

    pub open spec fn subagent_columns(self, area: Rect) -> int {
        least(
            cell16(display_width(self.subagent_label()) as int),
            minus(self.right_start(area), self.subagent_start(area)),
        )
    }

    pub open spec fn effort_start(self, area: Rect) -> int {
        sum16(self.right_start(area), cell16(display_width(self.model_label()) as int))
    }

    pub open spec fn shell_start(self, area: Rect) -> int {
        sum16(self.effort_start(area), cell16(display_width(self.effort_label()) as int))
    }

    pub open spec fn content_end(self, area: Rect) -> int {
        area.x + area.width - 2
    }

    /// The part of the border that opens the effort selector.
    pub open spec fn effort_area(self, area: Rect) -> Option<Rect> {
        let start = self.effort_start(area);
        let end = self.content_end(area);
        if area.width >= 4 && start < end {
            Some(
                Rect {
                    x: start as u16,
                    y: area.y,
                    width: least(
                        cell16(display_width(self.effort_label()) as int),
                        end - start,
                    ) as u16,
                    height: 1,
                },
            )
        } else {
            None
        }
    }

    /// The part of the border that opens the subagents.
    pub open spec fn subagent_area(self, area: Rect) -> Option<Rect> {
        if area.width >= 4 && self.subagents > 0 && self.subagent_columns(area) > 0 {
            Some(
                Rect {
                    x: self.subagent_start(area) as u16,
                    y: area.y,
                    width: self.subagent_columns(area) as u16,
                    height: 1,
                },
            )
        } else {
            None
        }
    }

    /// The labels on the left of the upper border: usage, and the animations over it.
    pub open spec fn left_strokes(self, area: Rect) -> Seq<Stroke> {
        let start = area.x + 2;
        let y = area.y as int;
        let end = self.right_start(area);
        seq![
            Stroke::Text {
                x: start,
                y,
                text: self.usage(),
                limit: minus(end - start, 1),
                look: colored(Tone::Muted),
            },
        ] + when(
            self.status is Some,
            Stroke::Wave {
                x: sum16(start, cell16(display_width(self.usage_prefix()) as int)),
                y,
                text: self.status->0,
                end,
                tone: Tone::Cyan,
            },
        ) + when(
            self.subagents > 0,
            Stroke::Wave {
                x: self.subagent_start(area),
                y,
                text: self.subagent_label(),
                end,
                tone: Tone::Yellow,
            },
        )
    }

    /// The labels on the right of the upper border: model, effort and shell mode.
    pub open spec fn right_strokes(self, area: Rect) -> Seq<Stroke> {
        let y = area.y as int;
        let end = self.content_end(area);
        seq![
            Stroke::Text {
                x: self.right_start(area),
                y,
                text: self.model_label(),
                limit: minus(end, self.right_start(area)),
                look: colored(Tone::Accent),
            },
        ] + when(
            self.effort_start(area) < end,
            Stroke::Text {
                x: self.effort_start(area),
                y,
                text: self.effort_label(),
                limit: end - self.effort_start(area),
                look: bold_colored(Tone::Effort(self.effort)),
            },
        ) + when(
            self.shell && self.shell_start(area) < end,
            Stroke::Text {
                x: self.shell_start(area),
                y,
                text: " shell "@,
                limit: end - self.shell_start(area),
                look: bold_colored(Tone::Yellow),
            },
        )
    }

    /// The lower border: a hint for an empty draft where there is room, and the directory.
    pub open spec fn bottom_strokes(self, area: Rect) -> Seq<Stroke> {
        let start = area.x + 2;
        let y = area.y + area.height - 1;
        let columns = least(display_width(self.directory_label()) as int, area.width - 4);
        let directory = self.content_end(area) - columns;
        let hint = " / actions · @ files "@;
        when(
            self.blank && display_width(hint) <= directory - start,
            Stroke::Text {
                x: start,
                y,
                text: hint,
                limit: directory - start,
                look: dim_colored(Tone::Muted),
            },
        ).push(
            Stroke::Text {
                x: directory,
                y,
                text: self.directory_label(),
                limit: columns,
                look: colored(Tone::Muted),
            },
        )
    }

    /// The border with its labels; a border of less than four columns has none.
    pub open spec fn chrome(self, area: Rect) -> Seq<Stroke> {
        if area.width < 4 {
            frame_strokes(area, self.border())
        } else {
            frame_strokes(area, self.border()) + self.left_strokes(area) + self.right_strokes(area)
                + self.bottom_strokes(area)
        }
    }
}

/// The image tokens among the first `n` that a row shows, in blue over the row's text.
pub open spec fn token_strokes(
    text: Seq<char>,
    images: Seq<Token>,
    n: int,
    row: Row,
    x: int,
    y: int,
    columns: int,
) -> Seq<Stroke>
    decreases n,
{
    if n <= 0 {
        Seq::empty()
    } else {
        let rest = token_strokes(text, images, n - 1, row, x, y, columns);
        let start = most(images[n - 1].start, row.start);
        let end = least(images[n - 1].end, row.end);
        if start >= end {
            rest
        } else {
            let offset = display_width(between(text, row.start, start)) as int;
            rest.push(
                Stroke::Text {
                    x: sum16(x, cell16(offset)),
                    y,
                    text: between(text, start, end),
                    limit: minus(columns, offset),
                    look: colored(Tone::Blue),
                },
            )
        }
    }
}

/// A row of the draft at a cell.
pub open spec fn line_strokes(
    text: Seq<char>,
    images: Seq<Token>,
    row: Row,
    x: int,
    y: int,
    columns: int,
) -> Seq<Stroke> {
    seq![
        Stroke::Text {
            x,
            y,
            text: between(text, row.start, row.end),
            limit: columns,
            look: colored(Tone::Text),
        },
    ] + token_strokes(text, images, images.len() as int, row, x, y, columns)
}

/// The first `n` content rows, between the sides of the border.
pub open spec fn content_strokes(
    text: Seq<char>,
    images: Seq<Token>,
    list: Seq<Row>,
    scroll: int,
    area: Rect,
    look: Look,
    n: int,
) -> Seq<Stroke>
    decreases n,
{
    if n <= 0 {
        Seq::empty()
    } else {
        let y = area.y + n;
        let sides = content_strokes(text, images, list, scroll, area, look, n - 1).push(
            Stroke::Symbol { x: area.x as int, y, symbol: '│', look },
        ).push(Stroke::Symbol { x: area.x + area.width - 1, y, symbol: '│', look });
        if scroll + n - 1 < list.len() {
            sides + line_strokes(
                text,
                images,
                list[scroll + n - 1],
                area.x + 1,
                y,
                most(area.width - 2, 1),
            )
        } else {
            sides
        }
    }
}

/// The scroll position that shows the cursor's row and no more blank rows than needed.
pub open spec fn scrolled(scroll: int, cursor_row: int, visible: int, lines: int) -> int {
    if visible == 0 {
        0
    } else {
        least(
            if cursor_row < scroll {
                cursor_row
            } else if cursor_row >= scroll + visible {
                cursor_row + 1 - visible
            } else {
                scroll
            },
            minus(lines, visible),
        )
    }
}

/// The cursor's row is among the rows that are shown.
pub proof fn law_cursor_row_is_visible(scroll: int, cursor_row: int, visible: int, lines: int)
    requires
        0 <= scroll,
        0 <= cursor_row < lines,
        0 < visible,
    ensures
        scrolled(scroll, cursor_row, visible, lines) <= cursor_row,
        cursor_row < scrolled(scroll, cursor_row, visible, lines) + visible,
{
}

/// Text between two blanks.
fn padded(text: &str) -> (label: String)
    ensures
        label@ == " "@ + text@ + " "@,
{
    let mut label: String = concat(" ", text);
    label.push_str(" ");
    label
}

/// Draws the border without labels.
fn draw_frame(area: Rect, look: Look, paints: &mut Vec<Paint>)
    requires
        area.fits(),
        area.width >= 1,
        area.height >= 1,
    ensures
        strokes(final(paints)@) == strokes(old(paints)@) + frame_strokes(area, look),
{
    let ghost start = strokes(paints@);
    let right: u16 = area.x + area.width - 1;
    let bottom: u16 = area.y + area.height - 1;
    let mut n: u16 = 0;
    assert(start + edges(area, look, 0) =~= start);
    while n < area.width
        invariant
            area.fits(),
            area.height >= 1,
            bottom == area.y + area.height - 1,
            n <= area.width,
            strokes(paints@) == start + edges(area, look, n as int),
        decreases area.width - n,
    {
        let ghost sofar = strokes(paints@);
        let x: u16 = area.x + n;
        paint(paints, Paint::Symbol { x, y: area.y, symbol: '─', look });
        paint(paints, Paint::Symbol { x, y: bottom, symbol: '─', look });
        n = n + 1;
        assert(strokes(paints@) =~= start + edges(area, look, n as int));
    }
    paint(paints, Paint::Symbol { x: area.x, y: area.y, symbol: '╭', look });
    paint(paints, Paint::Symbol { x: right, y: area.y, symbol: '╮', look });
    paint(paints, Paint::Symbol { x: area.x, y: bottom, symbol: '╰', look });
    paint(paints, Paint::Symbol { x: right, y: bottom, symbol: '╯', look });
    assert(strokes(paints@) =~= start + frame_strokes(area, look));
}

impl Composer {
    /// What the labels depend on.
    pub open spec fn labels(self, model: Seq<char>) -> Labels {
        Labels {
            shell: self@.edit.text.len() > 0 && self@.edit.text[0] == '!',
            blank: self@.edit.text.len() == 0,
            tokens: self@.tokens,
            status: self@.status,
            subagents: self@.subagents,
            model,
            effort: self@.effort,
            workspace: self.workspace@,
        }
    }

    /// The look of the border.
    pub fn border_style(&self) -> (look: Look)
        ensures
            look == self.labels(Seq::empty()).border(),
            forall|model: Seq<char>| #[trigger] self.labels(model).border() == look,
    {
        Look::plain(
            if starts_with(self.edit.text.as_str(), '!') {
                Tone::Yellow
            } else {
                Tone::Border
            },
        )
    }

    /// Draws the border with its labels and remembers the parts that answer to a click.
    pub fn render_chrome(&mut self, area: Rect, model: &str, paints: &mut Vec<Paint>)
        requires
            area.fits(),
            area.width >= 2,
            area.height >= 3,
        ensures
            strokes(final(paints)@) == strokes(old(paints)@) + old(self).labels(model@).chrome(area),
            *final(self) == (Composer {
                effort_hit_area: old(self).labels(model@).effort_area(area),
                subagent_hit_area: old(self).labels(model@).subagent_area(area),
                ..*old(self)
            }),
    {
        let ghost labels = self.labels(model@);
        let ghost start = strokes(paints@);
        self.effort_hit_area = None;
        self.subagent_hit_area = None;
        let look: Look = self.border_style();
        assert(look == labels.border());
        draw_frame(area, look, paints);
        if area.width < 4 {
            assert(strokes(paints@) == start + labels.chrome(area));
            return ;
        }
        let ghost framed = strokes(paints@);
        let right_start: u16 = self.right_start(area, model);
        self.subagent_hit_area = self.draw_left(area, model, right_start, paints);
        let ghost left = strokes(paints@);
        self.effort_hit_area = self.draw_right(area, model, right_start, paints);
        let ghost right = strokes(paints@);
        self.draw_bottom(area, model, paints);
        assert(strokes(paints@) =~= start + labels.chrome(area));
    }

    /// The column at which the labels on the right begin.
    fn right_start(&self, area: Rect, model: &str) -> (x: u16)
        requires
            area.fits(),
            area.width >= 4,
        ensures
            x == self.labels(model@).right_start(area),
            area.x + 2 <= x <= area.x + area.width - 2,
    {
        let ghost labels = self.labels(model@);
        let content_width: usize = (area.width - 4) as usize;
        let mut room: usize = content_width.saturating_sub(width(padded(model).as_str()));
        room = room.saturating_sub(width(padded(self.thinking.as_str()).as_str()));
        if starts_with(self.edit.text.as_str(), '!') {
            room = room.saturating_sub(width(" shell "));
        }
        assert(room == minus(area.width - 4, labels.right_columns()));
        area.x + 2 + room as u16
    }

    /// Draws the labels on the left; returns the part that opens the subagents.
    fn draw_left(&self, area: Rect, model: &str, right_start: u16, paints: &mut Vec<Paint>) -> (hit:
        Option<Rect>)
        requires
            area.fits(),
            area.width >= 4,
            area.height >= 3,
            right_start == self.labels(model@).right_start(area),
            area.x + 2 <= right_start,
        ensures
            strokes(final(paints)@) == strokes(old(paints)@) + self.labels(model@).left_strokes(
                area,
            ),
            hit == self.labels(model@).subagent_area(area),
    {
        let ghost labels = self.labels(model@);
        let ghost start = strokes(paints@);
        let top: u16 = area.y;
        let content_start: u16 = area.x + 2;
        let mut usage_prefix: String = concat(
            " ",
            decimal_text(context_percent(self.context_tokens)).as_str(),
        );
        usage_prefix.push_str("%/272k ");
        assert(usage_prefix@ =~= labels.usage_prefix());
        let usage_before_subagents: String = match &self.activity_status {
            Some(status) => {
                let mut text: String = concat(usage_prefix.as_str(), status.as_str());
                text.push_str(" ");
                text
            },
            None => usage_prefix.clone(),
        };
        assert(usage_before_subagents@ =~= labels.usage_with_status());
        let subagent_label: String = concat(
            decimal_text(self.active_subagents as u64).as_str(),
            " subagents",
        );
        assert(subagent_label@ =~= labels.subagent_label());
        let mut usage: String = usage_before_subagents.clone();
        if self.active_subagents > 0 {
            usage.push_str(subagent_label.as_str());
            usage.push_str(" ");
        }
        assert(usage@ =~= labels.usage());
        let space: usize = (right_start - content_start) as usize;
        paint(
            paints,
            Paint::Text {
                x: content_start,
                y: top,
                text: usage,
                limit: space.saturating_sub(1),
                look: Look::plain(Tone::Muted),
            },
        );
        let prefix_columns: u16 = to_cell(width(usage_prefix.as_str()));
        match &self.activity_status {
            Some(status) => {
                paint(
                    paints,
                    Paint::Wave {
                        x: content_start.saturating_add(prefix_columns),
                        y: top,
                        text: status.clone(),
                        end: right_start,
                        tone: Tone::Cyan,
                    },
                );
            },
            None => {},
        }
        let mut hit: Option<Rect> = None;
        if self.active_subagents > 0 {
            let wave_x: u16 = content_start.saturating_add(
                to_cell(width(usage_before_subagents.as_str())),
            );
            let wave_width: u16 = smaller(
                to_cell(width(subagent_label.as_str())),
                right_start.saturating_sub(wave_x),
            );
            if wave_width > 0 {
                hit = Some(Rect { x: wave_x, y: top, width: wave_width, height: 1 });
            }
            paint(
                paints,
                Paint::Wave {
                    x: wave_x,
                    y: top,
                    text: subagent_label,
                    end: right_start,
                    tone: Tone::Yellow,
                },
            );
        }
        assert(strokes(paints@) =~= start + labels.left_strokes(area));
        hit
    }

    /// Draws the labels on the right; returns the part that opens the effort selector.
    fn draw_right(
        &self,
        area: Rect,
        model: &str,
        right_start: u16,
        paints: &mut Vec<Paint>,
    ) -> (hit: Option<Rect>)
        requires
            area.fits(),
            area.width >= 4,
            area.height >= 3,
            right_start == self.labels(model@).right_start(area),
        ensures
            strokes(final(paints)@) == strokes(old(paints)@) + self.labels(model@).right_strokes(
                area,
            ),
            hit == self.labels(model@).effort_area(area),
    {
        let ghost labels = self.labels(model@);
        let ghost start = strokes(paints@);
        let top: u16 = area.y;
        let content_end: u16 = area.x + (area.width - 2);
        let model_label: String = padded(model);
        let effort_label: String = padded(self.thinking.as_str());
        let effort_start: u16 = right_start.saturating_add(to_cell(width(model_label.as_str())));
        paint(
            paints,
            Paint::Text {
                x: right_start,
                y: top,
                text: model_label,
                limit: content_end.saturating_sub(right_start) as usize,
                look: Look::plain(Tone::Accent),
            },
        );
        let effort_columns: u16 = to_cell(width(effort_label.as_str()));
        let mut hit: Option<Rect> = None;
        if effort_start < content_end {
            hit = Some(
                Rect {
                    x: effort_start,
                    y: top,
                    width: smaller(effort_columns, content_end - effort_start),
                    height: 1,
                },
            );
            paint(
                paints,
                Paint::Text {
                    x: effort_start,
                    y: top,
                    text: effort_label,
                    limit: (content_end - effort_start) as usize,
                    look: Look::bold(Tone::Effort(self.thinking)),
                },
            );
        }
        if starts_with(self.edit.text.as_str(), '!') {
            let shell_start: u16 = effort_start.saturating_add(effort_columns);
            if shell_start < content_end {
                paint(
                    paints,
                    Paint::Text {
                        x: shell_start,
                        y: top,
                        text: " shell ".to_owned(),
                        limit: (content_end - shell_start) as usize,
                        look: Look::bold(Tone::Yellow),
                    },
                );
            }
        }
        assert(strokes(paints@) =~= start + labels.right_strokes(area));
        hit
    }

    /// Draws the labels of the lower border.
    fn draw_bottom(&self, area: Rect, model: &str, paints: &mut Vec<Paint>)
        requires
            area.fits(),
            area.width >= 4,
            area.height >= 3,
        ensures
            strokes(final(paints)@) == strokes(old(paints)@) + self.labels(model@).bottom_strokes(
                area,
            ),
    {
        let ghost labels = self.labels(model@);
        let ghost start = strokes(paints@);
        let bottom: u16 = area.y + area.height - 1;
        let content_start: u16 = area.x + 2;
        let content_width: usize = (area.width - 4) as usize;
        let content_end: u16 = area.x + (area.width - 2);
        let directory: String = padded(self.workspace.as_str());
        let mut directory_width: usize = width(directory.as_str());
        if directory_width > content_width {
            directory_width = content_width;
        }
        let directory_start: u16 = content_end - directory_width as u16;
        let hint_space: usize = (directory_start - content_start) as usize;
        if self.edit.text.as_str().is_empty() && width(" / actions · @ files ") <= hint_space {
            paint(
                paints,
                Paint::Text {
                    x: content_start,
                    y: bottom,
                    text: " / actions · @ files ".to_owned(),
                    limit: hint_space,
                    look: Look::dim(Tone::Muted),
                },
            );
        }
        paint(
            paints,
            Paint::Text {
                x: directory_start,
                y: bottom,
                text: directory,
                limit: directory_width,
                look: Look::plain(Tone::Muted),
            },
        );
        assert(strokes(paints@) =~= start + labels.bottom_strokes(area));
    }

    /// The part of the border that a click meets.
    pub fn chrome_target(&self, position: Position) -> (target: Option<
        crate::composer::ComposerChromeTarget,
    >)
        ensures
            target == self.target_at(position),
    {
        match self.subagent_hit_area {
            Some(area) => {
                if area.contains(position) {
                    return Some(crate::composer::ComposerChromeTarget::Subagents);
                }
            },
            None => {},
        }
        match self.effort_hit_area {
            Some(area) => {
                if area.contains(position) {
                    return Some(crate::composer::ComposerChromeTarget::Effort);
                }
            },
            None => {},
        }
        None
    }

    pub open spec fn target_at(self, position: Position) -> Option<
        crate::composer::ComposerChromeTarget,
    > {
        if self.subagent_hit_area matches Some(area) && area.covers(position) {
            Some(crate::composer::ComposerChromeTarget::Subagents)
        } else if self.effort_hit_area matches Some(area) && area.covers(position) {
            Some(crate::composer::ComposerChromeTarget::Effort)
        } else {
            None
        }
    }

    /// Scrolls so that the cursor's row is shown.
    pub fn keep_cursor_visible(&mut self, cursor_row: usize, visible: usize, line_count: usize)
        ensures
            *final(self) == (Composer {
                scroll: scrolled(
                    old(self).scroll as int,
                    cursor_row as int,
                    visible as int,
                    line_count as int,
                ) as usize,
                ..*old(self)
            }),
            final(self).scroll == scrolled(
                old(self).scroll as int,
                cursor_row as int,
                visible as int,
                line_count as int,
            ),
    {
        if visible == 0 {
            self.scroll = 0;
            return ;
        }
        if cursor_row < self.scroll {
            self.scroll = cursor_row;
        } else if cursor_row - self.scroll >= visible {
            self.scroll = cursor_row - (visible - 1);
        }
        let most_scroll: usize = line_count.saturating_sub(visible);
        if self.scroll > most_scroll {
            self.scroll = most_scroll;
        }
    }

    /// Lays the draft out in a number of columns, unless that was done before.
    pub fn visual_layout(&mut self, columns: usize)
        requires
            old(self).wf(),
        ensures
            final(self).wf(),
            final(self).layout matches Some(cached) && cached.width == columns && cached.cursor
                == old(self).edit.cursor,
            *final(self) == (Composer { layout: final(self).layout, ..*old(self) }),
    {
        let fresh: bool = match &self.layout {
            Some(cached) => cached.width == columns && cached.cursor == self.edit.cursor,
            None => false,
        };
        if !fresh {
            let value = VisualLayout::new(self.edit.text.as_str(), self.edit.cursor, columns);
            self.layout = Some(CachedLayout { width: columns, cursor: self.edit.cursor, value });
        }
    }

    /// The rows that the composer takes with its border: 3 to 6 rows of text; 1 where the border
    /// does not fit.
    pub fn desired_height(&mut self, width: u16) -> (height: u16)
        requires
            old(self).wf(),
        ensures
            final(self).wf(),
            *final(self) == (Composer { layout: final(self).layout, ..*old(self) }),
            height == old(self)@.height_in(width as int),
    {
        if width < 2 {
            return 1;
        }
        let columns: usize = if width - 2 < 1 {
            1
        } else {
            (width - 2) as usize
        };
        self.visual_layout(columns);
        let count: usize = match &self.layout {
            Some(cached) => cached.value.lines.len(),
            None => 0,
        };
        if count < MIN_CONTENT_ROWS {
            (MIN_CONTENT_ROWS + 2) as u16
        } else if count > MAX_CONTENT_ROWS {
            (MAX_CONTENT_ROWS + 2) as u16
        } else {
            (count + 2) as u16
        }
    }
}

impl crate::composer::ComposerModel {
    /// The rows that the composer takes in a number of columns.
    pub open spec fn height_in(self, width: int) -> int {
        if width < 2 {
            1
        } else {
            2 + most(
                MIN_CONTENT_ROWS as int,
                least(
                    MAX_CONTENT_ROWS as int,
                    self.edit.visual_rows(width - 2).len() as int,
                ),
            )
        }
    }
}

/// Draws a row of the draft at a cell.
pub fn render_draft_line(
    paints: &mut Vec<Paint>,
    x: u16,
    y: u16,
    text: &str,
    images: &Vec<PastedImage>,
    line: VisualLine,
    columns: usize,
)
    requires
        placed(text@, tokens(images@)),
        is_offset(text@, line.start as int),
        is_offset(text@, line.end as int),
        line.start <= line.end,
    ensures
        strokes(final(paints)@) == strokes(old(paints)@) + line_strokes(
            text@,
            tokens(images@),
            line@,
            x as int,
            y as int,
            columns as int,
        ),
{
    let ghost start = strokes(paints@);
    let ghost list = tokens(images@);
    paint(
        paints,
        Paint::Text {
            x,
            y,
            text: slice(text, line.start, line.end).to_owned(),
            limit: columns,
            look: Look::plain(Tone::Text),
        },
    );
    let ghost first = strokes(paints@);
    let mut i: usize = 0;
    assert(first + token_strokes(text@, list, 0, line@, x as int, y as int, columns as int)
        =~= first);
    while i < images.len()
        invariant
            list == tokens(images@),
            placed(text@, list),
            is_offset(text@, line.start as int),
            is_offset(text@, line.end as int),
            line.start <= line.end,
            i <= images.len(),
            strokes(paints@) == first + token_strokes(
                text@,
                list,
                i as int,
                line@,
                x as int,
                y as int,
                columns as int,
            ),
        decreases images.len() - i,
    {
        let ghost sofar = token_strokes(
            text@,
            list,
            i as int,
            line@,
            x as int,
            y as int,
            columns as int,
        );
        assert(list[i as int] == images@[i as int]@);
        let from: usize = if images[i].start > line.start {
            images[i].start
        } else {
            line.start
        };
        let to: usize = if images[i].end < line.end {
            images[i].end
        } else {
            line.end
        };
        if from < to {
            let offset: usize = width(slice(text, line.start, from));
            paint(
                paints,
                Paint::Text {
                    x: x.saturating_add(to_cell(offset)),
                    y,
                    text: slice(text, from, to).to_owned(),
                    limit: columns.saturating_sub(offset),
                    look: Look::plain(Tone::Blue),
                },
            );
            assert(strokes(paints@) =~= first + sofar.push(paints@.last()@));
        }
        i = i + 1;
    }
    assert(strokes(paints@) =~= start + line_strokes(
        text@,
        list,
        line@,
        x as int,
        y as int,
        columns as int,
    ));
}

/// The whole draft as one row.
pub open spec fn whole_row(text: Seq<char>) -> Row {
    Row { start: 0, end: byte_len(text) as int, width: 0 }
}

impl Composer {
    /// What the composer draws into an area that is too small for its border.
    pub open spec fn narrow_strokes(self, area: Rect, focused: bool) -> Seq<Stroke> {
        seq![Stroke::Fill { area, look: colored(Tone::Text) }] + line_strokes(
            self@.edit.text,
            self@.edit.images,
            whole_row(self@.edit.text),
            area.x as int,
            area.y as int,
            area.width as int,
        ) + when(focused, Stroke::Cursor { x: area.x as int, y: area.y as int })
    }

    /// The columns of the text inside the border.
    pub open spec fn inner_columns(area: Rect) -> int {
        most(area.width - 2, 1)
    }

    /// The scroll position with which the composer is drawn.
    pub open spec fn shown_scroll(self, area: Rect) -> int {
        let columns = Self::inner_columns(area);
        scrolled(
            self.scroll as int,
            self@.edit.visual_row(columns),
            area.height - 2,
            self@.edit.visual_rows(columns).len() as int,
        )
    }

    /// The cell of the cursor.
    pub open spec fn cursor_cell(self, area: Rect) -> Stroke {
        let columns = Self::inner_columns(area);
        let row = self@.edit.visual_row(columns);
        let column = crate::layout::cursor_column(
            self@.edit.text,
            self@.edit.visual_rows(columns)[row],
            self@.edit.cursor,
        );
        Stroke::Cursor {
            x: least(sum16(area.x + 1, cell16(column)), area.x + area.width - 2),
            y: sum16(area.y + 1, cell16(minus(row, self.shown_scroll(area)))),
        }
    }

    /// What the composer draws.
    pub open spec fn picture(self, area: Rect, model: Seq<char>, focused: bool) -> Seq<Stroke> {
        if area.empty() {
            Seq::empty()
        } else if area.width < 2 || area.height < 3 {
            self.narrow_strokes(area, focused)
        } else {
            seq![Stroke::Fill { area, look: colored(Tone::Text) }] + self.labels(model).chrome(area)
                + content_strokes(
                self@.edit.text,
                self@.edit.images,
                self@.edit.visual_rows(Self::inner_columns(area)),
                self.shown_scroll(area),
                area,
                self.labels(model).border(),
                area.height - 2,
            ) + when(focused, self.cursor_cell(area))
        }
    }

    fn render_narrow(&self, area: Rect, focused: bool, paints: &mut Vec<Paint>)
        requires
            self.wf(),
        ensures
            strokes(final(paints)@) == strokes(old(paints)@) + self.narrow_strokes(area, focused),
    {
        let ghost start = strokes(paints@);
        let end: usize = bytes_in(self.edit.text.as_str());
        proof {
            let text = self.edit.text@;
            lemma_char_index(text, 0);
            lemma_char_index(text, text.len() as int);
            assert(text.take(0) =~= Seq::<char>::empty());
            assert(text.take(text.len() as int) =~= text);
        }
        paint(paints, Paint::Fill { area, look: Look::plain(Tone::Text) });
        render_draft_line(
            paints,
            area.x,
            area.y,
            self.edit.text.as_str(),
            &self.edit.images,
            VisualLine { start: 0, end, width: 0 },
            area.width as usize,
        );
        if focused {
            paint(paints, Paint::Cursor { position: Position { x: area.x, y: area.y } });
        }
        assert(strokes(paints@) =~= start + self.narrow_strokes(area, focused));
    }

    /// Draws the composer.
    pub fn render_focused(&mut self, area: Rect, model: &str, focused: bool) -> (paints: Vec<Paint>)
        requires
            old(self).wf(),
            area.fits(),
        ensures
            final(self).wf(),
            strokes(paints@) == old(self).picture(area, model@, focused),
            final(self).edit == old(self).edit,
            final(self)@ == (if area.width < 2 || area.height < 3 {
                old(self)@
            } else {
                crate::composer::ComposerModel {
                    width: Self::inner_columns(area),
                    scroll: old(self).shown_scroll(area),
                    ..old(self)@
                }
            }),
            final(self).effort_hit_area == (if area.width < 2 || area.height < 3 {
                old(self).effort_hit_area
            } else {
                old(self).labels(model@).effort_area(area)
            }),
            final(self).subagent_hit_area == (if area.width < 2 || area.height < 3 {
                old(self).subagent_hit_area
            } else {
                old(self).labels(model@).subagent_area(area)
            }),
            final(self).workspace == old(self).workspace,
    {
        let mut paints: Vec<Paint> = Vec::new();
        assert(strokes(paints@) =~= Seq::<Stroke>::empty());
        if area.is_empty() {
            return paints;
        }
        if area.width < 2 || area.height < 3 {
            self.render_narrow(area, focused, &mut paints);
            assert(strokes(paints@) =~= old(self).narrow_strokes(area, focused));
            return paints;
        }
        let ghost labels = self.labels(model@);
        let columns: usize = if area.width - 2 < 1 {
            1
        } else {
            (area.width - 2) as usize
        };
        self.last_width = columns;
        self.visual_layout(columns);
        let (cursor_row, cursor_column, line_count): (usize, usize, usize) = match &self.layout {
            Some(cached) => (
                cached.value.cursor_row,
                cached.value.cursor_column,
                cached.value.lines.len(),
            ),
            None => (0, 0, 0),
        };
        let visible: usize = (area.height - 2) as usize;
        self.keep_cursor_visible(cursor_row, visible, line_count);
        let ghost list = self@.edit.visual_rows(columns as int);
        assert(self.scroll == old(self).shown_scroll(area));
        paint(&mut paints, Paint::Fill { area, look: Look::plain(Tone::Text) });
        assert(self.labels(model@) == labels);
        self.render_chrome(area, model, &mut paints);
        let ghost framed = strokes(paints@);
        let look: Look = self.border_style();
        assert(look == labels.border()) by {
            assert(self.labels(model@).border() == look);
        }
        let right: u16 = area.x + area.width - 1;
        let mut row: usize = 0;
        let ghost edit = self@.edit;
        let ghost scroll = self.scroll as int;
        proof {
            assert(framed + content_strokes(edit.text, edit.images, list, scroll, area, look, 0)
                =~= framed);
        }
        while row < visible
            invariant
                area.fits(),
                area.width >= 2,
                area.height >= 3,
                visible == area.height - 2,
                right == area.x + area.width - 1,
                columns == Self::inner_columns(area),
                row <= visible,
                self.wf(),
                self@.edit == edit,
                edit.wf(),
                self.scroll == scroll,
                list == edit.visual_rows(columns as int),
                self.layout matches Some(cached) && cached.width == columns,
                strokes(paints@) == framed + content_strokes(
                    edit.text,
                    edit.images,
                    list,
                    scroll,
                    area,
                    look,
                    row as int,
                ),
            decreases visible - row,
        {
            let ghost sofar = content_strokes(
                edit.text,
                edit.images,
                list,
                scroll,
                area,
                look,
                row as int,
            );
            let y: u16 = area.y + 1 + row as u16;
            paint(&mut paints, Paint::Symbol { x: area.x, y, symbol: '│', look });
            paint(&mut paints, Paint::Symbol { x: right, y, symbol: '│', look });
            let ghost sides = strokes(paints@);
            match &self.layout {
                Some(cached) => {
                    assert(rows(cached.value.lines@) == list);
                    if self.scroll < cached.value.lines.len() && row < cached.value.lines.len()
                        - self.scroll {
                        let line: VisualLine = cached.value.lines[self.scroll + row];
                        assert(line@ == list[scroll + row]);
                        assert(is_row(edit.text, list[scroll + row]));
                        render_draft_line(
                            &mut paints,
                            area.x + 1,
                            y,
                            self.edit.text.as_str(),
                            &self.edit.images,
                            line,
                            columns,
                        );
                    }
                },
                None => {},
            }
            row = row + 1;
            assert(strokes(paints@) =~= framed + content_strokes(
                edit.text,
                edit.images,
                list,
                scroll,
                area,
                look,
                row as int,
            ));
        }
        let ghost content = strokes(paints@);
        if focused {
            let x: u16 = (area.x + 1).saturating_add(to_cell(cursor_column));
            let y: u16 = (area.y + 1).saturating_add(
                to_cell(cursor_row.saturating_sub(self.scroll)),
            );
            paint(
                &mut paints,
                Paint::Cursor { position: Position { x: smaller(x, right - 1), y } },
            );
        }
        assert(strokes(paints@) =~= old(self).picture(area, model@, focused));
        paints
    }
}

} // verus!
