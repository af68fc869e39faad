//! The transcript of a session: what is seen of it.

use crate::actions::indices;
use crate::cache::{is_made_of, Kept};
use crate::draw::{
    bold_colored, copy_line, lines, paint, say, strokes, words, Look, Paint, Stroke, Tone, Word,
    Words,
};
use crate::entry::{
    entry_block, render_entry, row_links, EntryKind, Layout, Link, LinkSpan, Materials, Stuff,
    TranscriptEntry,
};
use crate::geometry::{cell16, least, minus, sum16, to_cell, Rect};
use crate::numeral::{decimal, decimal_text};
use crate::scroll::{Anchor, Flow, Plan, ScrollState};
use crate::text::{concat, display_width, width};
use crate::tool::ToolState;
use crate::transcript::{
    entry_index, link_hits_view, LinkHit, LinkHitRegion, Story, ToolHitRegion, Transcript,
    TranscriptEvent,
};
use vstd::prelude::*;

verus! {

/// The indices of those among the first `n` entries whose rows are not there.
pub open spec fn stale_indices(
    kept: Kept,
    entries: Seq<TranscriptEntry>,
    width: u16,
    n: int,
) -> Seq<int>
    decreases n,
{
    if n <= 0 {
        Seq::empty()
    } else if kept.fresh(entries[n - 1], width) {
        stale_indices(kept, entries, width, n - 1)
    } else {
        stale_indices(kept, entries, width, n - 1).push(n - 1)
    }
}

/// The rows of an entry.
pub open spec fn flow_of(kept: Kept, entry: TranscriptEntry) -> Flow {
    Flow {
        id: entry.id,
        hidden: entry.hidden,
        height: if kept.entries.contains_key(entry.id) {
            kept.entries[entry.id].layout.lines@.len() as usize
        } else {
            0
        },
    }
}

impl Story {
    /// The indices of the entries whose rows are not there for a width.
    pub open spec fn stale(self, width: u16) -> Seq<int> {
        stale_indices(self.kept, self.content.entries, width, self.content.entries.len() as int)
    }

    /// The rows of the first `n` stale entries are there, made of their materials.
    pub open spec fn made(self, kept: Kept, width: u16, materials: Seq<Materials>, n: int) -> bool {
        forall|m: int|
            #![trigger self.stale(width)[m]]
            0 <= m < n ==> ({
                let entry = self.content.entries[self.stale(width)[m]];
                &&& kept.fresh(entry, width)
                &&& kept.entries[entry.id].layout@ == entry_block(
                    entry.kind,
                    width as int,
                    self.kept.unfolds(entry),
                    materials[m]@,
                )
            })
    }

    /// The rows of all entries but the first `n` stale ones are as they were.
    pub open spec fn kept_apart(self, kept: Kept, width: u16, n: int) -> bool {
        forall|i: int|
            0 <= i < self.content.entries.len() && (forall|m: int|
                0 <= m < n ==> #[trigger] self.stale(width)[m] != i) ==> ({
                let id = (#[trigger] self.content.entries[i]).id;
                &&& kept.entries.contains_key(id) == self.kept.entries.contains_key(id)
                &&& kept.entries[id] == self.kept.entries[id]
            })
    }

    /// The rows of every entry are there for a width.
    pub open spec fn laid_out(self, width: u16) -> bool {
        forall|i: int|
            0 <= i < self.content.entries.len() ==> self.kept.fresh(
                #[trigger] self.content.entries[i],
                width,
            )
    }

    /// The entries as far as scrolling goes.
    pub open spec fn flows(self) -> Seq<Flow> {
        self.content.entries.map_values(|entry: TranscriptEntry| flow_of(self.kept, entry))
    }

    /// The words of a row.
    pub open spec fn line_at(self, a: Anchor) -> Option<Seq<Word>> {
        if self.kept.entries.contains_key(a.entry) && a.line
            < self.kept.entries[a.entry].layout.lines@.len() {
            Some(words(self.kept.entries[a.entry].layout.lines@[a.line as int]@))
        } else {
            None
        }
    }

    /// The links of a row.
    pub open spec fn links_at(self, a: Anchor) -> Seq<Link> {
        if self.kept.entries.contains_key(a.entry) && a.line
            < self.kept.entries[a.entry].layout.links@.len() {
            row_links(self.kept.entries[a.entry].layout.links@[a.line as int]@)
        } else {
            Seq::empty()
        }
    }

    /// The state of the tool call that begins in a row.
    pub open spec fn tool_at(self, a: Anchor) -> Option<ToolState> {
        let i = entry_index(self.content.entries, a.entry, 0);
        if a.line == 0 && i < self.content.entries.len() {
            match self.content.entries[i].kind {
                EntryKind::Tool(tool) => Some(tool.state),
                _ => None,
            }
        } else {
            None
        }
    }
}

/// The screen row of row `i` of a frame.
pub open spec fn screen_row(area: Rect, padding: int, i: int) -> int {
    cell16(area.y + padding + i)
}

/// A link of a row on the screen.
pub open spec fn link_hit(link: Link, area: Rect, y: int) -> LinkHit {
    LinkHit {
        destination: link.destination,
        row: y as u16,
        start: sum16(area.x as int, link.start) as u16,
        end: least(sum16(area.x as int, link.end), area.right_edge()) as u16,
    }
}

pub open spec fn link_hits_of(links: Seq<Link>, area: Rect, y: int) -> Seq<LinkHit> {
    links.map_values(|link: Link| link_hit(link, area, y))
}

impl Story {
    /// What a row draws.
    pub open spec fn row_strokes(self, a: Anchor, area: Rect, y: int) -> Seq<Stroke> {
        (match self.line_at(a) {
            Some(line) => seq![
                Stroke::Line {
                    area: Rect { x: area.x, y: y as u16, width: area.width, height: 1 },
                    line,
                    centered: false,
                },
            ],
            None => Seq::empty(),
        }) + (match (self.tool_at(a), self.spinner) {
            (Some(ToolState::Running), Some(spinner)) => seq![
                Stroke::Text {
                    x: sum16(area.x as int, 4),
                    y,
                    text: spinner.mark(),
                    limit: 1,
                    look: bold_colored(Tone::Accent),
                },
            ],
            _ => Seq::empty(),
        }) + if self.tool_at(a) is Some && self.tools_focused && self.selected_tool == Some(
            a.entry,
        ) {
            seq![
                Stroke::Text {
                    x: area.x as int,
                    y,
                    text: "›"@,
                    limit: 1,
                    look: bold_colored(Tone::Accent),
                },
            ]
        } else {
            Seq::empty()
        }
    }

    /// What the first `n` rows of a frame draw.
    pub open spec fn rows_strokes(self, plan: Plan, area: Rect, n: int) -> Seq<Stroke>
        decreases n,
    {
        if n <= 0 {
            Seq::empty()
        } else {
            self.rows_strokes(plan, area, n - 1) + self.row_strokes(
                plan.rows[n - 1],
                area,
                screen_row(area, plan.padding, n - 1),
            )
        }
    }

    /// The tool calls that begin in the first `n` rows of a frame.
    pub open spec fn rows_tools(self, plan: Plan, area: Rect, n: int) -> Seq<ToolHitRegion>
        decreases n,
    {
        if n <= 0 {
            Seq::empty()
        } else {
            let front = self.rows_tools(plan, area, n - 1);
            if self.tool_at(plan.rows[n - 1]) is Some {
                front.push(
                    ToolHitRegion {
                        entry: plan.rows[n - 1].entry,
                        row: screen_row(area, plan.padding, n - 1) as u16,
                    },
                )
            } else {
                front
            }
        }
    }

    /// The links in the first `n` rows of a frame.
    pub open spec fn rows_links(self, plan: Plan, area: Rect, n: int) -> Seq<LinkHit>
        decreases n,
    {
        if n <= 0 {
            Seq::empty()
        } else {
            self.rows_links(plan, area, n - 1) + link_hits_of(
                self.links_at(plan.rows[n - 1]),
                area,
                screen_row(area, plan.padding, n - 1),
            )
        }
    }
}

/// The first of two labels that fits, in the upper right corner.
pub open spec fn hint(area: Rect, long: Seq<char>, short: Seq<char>, tone: Tone) -> Seq<Stroke> {
    let label = if display_width(long) <= area.width {
        long
    } else {
        short
    };
    let x = minus(area.right_edge(), cell16(display_width(label) as int));
    if display_width(label) > area.width {
        Seq::empty()
    } else {
        seq![
            Stroke::Line {
                area: Rect {
                    x: x as u16,
                    y: area.y,
                    width: minus(area.right_edge(), x) as u16,
                    height: 1,
                },
                line: seq![Word { text: label, look: bold_colored(tone) }],
                centered: false,
            },
        ]
    }
}

/// What a hint of new entries says.
pub open spec fn update_hint(count: int, end: Seq<char>) -> Seq<char> {
    "↓ "@ + decimal(count) + (if count == 1 {
        " update"@
    } else {
        " updates"@
    }) + end
}

impl Story {
    /// The hint that a frame shows.
    pub open spec fn hint_strokes(self, area: Rect) -> Seq<Stroke> {
        if self.tools_focused {
            hint(
                area,
                "↑↓ tool · Enter toggle · Esc back"@,
                "↑↓ tool · Enter · Esc"@,
                Tone::Accent,
            )
        } else if self.viewport.scroll is Detached && self.viewport.new_updates > 0 {
            hint(
                area,
                update_hint(self.viewport.new_updates as int, " · Ctrl+End to follow"@),
                update_hint(self.viewport.new_updates as int, " · Ctrl+End"@),
                Tone::Border,
            )
        } else {
            Seq::empty()
        }
    }

    /// The transcript when a frame begins.
    pub open spec fn framed(self, area: Rect) -> Story {
        Story {
            viewport_height: area.height,
            y: area.y,
            tool_hits: Seq::empty(),
            link_hits: Seq::empty(),
            ..self
        }
    }

    /// The rows of a frame.
    pub open spec fn frame_plan(self, area: Rect) -> Plan {
        if area.empty() {
            Plan { padding: 0, rows: Seq::empty() }
        } else {
            self.viewport.plan(self.flows(), area.height as int)
        }
    }

    /// The transcript after a frame.
    pub open spec fn rendered(self, area: Rect) -> Story {
        let plan = self.frame_plan(area);
        let count = plan.rows.len() as int;
        if self.content.blank() {
            self.framed(area)
        } else {
            Story {
                viewport: if area.empty() {
                    self.viewport
                } else {
                    self.viewport.after_plan(self.flows(), area.height as int)
                },
                tool_hits: self.rows_tools(plan, area, count),
                link_hits: self.rows_links(plan, area, count),
                ..self.framed(area)
            }
        }
    }

    /// What a frame draws.
    pub open spec fn picture(self, area: Rect) -> Seq<Stroke> {
        let plan = self.frame_plan(area);
        seq![Stroke::Clear { area }] + if self.content.blank() {
            self.logo.picture(area, self.model)
        } else {
            self.rows_strokes(plan, area, plan.rows.len() as int) + self.rendered(
                area,
            ).hint_strokes(area)
        }
    }
}

proof fn lemma_stale(kept: Kept, entries: Seq<TranscriptEntry>, width: u16, n: int)
    requires
        0 <= n <= entries.len(),
    ensures
        forall|m: int|
            0 <= m < stale_indices(kept, entries, width, n).len() ==> 0 <= #[trigger] stale_indices(
                kept,
                entries,
                width,
                n,
            )[m] < n,
        forall|m: int, k: int|
            0 <= m < k < stale_indices(kept, entries, width, n).len()
                ==> #[trigger] stale_indices(kept, entries, width, n)[m]
                < #[trigger] stale_indices(kept, entries, width, n)[k],
        forall|i: int|
            0 <= i < n && !kept.fresh(#[trigger] entries[i], width) ==> stale_indices(
                kept,
                entries,
                width,
                n,
            ).contains(i),
    decreases n,
{
    if n > 0 {
        lemma_stale(kept, entries, width, n - 1);
        let front = stale_indices(kept, entries, width, n - 1);
        let all = stale_indices(kept, entries, width, n);
        if !kept.fresh(entries[n - 1], width) {
            assert(all == front.push(n - 1));
            assert(all[front.len() as int] == n - 1);
            assert forall|i: int| 0 <= i < n && !kept.fresh(#[trigger] entries[i], width) implies
                all.contains(i) by {
                if i < n - 1 {
                    let m = choose|m: int| 0 <= m < front.len() && front[m] == i;
                    assert(all[m] == i);
                }
            }
        }
    }
}

proof fn lemma_laid_out(
    before: Story,
    held: Kept,
    kept: Kept,
    width: u16,
    given: Seq<Materials>,
    k: int,
)
    requires
        0 <= k < before.stale(width).len(),
        forall|m: int|
            0 <= m < before.stale(width).len() ==> 0 <= #[trigger] before.stale(width)[m]
                < before.content.entries.len(),
        forall|m: int, n: int|
            0 <= m < n < before.stale(width).len() ==> #[trigger] before.stale(width)[m]
                < #[trigger] before.stale(width)[n],
        held.overrides == before.kept.overrides,
        held.expand_all == before.kept.expand_all,
        ({
            let entry = before.content.entries[before.stale(width)[k]];
            let cached = kept.entries[entry.id];
            &&& kept == (Kept { entries: held.entries.insert(entry.id, cached), ..held })
            &&& kept.fresh(entry, width)
            &&& cached.layout@ == entry_block(
                entry.kind,
                width as int,
                held.unfolds(entry),
                given[k]@,
            )
        }),
    ensures
        before.content.distinct() && before.kept_apart(held, width, k) ==> before.kept_apart(
            kept,
            width,
            k + 1,
        ),
        before.content.distinct() && before.made(held, width, given, k) ==> before.made(
            kept,
            width,
            given,
            k + 1,
        ),
        before.content.distinct() && held.true_to(before.content.entries) ==> kept.true_to(
            before.content.entries,
        ),
{
    let entries = before.content.entries;
    let stale = before.stale(width);
    let at = stale[k];
    let entry = entries[at];
    assert forall|e: TranscriptEntry| #[trigger] held.unfolds(e) == kept.unfolds(e) by {}
    if before.content.distinct() {
        assert forall|i: int| 0 <= i < entries.len() && i != at implies (#[trigger] entries[i]).id
            != entry.id by {
            if i < at {
                assert(entries[i].id != entries[at].id);
            } else {
                assert(entries[at].id != entries[i].id);
            }
        }
        if before.kept_apart(held, width, k) {
            assert forall|i: int|
                0 <= i < entries.len() && (forall|m: int|
                    0 <= m < k + 1 ==> #[trigger] before.stale(width)[m] != i) implies ({
                let id = (#[trigger] entries[i]).id;
                &&& kept.entries.contains_key(id) == before.kept.entries.contains_key(id)
                &&& kept.entries[id] == before.kept.entries[id]
            }) by {
                assert(before.stale(width)[k] != i);
            }
        }
        if before.made(held, width, given, k) {
            assert forall|m: int|
                #![trigger before.stale(width)[m]]
                0 <= m < k + 1 implies ({
                let one = entries[before.stale(width)[m]];
                &&& kept.fresh(one, width)
                &&& kept.entries[one.id].layout@ == entry_block(
                    one.kind,
                    width as int,
                    before.kept.unfolds(one),
                    given[m]@,
                )
            }) by {
                if m < k {
                    assert(stale[m] < stale[k]);
                    assert(entries[stale[m]].id != entry.id);
                }
            }
        }
        if held.true_to(entries) {
            assert forall|i: int| 0 <= i < entries.len() && kept.has_revision(
                #[trigger] entries[i],
            ) implies is_made_of(kept.entries[entries[i].id], entries[i].kind) by {
                if i == at {
                    let cached = kept.entries[entry.id];
                    assert(cached.layout@ == entry_block(
                        entry.kind,
                        cached.width as int,
                        cached.expanded,
                        given[k]@,
                    ));
                } else {
                    assert(held.has_revision(entries[i]));
                }
            }
        }
    }
}

proof fn lemma_all_made(before: Story, kept: Kept, width: u16, given: Seq<Materials>)
    requires
        given.len() == before.stale(width).len(),
        kept.overrides == before.kept.overrides,
        kept.expand_all == before.kept.expand_all,
        before.content.distinct() ==> before.kept_apart(kept, width, given.len() as int),
        before.content.distinct() ==> before.made(kept, width, given, given.len() as int),
    ensures
        before.content.distinct() ==> (Story { kept, ..before }).laid_out(width),
{
    let entries = before.content.entries;
    lemma_stale(before.kept, entries, width, entries.len() as int);
    if before.content.distinct() {
        assert forall|i: int| 0 <= i < entries.len() implies kept.fresh(
            #[trigger] entries[i],
            width,
        ) by {
            if before.kept.fresh(entries[i], width) {
                assert forall|m: int| 0 <= m < given.len() implies #[trigger] before.stale(width)[m]
                    != i by {
                    lemma_stale_not_fresh(before.kept, entries, width, entries.len() as int, m);
                }
                assert(kept.unfolds(entries[i]) == before.kept.unfolds(entries[i]));
            } else {
                let m = choose|m: int|
                    0 <= m < before.stale(width).len() && before.stale(width)[m] == i;
                assert(before.stale(width)[m] == i);
            }
        }
    }
}

proof fn lemma_stale_not_fresh(
    kept: Kept,
    entries: Seq<TranscriptEntry>,
    width: u16,
    n: int,
    m: int,
)
    requires
        0 <= n <= entries.len(),
        0 <= m < stale_indices(kept, entries, width, n).len(),
    ensures
        !kept.fresh(entries[stale_indices(kept, entries, width, n)[m]], width),
    decreases n,
{
    if n > 0 {
        let front = stale_indices(kept, entries, width, n - 1);
        if m < front.len() {
            lemma_stale_not_fresh(kept, entries, width, n - 1, m);
        }
    }
}

/// What is drawn for an entry are its rows: where the kept rows are true to the entries and every
/// entry is laid out for a width, the rows of an entry are those that it is made into for that width
/// and its folding.
pub proof fn law_rows_are_those_of_the_entry(story: Story, width: u16, i: int)
    requires
        story.kept.true_to(story.content.entries),
        story.laid_out(width),
        0 <= i < story.content.entries.len(),
    ensures
        ({
            let entry = story.content.entries[i];
            exists|stuff: Stuff|
                story.kept.entries[entry.id].layout@ == #[trigger] entry_block(
                    entry.kind,
                    width as int,
                    story.kept.unfolds(entry),
                    stuff,
                )
        }),
{
    let entry = story.content.entries[i];
    assert(story.kept.fresh(entry, width));
    assert(story.kept.has_revision(entry));
}

/// Kept rows stay true to the entries, whatever happens to a transcript. Of other content it is only
/// needed that a revision changes with what its entry shows.
pub proof fn law_kept_rows_stay_true(story: Story, event: TranscriptEvent)
    requires
        story.kept.true_to(story.content.entries),
        event matches TranscriptEvent::Record(change) ==> story.kept.follows(
            story.content.entries,
            change.content@.entries,
        ),
        event matches TranscriptEvent::AgentStreamClosed(change) ==> story.kept.follows(
            story.content.entries,
            change.content@.entries,
        ),
    ensures
        ({
            let next = story.on_event(event).story;
            next.kept.true_to(next.content.entries)
        }),
{
    let next = story.on_event(event).story;
    let entries = next.content.entries;
    assert forall|j: int| 0 <= j < entries.len() && next.kept.has_revision(
        #[trigger] entries[j],
    ) implies is_made_of(next.kept.entries[entries[j].id], entries[j].kind) by {
        assert(story.kept.has_revision(entries[j]));
        assert(next.kept.entries[entries[j].id] == story.kept.entries[entries[j].id]);
        if entries != story.content.entries {
            let i = choose|i: int|
                0 <= i < story.content.entries.len() && (#[trigger] story.content.entries[i]).id
                    == entries[j].id && story.content.entries[i].revision == entries[j].revision
                    && story.content.entries[i].kind == entries[j].kind;
            assert(story.kept.has_revision(story.content.entries[i]));
        }
    }
}

/// Draws the first of two labels that fits into the upper right corner.
pub fn render_top_right_hint(
    area: Rect,
    long: &str,
    short: &str,
    tone: Tone,
    paints: &mut Vec<Paint>,
)
    ensures
        strokes(final(paints)@) == strokes(old(paints)@) + hint(area, long@, short@, tone),
{
    let ghost start = strokes(paints@);
    let label: &str = if width(long) <= area.width as usize {
        long
    } else {
        short
    };
    let columns: usize = width(label);
    if columns > area.width as usize {
        assert(strokes(paints@) =~= start + hint(area, long@, short@, tone));
        return ;
    }
    let x: u16 = area.right().saturating_sub(to_cell(columns));
    let mut line: Vec<Words> = Vec::new();
    say(&mut line, label.to_owned(), Look::bold(tone));
    assert(words(line@) =~= seq![Word { text: label@, look: bold_colored(tone) }]);
    paint(
        paints,
        Paint::Line {
            area: Rect { x, y: area.y, width: area.right().saturating_sub(x), height: 1 },
            line,
            centered: false,
        },
    );
    assert(strokes(paints@) =~= start + hint(area, long@, short@, tone));
}

fn update_label(count: u64, end: &str) -> (label: String)
    ensures
        label@ == update_hint(count as int, end@),
{
    let mut label: String = concat("↓ ", decimal_text(count).as_str());
    label.push_str(
        if count == 1 {
            " update"
        } else {
            " updates"
        },
    );
    label.push_str(end);
    label
}

impl Transcript {
    /// The entries whose rows have to be made before a frame of that width.
    pub fn stale_entries(&self, width: u16) -> (list: Vec<usize>)
        ensures
            indices(list@) == stale_indices(
                self@.kept,
                self@.content.entries,
                width,
                self@.content.entries.len() as int,
            ),
            list@.len() == 0 ==> self@.laid_out(width),
    {
        let mut list: Vec<usize> = Vec::new();
        let mut i: usize = 0;
        let ghost entries = self@.content.entries;
        assert(indices(list@) =~= stale_indices(self@.kept, entries, width, 0));
        while i < self.content.entries.len()
            invariant
                entries == self.content.entries@,
                i <= entries.len(),
                indices(list@) == stale_indices(self@.kept, entries, width, i as int),
                list@.len() == 0 ==> forall|k: int|
                    0 <= k < i ==> self@.kept.fresh(#[trigger] entries[k], width),
            decreases entries.len() - i,
        {
            let ghost sofar = indices(list@);
            if !self.cache.is_fresh(&self.content.entries[i], width) {
                list.push(i);
                assert(indices(list@) =~= sofar.push(i as int));
            }
            i = i + 1;
        }
        list
    }

    /// Makes the rows of an entry for a width.
    pub fn lay_out(&mut self, index: usize, width: u16, materials: Materials)
        requires
            index < old(self)@.content.entries.len(),
        ensures
            final(self)@ == (Story { kept: final(self)@.kept, ..old(self)@ }),
            ({
                let entry = old(self)@.content.entries[index as int];
                let expanded = old(self)@.kept.unfolds(entry);
                let cached = final(self)@.kept.entries[entry.id];
                &&& final(self)@.kept == (Kept {
                    entries: old(self)@.kept.entries.insert(entry.id, cached),
                    ..old(self)@.kept
                })
                &&& final(self)@.kept.fresh(entry, width)
                &&& cached.layout@ == entry_block(entry.kind, width as int, expanded, materials@)
            }),
    {
        let expanded: bool = self.cache.is_expanded(&self.content.entries[index]);
        let layout: Layout = render_entry(
            &self.content.entries[index].kind,
            width,
            expanded,
            materials,
        );
        self.cache.layout(&self.content.entries[index], width, layout);
        assert(self@.kept.entries =~= old(self)@.kept.entries.insert(
            old(self)@.content.entries[index as int].id,
            self@.kept.entries[old(self)@.content.entries[index as int].id],
        ));
    }

    /// Makes the rows of every entry that needs some before a frame of that width. The materials are
    /// those of the stale entries, in their order.
    pub fn lay_out_all(&mut self, width: u16, materials: Vec<Materials>)
        requires
            materials@.len() == old(self)@.stale(width).len(),
        ensures
            final(self)@ == (Story { kept: final(self)@.kept, ..old(self)@ }),
            final(self)@.kept.overrides == old(self)@.kept.overrides,
            final(self)@.kept.expand_all == old(self)@.kept.expand_all,
            old(self)@.content.distinct() ==> {
                &&& final(self)@.laid_out(width)
                &&& old(self)@.kept_apart(final(self)@.kept, width, materials@.len() as int)
                &&& old(self)@.made(final(self)@.kept, width, materials@, materials@.len() as int)
            },
            old(self)@.content.distinct() && old(self)@.kept.true_to(old(self)@.content.entries)
                ==> final(self)@.kept.true_to(final(self)@.content.entries),
    {
        let ghost before = self@;
        let ghost given = materials@;
        let ghost entries = before.content.entries;
        let ghost stale = before.stale(width);
        let list: Vec<usize> = self.stale_entries(width);
        let mut rest = materials;
        let mut k: usize = 0;
        assert(indices(list@) == stale);
        proof {
            lemma_stale(before.kept, entries, width, entries.len() as int);
        }
        assert(rest@ =~= given.skip(0));
        while k < list.len()
            invariant
                indices(list@) == stale,
                given.len() == list@.len(),
                k <= list@.len(),
                rest@ == given.skip(k as int),
                entries == before.content.entries,
                stale == before.stale(width),
                forall|m: int| 0 <= m < stale.len() ==> 0 <= #[trigger] stale[m] < entries.len(),
                forall|m: int, n: int|
                    0 <= m < n < stale.len() ==> #[trigger] stale[m] < #[trigger] stale[n],
                self@ == (Story { kept: self@.kept, ..before }),
                self@.kept.overrides == before.kept.overrides,
                self@.kept.expand_all == before.kept.expand_all,
                before.content.distinct() ==> before.kept_apart(self@.kept, width, k as int),
                before.content.distinct() ==> before.made(self@.kept, width, given, k as int),
                before.content.distinct() && before.kept.true_to(entries) ==> self@.kept.true_to(
                    entries,
                ),
            decreases list@.len() - k,
        {
            let ghost held = self@.kept;
            let index: usize = list[k];
            assert(stale[k as int] == index);
            assert(rest@[0] == given[k as int]);
            let one: Materials = rest.remove(0);
            self.lay_out(index, width, one);
            proof {
                assert(rest@ =~= given.skip(k + 1));
                lemma_laid_out(before, held, self@.kept, width, given, k as int);
            }
            k = k + 1;
        }
        proof {
            lemma_all_made(before, self@.kept, width, given);
        }
    }

    fn flow_list(&self) -> (list: Vec<Flow>)
        ensures
            list@ == self@.flows(),
    {
        let mut list: Vec<Flow> = Vec::new();
        let mut i: usize = 0;
        assert(list@ =~= self@.flows().take(0));
        while i < self.content.entries.len()
            invariant
                i <= self.content.entries@.len(),
                list@ == self@.flows().take(i as int),
            decreases self.content.entries@.len() - i,
        {
            let entry: &TranscriptEntry = &self.content.entries[i];
            let height: usize = match self.cache.rows(entry.id) {
                Some(layout) => layout.lines.len(),
                None => 0,
            };
            list.push(Flow { id: entry.id, hidden: entry.hidden, height });
            i = i + 1;
            assert(list@ =~= self@.flows().take(i as int));
        }
        assert(list@ =~= self@.flows());
        list
    }

    fn state_at(&self, anchor: Anchor) -> (state: Option<ToolState>)
        ensures
            state == self@.tool_at(anchor),
    {
        if anchor.line != 0 {
            return None;
        }
        let index: usize = self.content.index_of(anchor.entry);
        if index == self.content.entries.len() {
            return None;
        }
        match &self.content.entries[index].kind {
            EntryKind::Tool(tool) => Some(tool.state),
            _ => None,
        }
    }

    fn row_hits(&self, anchor: Anchor, area: Rect, y: u16, hits: &mut Vec<LinkHitRegion>)
        ensures
            link_hits_view(final(hits)@) == link_hits_view(old(hits)@) + link_hits_of(
                self@.links_at(anchor),
                area,
                y as int,
            ),
    {
        let ghost start = link_hits_view(hits@);
        let ghost expected = link_hits_of(self@.links_at(anchor), area, y as int);
        let layout: &Layout = match self.cache.rows(anchor.entry) {
            Some(layout) => layout,
            None => {
                assert(link_hits_view(hits@) =~= start + expected);
                return ;
            },
        };
        if anchor.line >= layout.links.len() {
            assert(link_hits_view(hits@) =~= start + expected);
            return ;
        }
        let links: &Vec<LinkSpan> = &layout.links[anchor.line];
        let mut i: usize = 0;
        assert(link_hits_view(hits@) =~= start + expected.take(0));
        while i < links.len()
            invariant
                self@.links_at(anchor) == row_links(links@),
                expected == link_hits_of(row_links(links@), area, y as int),
                i <= links@.len(),
                link_hits_view(hits@) == start + expected.take(i as int),
            decreases links@.len() - i,
        {
            let ghost sofar = link_hits_view(hits@);
            let link: &LinkSpan = &links[i];
            assert(row_links(links@)[i as int] == link@);
            let end: u16 = area.x.saturating_add(link.end);
            let hit = LinkHitRegion {
                destination: link.destination.clone(),
                row: y,
                start: area.x.saturating_add(link.start),
                end: if end <= area.right() {
                    end
                } else {
                    area.right()
                },
            };
            hits.push(hit);
            i = i + 1;
            assert(link_hits_view(hits@) =~= sofar.push(hit@));
            assert(link_hits_view(hits@) =~= start + expected.take(i as int));
        }
        assert(link_hits_view(hits@) =~= start + expected);
    }

    fn draw_row(&self, anchor: Anchor, area: Rect, y: u16, paints: &mut Vec<Paint>)
        ensures
            strokes(final(paints)@) == strokes(old(paints)@) + self@.row_strokes(
                anchor,
                area,
                y as int,
            ),
    {
        let ghost start = strokes(paints@);
        match self.cache.rows(anchor.entry) {
            Some(layout) => {
                if anchor.line < layout.lines.len() {
                    let line: Vec<Words> = copy_line(&layout.lines[anchor.line]);
                    paint(
                        paints,
                        Paint::Line {
                            area: Rect { x: area.x, y, width: area.width, height: 1 },
                            line,
                            centered: false,
                        },
                    );
                }
            },
            None => {},
        }
        let state: Option<ToolState> = self.state_at(anchor);
        match (state, self.tool_spinner) {
            (Some(ToolState::Running), Some(spinner)) => {
                paint(
                    paints,
                    Paint::Text {
                        x: area.x.saturating_add(4),
                        y,
                        text: spinner.symbol().to_owned(),
                        limit: 1,
                        look: Look::bold(Tone::Accent),
                    },
                );
            },
            _ => {},
        }
        let selected: bool = match self.selected_tool {
            Some(entry) => entry == anchor.entry,
            None => false,
        };
        if state.is_some() && self.tools_focused && selected {
            paint(
                paints,
                Paint::Text {
                    x: area.x,
                    y,
                    text: "›".to_owned(),
                    limit: 1,
                    look: Look::bold(Tone::Accent),
                },
            );
        }
        assert(strokes(paints@) =~= start + self@.row_strokes(anchor, area, y as int));
    }

    fn draw_hint(&self, area: Rect, paints: &mut Vec<Paint>)
        ensures
            strokes(final(paints)@) == strokes(old(paints)@) + self@.hint_strokes(area),
    {
        let ghost start = strokes(paints@);
        if self.tools_focused {
            render_top_right_hint(
                area,
                "↑↓ tool · Enter toggle · Esc back",
                "↑↓ tool · Enter · Esc",
                Tone::Accent,
                paints,
            );
            return ;
        }
        match self.viewport.scroll {
            ScrollState::Detached(_) => {
                if self.viewport.new_updates > 0 {
                    let count: u64 = self.viewport.new_updates;
                    let long: String = update_label(count, " · Ctrl+End to follow");
                    let short: String = update_label(count, " · Ctrl+End");
                    render_top_right_hint(
                        area,
                        long.as_str(),
                        short.as_str(),
                        Tone::Border,
                        paints,
                    );
                    return ;
                }
            },
            ScrollState::Follow => {},
        }
        assert(strokes(paints@) =~= start + self@.hint_strokes(area));
    }

    fn draw_rows(
        &self,
        rows: &Vec<Anchor>,
        padding: u16,
        area: Rect,
        paints: &mut Vec<Paint>,
    ) -> (hits: (Vec<ToolHitRegion>, Vec<LinkHitRegion>))
        ensures
            ({
                let plan = Plan { padding: padding as int, rows: rows@ };
                let count = rows@.len() as int;
                &&& strokes(final(paints)@) == strokes(old(paints)@) + self@.rows_strokes(
                    plan,
                    area,
                    count,
                )
                &&& hits.0@ == self@.rows_tools(plan, area, count)
                &&& link_hits_view(hits.1@) == self@.rows_links(plan, area, count)
            }),
    {
        let ghost start = strokes(paints@);
        let ghost plan = Plan { padding: padding as int, rows: rows@ };
        let mut tools: Vec<ToolHitRegion> = Vec::new();
        let mut links: Vec<LinkHitRegion> = Vec::new();
        let mut y: u16 = area.y.saturating_add(padding);
        let mut i: usize = 0;
        assert(strokes(paints@) =~= start + self@.rows_strokes(plan, area, 0));
        assert(tools@ =~= self@.rows_tools(plan, area, 0));
        assert(link_hits_view(links@) =~= self@.rows_links(plan, area, 0));
        while i < rows.len()
            invariant
                plan == (Plan { padding: padding as int, rows: rows@ }),
                i <= rows@.len(),
                y == screen_row(area, padding as int, i as int),
                strokes(paints@) == start + self@.rows_strokes(plan, area, i as int),
                tools@ == self@.rows_tools(plan, area, i as int),
                link_hits_view(links@) == self@.rows_links(plan, area, i as int),
            decreases rows@.len() - i,
        {
            let anchor: Anchor = rows[i];
            self.draw_row(anchor, area, y, paints);
            self.row_hits(anchor, area, y, &mut links);
            if self.state_at(anchor).is_some() {
                tools.push(ToolHitRegion { entry: anchor.entry, row: y });
            }
            y = y.saturating_add(1);
            i = i + 1;
            assert(strokes(paints@) =~= start + self@.rows_strokes(plan, area, i as int));
            assert(tools@ =~= self@.rows_tools(plan, area, i as int));
            assert(link_hits_view(links@) =~= self@.rows_links(plan, area, i as int));
        }
        (tools, links)
    }

    /// Draws the transcript.
    pub fn render(&mut self, area: Rect, paints: &mut Vec<Paint>)
        requires
            area.fits(),
        ensures
            final(self)@ == old(self)@.rendered(area),
            strokes(final(paints)@) == strokes(old(paints)@) + old(self)@.picture(area),
    {
        let ghost start = strokes(paints@);
        let ghost story = self@;
        self.viewport_height = area.height;
        self.transcript_y = area.y;
        self.tool_hits = Vec::new();
        self.link_hits = Vec::new();
        assert(self@.link_hits =~= Seq::<LinkHit>::empty());
        assert(self@.tool_hits =~= Seq::<ToolHitRegion>::empty());
        assert(self@ == story.framed(area));
        paint(paints, Paint::Clear { area });
        if self.content.is_empty() {
            self.empty_logo.render(area, self.model, paints);
            assert(strokes(paints@) =~= start + story.picture(area));
            return ;
        }
        assert(self@.flows() =~= story.flows());
        let (padding, rows): (u16, Vec<Anchor>) = if area.is_empty() {
            (0, Vec::new())
        } else {
            let list: Vec<Flow> = self.flow_list();
            self.viewport.render_plan(&list, area.height)
        };
        let ghost plan = story.frame_plan(area);
        assert(rows@ =~= plan.rows);
        let ghost planned = self@;
        let (tools, links) = self.draw_rows(&rows, padding, area, paints);
        proof {
            lemma_rows(planned, story, plan, area, rows@.len() as int);
        }
        self.tool_hits = tools;
        self.link_hits = links;
        assert(self@ == story.rendered(area));
        self.draw_hint(area, paints);
        assert(strokes(paints@) =~= start + story.picture(area));
    }
}

/// What rows draw does not depend on the viewport.
proof fn lemma_rows(a: Story, b: Story, plan: Plan, area: Rect, n: int)
    requires
        a.content == b.content,
        a.kept == b.kept,
        a.spinner == b.spinner,
        a.tools_focused == b.tools_focused,
        a.selected_tool == b.selected_tool,
    ensures
        a.rows_strokes(plan, area, n) == b.rows_strokes(plan, area, n),
        a.rows_tools(plan, area, n) == b.rows_tools(plan, area, n),
        a.rows_links(plan, area, n) == b.rows_links(plan, area, n),
    decreases n,
{
    if n > 0 {
        lemma_rows(a, b, plan, area, n - 1);
    }
}

} // verus!
