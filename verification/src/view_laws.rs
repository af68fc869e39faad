//! What holds of where things are drawn.

use crate::draw::{Stroke, Tone, Word};
use crate::entry::{Link, TranscriptEntry};
use crate::floating::{dotted, popup, Popup};
use crate::geometry::{inside, Position, Rect};
use crate::keybindings::{bindings, help_lines, padded};
use crate::panes::App;
use crate::panes_view::{divider_strokes, hint_fits, split};
use crate::root::{Frames, Root};
use crate::root_view::{columns_of, notice_popup};
use crate::scroll::Plan;
use crate::text::display_width;
use crate::transcript::{Story, ToolHitRegion};
use crate::transcript_view::{hint, link_hit, screen_row, stale_indices, update_hint};
use crate::cache::Kept;
use crate::numeral::decimal;
use vstd::prelude::*;

verus! {

/// The parts of a session cover its area from top to bottom: the transcript, the prompts that wait,
/// and the draft, each as wide as the area but for the prompts, which stand in the middle. The text
/// of the draft stands inside its frame.
pub proof fn law_the_parts_cover_the_area(root: Root, area: Rect)
    requires
        area.fits(),
    ensures
        ({
            let places = root.places(area);
            &&& places.transcript.x == area.x && places.transcript.width == area.width
            &&& places.transcript.y == area.y
            &&& places.transcript.y + places.transcript.height == places.queue.y
            &&& places.queue.y + places.queue.height == places.composer.y
            &&& places.composer.y + places.composer.height == area.y + area.height
            &&& places.composer.x == area.x && places.composer.width == area.width
            &&& area.x <= places.queue.x && places.queue.x + places.queue.width <= area.x
                + area.width
            &&& places.composer.width >= 2 && places.composer.height >= 3 ==> places.content
                == inside(places.composer)
            &&& places.composer.height <= root.composer.height_in(area.width as int)
            &&& places.queue.height <= root.queue.height()
        }),
{
    let width = area.width as int;
    assert(0 <= width * 95 / 100 <= width) by (nonlinear_arith)
        requires
            width >= 0,
    ;
    let queue_width = crate::geometry::least(area.width * 95, u16::MAX as int) / 100;
    assert(0 <= queue_width <= width) by {
        if area.width * 95 > u16::MAX {
            assert(queue_width == 655);
        }
    }
    assert(root.composer.height_in(width) >= 1);
    assert(root.queue.height() >= 0);
}

/// Two panes stand side by side with one column between them; they are equally wide, or the second
/// is one column wider. Together they cover the area, and their content leaves out the row of the
/// hint, where there is one.
pub proof fn law_panes_stand_side_by_side(area: Rect)
    requires
        area.fits(),
        area.width >= 1,
    ensures
        ({
            let parts = split(area);
            let row: int = if hint_fits(area) {
                1
            } else {
                0
            };
            &&& parts.main.x == area.x
            &&& parts.main.x + parts.main.width == parts.divider
            &&& parts.fork.x == parts.divider + 1
            &&& parts.fork.x + parts.fork.width == area.x + area.width
            &&& parts.main.width <= parts.fork.width <= parts.main.width + 1
            &&& parts.main.y == area.y && parts.main.height == area.height
            &&& parts.fork.y == area.y && parts.fork.height == area.height
            &&& parts.main_content.x == parts.main.x && parts.main_content.width
                == parts.main.width
            &&& parts.fork_content.x == parts.fork.x && parts.fork_content.width
                == parts.fork.width
            &&& parts.main_content.y == area.y + row && parts.main_content.height == area.height
                - row
            &&& parts.fork_content.y == area.y + row && parts.fork_content.height == area.height
                - row
        }),
{
}

/// No cell belongs to both panes.
pub proof fn law_panes_do_not_overlap(area: Rect, p: Position)
    requires
        area.fits(),
        area.width >= 1,
    ensures
        !(split(area).main.covers(p) && split(area).fork.covers(p)),
        area.covers(p) ==> split(area).main.covers(p) || split(area).fork.covers(p) || p.x
            == split(area).divider,
{
}

/// A session alone has the whole area; with a fork, each has its half, and the line between them is
/// drawn in every row.
pub proof fn law_one_session_has_the_whole_area(app: App, area: Rect, n: int)
    requires
        !area.empty(),
        0 <= n,
    ensures
        app.fork is None ==> app.arrangement(area).main_place() == Some(area) && app.arrangement(
            area,
        ).fork_place() is None && app.arranged(area).main_area == area,
        app.fork is Some ==> app.arrangement(area).main_place() == Some(split(area).main_content)
            && app.arrangement(area).fork_place() == Some(split(area).fork_content)
            && app.arranged(area).main_area == split(area).main && app.arranged(area).fork_area
            == split(area).fork,
        divider_strokes(area, split(area).divider as int, n).len() == n,
        forall|i: int|
            0 <= i < n ==> #[trigger] divider_strokes(area, split(area).divider as int, n)[i]
                == (Stroke::Symbol {
                x: split(area).divider as int,
                y: area.y + i,
                symbol: '│',
                look: crate::draw::colored(Tone::Border),
            }),
    decreases n,
{
    if n > 0 {
        law_one_session_has_the_whole_area(app, area, n - 1);
    }
}

/// What is written in a popup stands inside its frame, above its footer.
pub proof fn law_popups_have_a_frame(frame: Popup, area: Rect, p: Position)
    requires
        area.fits(),
        0 <= frame.width,
        0 <= frame.height,
        frame.body(area).covers(p),
    ensures
        frame.place(area).covers(p),
        p.x != frame.place(area).x,
        p.y != frame.place(area).y,
        p.x + 1 < frame.place(area).x + frame.place(area).width,
        p.y + 1 < frame.place(area).y + frame.place(area).height,
        frame.footer is Some ==> p.y + 2 < frame.place(area).y + frame.place(area).height,
{
}

/// The footer of a popup names its keys in order, with a dot between two.
pub proof fn law_footers_name_the_keys(keys: Seq<&'static str>, title: Seq<char>, n: int)
    requires
        0 < n <= keys.len(),
    ensures
        n == 1 ==> dotted(keys, n) == keys[0]@,
        n > 1 ==> dotted(keys, n) == dotted(keys, n - 1) + " · "@ + keys[n - 1]@,
        popup(title, 10, 10, keys).footer == Some(dotted(keys, keys.len() as int)),
        popup(title, 10, 10, Seq::empty()).footer is None,
        popup(title, 10, 10, keys).title == title,
        !popup(title, 10, 10, keys).at_top,
{
}

/// A message stands at the top of the screen, in a frame of its colour that leaves a cell on each
/// side of the text.
pub proof fn law_notices_stand_at_the_top(message: Seq<Word>, color: Tone)
    requires
        columns_of(message, message.len() as int) + 4 <= u16::MAX,
    ensures
        notice_popup(message, color).at_top,
        notice_popup(message, color).border == color,
        notice_popup(message, color).width == columns_of(message, message.len() as int) + 4,
        notice_popup(message, color).height == 3,
        notice_popup(message, color).footer is None,
{
}

/// A session is due no later than any of its parts: its message, the time to press escape again, its
/// transcript, its subagents and the prompts that wait.
pub proof fn law_a_session_is_due_with_its_first_part(root: Root, frames: Frames)
    ensures
        root.notification matches Some(notice) ==> root.deadline(frames) is Some && root.deadline(
            frames,
        )->0 <= notice.deadline,
        root.escape_deadline matches Some(time) ==> root.deadline(frames) is Some && root.deadline(
            frames,
        )->0 <= time,
        root.transcript.deadline() matches Some(time) ==> root.deadline(frames) is Some
            && root.deadline(frames)->0 <= time,
        frames.queue matches Some(time) ==> root.deadline(frames) is Some && root.deadline(
            frames,
        )->0 <= time,
        root.composer.status is Some && frames.activity is Some ==> root.deadline(frames) is Some
            && root.deadline(frames)->0 <= frames.activity->0,
        root.composer.subagents > 0 && frames.subagents is Some ==> root.deadline(frames) is Some
            && root.deadline(frames)->0 <= frames.subagents->0,
        root.overlay is Some && root.overlay->0 is Effort && frames.effort is Some
            ==> root.deadline(frames) is Some && root.deadline(frames)->0 <= frames.effort->0,
        root.subagents.deadline(root.subagents.nodes.len() as int) matches Some(time)
            ==> root.deadline(frames) is Some && root.deadline(frames)->0 <= time,
{
}

/// The transcripts of subagents are due with the first of them.
pub proof fn law_subagents_are_due_with_the_first(
    forest: crate::subagents::Forest,
    n: int,
    i: int,
)
    requires
        0 <= i < n <= forest.nodes.len(),
    ensures
        forest.nodes[i].story.deadline() matches Some(time) ==> forest.deadline(n) is Some
            && forest.deadline(n)->0 <= time,
    decreases n,
{
    if i < n - 1 {
        law_subagents_are_due_with_the_first(forest, n - 1, i);
    }
}

/// The draft shows the cursor only where nothing in front of it has the focus.
pub proof fn law_one_part_has_the_cursor(root: Root, focused: bool)
    ensures
        root.composer_focused(focused) ==> focused && !root.queue.focused
            && !root.transcript.tools_focused,
        focused && !root.queue.focused && !root.transcript.tools_focused ==> root.composer_focused(
            focused,
        ),
{
}

/// A text is filled up with blanks to the length that is asked for, and is not cut.
pub proof fn law_texts_are_filled_up(text: Seq<char>, length: int)
    ensures
        text.len() >= length ==> padded(text, length) == text,
        text.len() <= length ==> padded(text, length).len() == length,
        text.is_prefix_of(padded(text, length)),
        forall|i: int|
            text.len() <= i < padded(text, length).len() ==> #[trigger] padded(text, length)[i]
                == ' ',
    decreases length - text.len(),
{
    if text.len() < length {
        let next = text.push(' ');
        law_texts_are_filled_up(next, length);
        let all = padded(next, length);
        assert(all == padded(text, length));
        assert(next == all.take(next.len() as int));
        assert(text =~= all.take(text.len() as int));
        assert forall|i: int| text.len() <= i < all.len() implies #[trigger] all[i] == ' ' by {
            if i == text.len() {
                assert(all.take(next.len() as int)[i] == ' ');
            }
        }
    }
}

/// As many keys are explained as have room, one in each row from the top.
pub proof fn law_keys_are_explained_row_by_row(body: Rect, n: int)
    requires
        body.fits(),
        0 <= n <= bindings().len(),
    ensures
        help_lines(body, n).len() == crate::geometry::least(n, body.height as int),
        forall|i: int|
            0 <= i < help_lines(body, n).len() ==> #[trigger] help_lines(body, n)[i] == (
            Stroke::Line {
                area: Rect { y: (body.y + i) as u16, height: 1, ..body },
                line: crate::keybindings::binding_line(bindings()[i]),
                centered: false,
            }),
    decreases n,
{
    if n > 0 {
        law_keys_are_explained_row_by_row(body, n - 1);
    }
}

/// The entries that are laid out anew are those whose rows are not known, in their order.
pub proof fn law_stale_entries_are_laid_out(
    kept: Kept,
    entries: Seq<TranscriptEntry>,
    width: u16,
    n: int,
    i: int,
)
    requires
        0 <= n <= entries.len(),
    ensures
        stale_indices(kept, entries, width, n).contains(i) <==> 0 <= i < n && !kept.fresh(
            entries[i],
            width,
        ),
    decreases n,
{
    if n > 0 {
        law_stale_entries_are_laid_out(kept, entries, width, n - 1, i);
        let rest = stale_indices(kept, entries, width, n - 1);
        let all = stale_indices(kept, entries, width, n);
        if rest.contains(i) {
            let k = choose|k: int| 0 <= k < rest.len() && rest[k] == i;
            assert(all[k] == i);
        }
        if !kept.fresh(entries[n - 1], width) {
            assert(all[rest.len() as int] == n - 1);
            if all.contains(i) {
                let k = choose|k: int| 0 <= k < all.len() && all[k] == i;
                if k < rest.len() {
                    assert(rest[k] == i);
                }
            }
        }
    }
}

/// A tool call can be clicked on exactly in the row of its summary: where the first row of the call
/// is drawn.
pub proof fn law_calls_are_clicked_where_they_are_drawn(
    story: Story,
    plan: Plan,
    area: Rect,
    n: int,
    hit: ToolHitRegion,
)
    requires
        0 <= n <= plan.rows.len(),
        0 <= plan.padding,
        area.y + plan.padding + n <= u16::MAX,
    ensures
        story.rows_tools(plan, area, n).contains(hit) <==> exists|i: int|
            0 <= i < n && story.tool_at(#[trigger] plan.rows[i]) is Some && hit.entry
                == plan.rows[i].entry && hit.row == area.y + plan.padding + i,
    decreases n,
{
    if n > 0 {
        law_calls_are_clicked_where_they_are_drawn(story, plan, area, n - 1, hit);
        let rest = story.rows_tools(plan, area, n - 1);
        let all = story.rows_tools(plan, area, n);
        let last = ToolHitRegion {
            entry: plan.rows[n - 1].entry,
            row: (area.y + plan.padding + n - 1) as u16,
        };
        assert(screen_row(area, plan.padding, n - 1) == area.y + plan.padding + n - 1);
        if rest.contains(hit) {
            let k = choose|k: int| 0 <= k < rest.len() && rest[k] == hit;
            assert(all[k] == hit);
        }
        if story.tool_at(plan.rows[n - 1]) is Some {
            assert(all[rest.len() as int] == last);
            if all.contains(hit) {
                let k = choose|k: int| 0 <= k < all.len() && all[k] == hit;
                if k < rest.len() {
                    assert(rest[k] == hit);
                } else {
                    assert(story.tool_at(plan.rows[n - 1]) is Some);
                }
            }
        }
    }
}

/// The cells of a link begin as many columns from the left as it does in its row, end likewise, and
/// do not reach beyond the area.
pub proof fn law_links_are_where_they_are_drawn(link: Link, area: Rect, y: int)
    requires
        area.fits(),
        0 <= y <= u16::MAX,
        0 <= link.start <= link.end,
        area.x + link.end <= u16::MAX,
    ensures
        link_hit(link, area, y).row == y,
        link_hit(link, area, y).start == area.x + link.start,
        link_hit(link, area, y).end <= area.x + area.width,
        link.end <= area.width ==> link_hit(link, area, y).end == area.x + link.end,
        link_hit(link, area, y).destination == link.destination,
{
}

/// A hint stands at the right of the first row: in its long form where that has room, otherwise in
/// its short one, and not at all where neither has.
pub proof fn law_hints_stand_at_the_right(
    area: Rect,
    long: Seq<char>,
    short: Seq<char>,
    tone: Tone,
)
    requires
        area.fits(),
    ensures
        ({
            let drawn = hint(area, long, short, tone);
            let label = if display_width(long) <= area.width {
                long
            } else {
                short
            };
            &&& display_width(long) > area.width && display_width(short) > area.width ==> drawn.len()
                == 0
            &&& display_width(label) <= area.width ==> drawn.len() == 1 && drawn[0] is Line
                && drawn[0]->Line_line[0].text == label && drawn[0]->Line_area.y == area.y
                && drawn[0]->Line_area.width == display_width(label) && drawn[0]->Line_area.x
                + drawn[0]->Line_area.width == area.x + area.width
        }),
{
}

/// One change is named in the singular.
pub proof fn law_changes_are_counted(count: int, end: Seq<char>)
    ensures
        update_hint(1, end) == "↓ "@ + decimal(1) + " update"@ + end,
        count != 1 ==> update_hint(count, end) == "↓ "@ + decimal(count) + " updates"@ + end,
{
}

/// The changes that have not been seen are told away from the end, and the keys of the tool calls
/// while these have the focus; otherwise nothing is told.
pub proof fn law_hints_tell_what_is_missed(story: Story, area: Rect)
    ensures
        !story.tools_focused && (story.viewport.scroll is Follow || story.viewport.new_updates == 0)
            ==> story.hint_strokes(area).len() == 0,
        story.tools_focused ==> story.hint_strokes(area) == hint(
            area,
            "↑↓ tool · Enter toggle · Esc back"@,
            "↑↓ tool · Enter · Esc"@,
            Tone::Accent,
        ),
{
}

} // verus!
