//! What holds of a transcript.

use crate::entry::TranscriptEntry;
use crate::event::{Event, KeyCode, KeyEvent, MouseEvent, MouseKind};
use crate::geometry::{least, minus, most};
use crate::node::RenderRequest;
use crate::scroll::{
    distinct, is_row, law_frames_keep_the_top, law_places_tell_rows_apart, law_rows_have_places,
    law_scrolling_moves_by_rows, place, row_count, Anchor, Flow, ScrollCommand, ScrollState,
};
use crate::transcript::{
    entry_index, hit_in_row, is_seen_tool, link_at, status_text, tool_after, tool_before, Change,
    LinkHit, Story, ToolCommand, ToolHitRegion, TranscriptEvent, TransientStatus,
};
use vstd::prelude::*;

verus! {

/// The transcript after an event that asks for scrolling.
pub open spec fn scrolled(story: Story, event: Event) -> Story {
    story.on_event(TranscriptEvent::Scroll(story.scrolling(event)->0)).story
}

/// Page down asks for rows towards the end and page up for as many towards the start: all rows that
/// are seen but two, one at least.
pub proof fn law_page_keys_are_opposite(story: Story, up: KeyEvent, down: KeyEvent)
    requires
        up.down(),
        up.code == KeyCode::PageUp,
        down.down(),
        down.code == KeyCode::PageDown,
    ensures
        match (story.scrolling(Event::Key(down)), story.scrolling(Event::Key(up))) {
            (Some(ScrollCommand::Rows(n)), Some(ScrollCommand::Rows(m))) => {
                &&& n >= 1
                &&& story.viewport_height <= 2 ==> n == 1
                &&& story.viewport_height > 2 ==> n == story.viewport_height - 2
                &&& m == -n
            },
            _ => false,
        },
{
}

/// The wheel asks for three rows towards the end or towards the start, whichever way it turns, and
/// for none while shift is down.
pub proof fn law_the_wheel_turns_both_ways(story: Story, up: MouseEvent, down: MouseEvent)
    requires
        up.kind == MouseKind::ScrollUp,
        down.kind == MouseKind::ScrollDown,
    ensures
        up.modifiers.shift ==> story.scrolling(Event::Mouse(up)) is None,
        down.modifiers.shift ==> story.scrolling(Event::Mouse(down)) is None,
        !up.modifiers.shift && !down.modifiers.shift ==> match (
            story.scrolling(Event::Mouse(down)),
            story.scrolling(Event::Mouse(up)),
        ) {
            (Some(ScrollCommand::Rows(n)), Some(ScrollCommand::Rows(m))) => n == 3 && m == -n,
            _ => false,
        },
{
}

/// Page down never moves the row that is seen first towards the start: it moves by as many rows as
/// are asked for, and no further than to the end.
pub proof fn law_page_down_moves_on(
    story: Story,
    down: KeyEvent,
    list: Seq<Flow>,
    height: int,
    a: Anchor,
)
    requires
        distinct(list),
        is_row(list, a),
        height > 0,
        place(list, a) <= minus(row_count(list), height),
        story.viewport.scroll == ScrollState::Detached(a),
        story.viewport.pending_tool is None,
        down.down(),
        down.code == KeyCode::PageDown,
    ensures
        scrolled(story, Event::Key(down)).viewport.top(list, height) matches Some(b) && is_row(
            list,
            b,
        ) && place(list, a) <= place(list, b) && place(list, b) == least(
            place(list, a) + most(story.viewport_height - 2, 1),
            minus(row_count(list), height),
        ),
{
    law_page_keys_are_opposite(story, KeyEvent { code: KeyCode::PageUp, ..down }, down);
    let n = story.scrolling(Event::Key(down))->0->Rows_0;
    law_rows_have_places(list, a);
    law_scrolling_moves_by_rows(scrolled(story, Event::Key(down)).viewport, list, height, a, n);
}

/// Away from both ends, page up and then page down bring back the rows that were seen.
pub proof fn law_page_up_and_down(
    story: Story,
    up: KeyEvent,
    down: KeyEvent,
    list: Seq<Flow>,
    height: int,
    a: Anchor,
)
    requires
        distinct(list),
        is_row(list, a),
        height > 0,
        most(story.viewport_height - 2, 1) <= place(list, a) <= minus(row_count(list), height),
        story.viewport.scroll == ScrollState::Detached(a),
        story.viewport.pending_tool is None,
        up.down(),
        up.code == KeyCode::PageUp,
        down.down(),
        down.code == KeyCode::PageDown,
    ensures
        ({
            let first = scrolled(story, Event::Key(up));
            let drawn = Story { viewport: first.viewport.after_plan(list, height), ..first };
            scrolled(drawn, Event::Key(down)).viewport.top(list, height) == Some(a)
        }),
{
    law_page_keys_are_opposite(story, up, down);
    let n = story.scrolling(Event::Key(down))->0->Rows_0;
    let first = scrolled(story, Event::Key(up));
    law_scrolling_moves_by_rows(first.viewport, list, height, a, (-n) as i32);
    law_frames_keep_the_top(first.viewport, list, height);
    let b = first.viewport.top(list, height)->0;
    let drawn = Story { viewport: first.viewport.after_plan(list, height), ..first };
    law_page_keys_are_opposite(drawn, up, down);
    let last = scrolled(drawn, Event::Key(down));
    law_scrolling_moves_by_rows(last.viewport, list, height, b, n);
    law_places_tell_rows_apart(list, last.viewport.top(list, height)->0, a);
}

/// The keys for the start and the end scroll there with the control key, and not without it.
pub proof fn law_home_and_end_need_control(story: Story, home: KeyEvent, end: KeyEvent)
    requires
        home.down(),
        home.code == KeyCode::Home,
        end.down(),
        end.code == KeyCode::End,
    ensures
        story.scrolling(Event::Key(home)) == if home.modifiers.control {
            Some(ScrollCommand::Home)
        } else {
            None
        },
        story.scrolling(Event::Key(end)) == if end.modifiers.control {
            Some(ScrollCommand::End)
        } else {
            None
        },
{
}

proof fn lemma_tool_before(entries: Seq<TranscriptEntry>, n: int)
    requires
        0 <= n <= entries.len(),
    ensures
        -1 <= tool_before(entries, n) < n,
        tool_before(entries, n) >= 0 ==> is_seen_tool(entries[tool_before(entries, n)]),
        forall|k: int| tool_before(entries, n) < k < n ==> !is_seen_tool(#[trigger] entries[k]),
    decreases n,
{
    if n > 0 && !is_seen_tool(entries[n - 1]) {
        lemma_tool_before(entries, n - 1);
    }
}

proof fn lemma_tool_after(entries: Seq<TranscriptEntry>, from: int)
    requires
        0 <= from <= entries.len(),
    ensures
        tool_after(entries, from) == -1 || from <= tool_after(entries, from) < entries.len(),
        tool_after(entries, from) >= 0 ==> is_seen_tool(entries[tool_after(entries, from)]),
        forall|k: int|
            from <= k < entries.len() && (tool_after(entries, from) < 0 || k < tool_after(
                entries,
                from,
            )) ==> !is_seen_tool(#[trigger] entries[k]),
    decreases entries.len() - from,
{
    if from < entries.len() && !is_seen_tool(entries[from]) {
        lemma_tool_after(entries, from + 1);
    }
}

proof fn lemma_entry_index(entries: Seq<TranscriptEntry>, id: u64, from: int)
    requires
        0 <= from <= entries.len(),
    ensures
        from <= entry_index(entries, id, from) <= entries.len(),
        entry_index(entries, id, from) < entries.len() ==> entries[entry_index(
            entries,
            id,
            from,
        )].id == id,
    decreases entries.len() - from,
{
    if from < entries.len() && entries[from].id != id {
        lemma_entry_index(entries, id, from + 1);
    }
}

/// The next tool call is the first one that is shown behind the selected one, and the previous one
/// the last that is shown before it. Where none is selected, both keys select the last that is
/// shown. Where there is none, the selection stays.
pub proof fn law_tools_are_selected_in_turn(story: Story, down: bool, at: int, i: int)
    requires
        0 <= at <= story.content.entries.len(),
        story.selected_tool matches Some(id) ==> at == entry_index(story.content.entries, id, 0)
            && at < story.content.entries.len(),
        story.selected_tool is None ==> at == story.content.entries.len(),
        i == story.neighbour(down),
    ensures
        ({
            let entries = story.content.entries;
            let step = story.tool_selected(down);
            let goes_down = down && at < entries.len();
            &&& i < 0 ==> step.story == story && forall|k: int|
                0 <= k < entries.len() && (if goes_down { k > at } else { k < at })
                    ==> !is_seen_tool(#[trigger] entries[k])
            &&& i >= 0 ==> i < entries.len() && is_seen_tool(entries[i])
                && step.story.selected_tool == Some(entries[i].id)
            &&& i >= 0 && goes_down ==> i > at && forall|k: int|
                at < k < i ==> !is_seen_tool(#[trigger] entries[k])
            &&& i >= 0 && !goes_down ==> i < at && forall|k: int|
                i < k < at ==> !is_seen_tool(#[trigger] entries[k])
        }),
{
    let entries = story.content.entries;
    lemma_tool_before(entries, at);
    if at < entries.len() {
        lemma_tool_after(entries, at + 1);
    }
}

/// The arrow keys and the enter key belong to the tool calls while these have the focus, and not
/// otherwise.
pub proof fn law_focused_tools_take_the_keys(story: Story, key: KeyEvent)
    requires
        key.down(),
    ensures
        !story.tools_focused ==> story.commanding(Event::Key(key)) is None,
        story.tools_focused && key.code == KeyCode::Up ==> story.commanding(Event::Key(key))
            == Some(ToolCommand::Previous),
        story.tools_focused && key.code == KeyCode::Down ==> story.commanding(Event::Key(key))
            == Some(ToolCommand::Next),
        story.tools_focused && key.code == KeyCode::Enter ==> story.commanding(Event::Key(key))
            == Some(ToolCommand::Toggle),
{
}

proof fn lemma_hit(hits: Seq<ToolHitRegion>, row: u16, from: int)
    requires
        0 <= from <= hits.len(),
    ensures
        hit_in_row(hits, row, from) is None <==> forall|i: int|
            from <= i < hits.len() ==> (#[trigger] hits[i]).row != row,
        hit_in_row(hits, row, from) matches Some(entry) ==> exists|i: int|
            from <= i < hits.len() && (#[trigger] hits[i]).row == row && hits[i].entry == entry,
    decreases hits.len() - from,
{
    if from < hits.len() {
        if hits[from].row != row {
            lemma_hit(hits, row, from + 1);
        }
    }
}

/// A click on the row of a tool call takes the focus to it and folds or unfolds it, and it stays in
/// its row; the others stay as they are.
pub proof fn law_a_click_folds_the_call(story: Story, row: u16)
    ensures
        hit_in_row(story.tool_hits, row, 0) is None ==> story.on_event(
            TranscriptEvent::Tool(ToolCommand::Click { row }),
        ).story == story,
        hit_in_row(story.tool_hits, row, 0) is None <==> forall|i: int|
            0 <= i < story.tool_hits.len() ==> (#[trigger] story.tool_hits[i]).row != row,
        hit_in_row(story.tool_hits, row, 0) matches Some(id) ==> {
            let entries = story.content.entries;
            let i = entry_index(entries, id, 0);
            let next = story.on_event(TranscriptEvent::Tool(ToolCommand::Click { row })).story;
            i < entries.len() ==> {
                &&& next.tools_focused
                &&& next.selected_tool == Some(id)
                &&& next.kept.unfolds(entries[i]) == !story.kept.unfolds(entries[i])
                &&& next.content == story.content
                &&& forall|k: int|
                    0 <= k < entries.len() && entries[k].id != id ==> next.kept.unfolds(
                        #[trigger] entries[k],
                    ) == story.kept.unfolds(entries[k])
            }
        },
{
    lemma_hit(story.tool_hits, row, 0);
    if let Some(id) = hit_in_row(story.tool_hits, row, 0) {
        lemma_entry_index(story.content.entries, id, 0);
    }
}

/// A click opens a link exactly if it hits the cells of one, and the first such link.
pub proof fn law_links_are_clicked_on(hits: Seq<LinkHit>, row: u16, column: u16, from: int)
    requires
        0 <= from <= hits.len(),
    ensures
        link_at(hits, row, column, from) is None <==> forall|i: int|
            from <= i < hits.len() ==> !((#[trigger] hits[i]).row == row && hits[i].start <= column
                < hits[i].end),
        link_at(hits, row, column, from) matches Some(destination) ==> exists|i: int|
            from <= i < hits.len() && (#[trigger] hits[i]).row == row && hits[i].start <= column
                < hits[i].end && hits[i].destination == destination,
    decreases hits.len() - from,
{
    if from < hits.len() {
        if !(hits[from].row == row && hits[from].start <= column && column < hits[from].end) {
            law_links_are_clicked_on(hits, row, column, from + 1);
        }
    }
}

/// A record that changes something shows it: at once if it is the user's, with the stream if it is
/// the agent's. Away from the end it is counted among the changes that have not been seen, and the
/// view stays where it is.
pub proof fn law_records_are_shown(story: Story, change: Change)
    requires
        story.viewport.new_updates < u64::MAX,
    ensures
        ({
            let step = story.on_event(TranscriptEvent::Record(change));
            &&& step.story.content == change.content@
            &&& step.story.viewport.scroll == story.viewport.scroll
            &&& step.story.viewport.pending_scroll == story.viewport.pending_scroll
            &&& change.changed && change.local ==> step.render == RenderRequest::Immediate
            &&& change.changed && !change.local ==> step.render == RenderRequest::Streaming
            &&& !change.changed ==> step.render == RenderRequest::Idle
            &&& change.changed && story.viewport.scroll is Detached
                ==> step.story.viewport.new_updates == story.viewport.new_updates + 1
            &&& !change.changed || story.viewport.scroll is Follow
                ==> step.story.viewport.new_updates == story.viewport.new_updates
            &&& step.effect is Some <==> change.content@.activity() != story.content.activity()
            &&& step.effect matches Some(activity) ==> activity.active == change.content.active
            &&& step.story.spinner is Some <==> change.content.running_tools
        }),
{
}

/// Once the end is followed, no change is left that has not been seen.
pub proof fn law_following_sees_everything(story: Story)
    ensures
        ({
            let step = story.on_event(TranscriptEvent::FollowTail);
            &&& step.story.viewport.scroll is Follow
            &&& step.story.viewport.new_updates == 0
            &&& step.story.viewport.pending_scroll is Stay
            &&& step.story.content == story.content
            &&& story.viewport.scroll is Detached ==> step.render == RenderRequest::Immediate
        }),
        story.tools_focused ==> !story.on_event(TranscriptEvent::BlurTools).story.tools_focused,
{
}

/// The next frame of a transcript is due with the first of its animations: the spinner while tools
/// run, the picture while it is empty.
pub proof fn law_the_first_animation_is_due(story: Story)
    ensures
        story.deadline() is None <==> story.spinner is None && !story.content.blank(),
        story.spinner matches Some(spinner) ==> story.deadline() is Some && story.deadline()->0
            <= spinner.next_frame,
        story.content.blank() ==> story.deadline() is Some && story.deadline()->0
            <= story.logo.next_frame,
        story.deadline() matches Some(time) ==> (story.spinner matches Some(spinner)
            && spinner.next_frame == time) || (story.content.blank() && story.logo.next_frame
            == time),
{
}

/// What goes on is told in its own words, and the words for a tool, a delay and an error hold what
/// they are about.
pub proof fn law_activities_are_told_apart(tool: String, delay: String, error: String)
    ensures
        status_text(TransientStatus::Thinking) == "Thinking…"@,
        status_text(TransientStatus::Responding) == "Responding…"@,
        status_text(TransientStatus::Warming) == "Warming model…"@,
        status_text(TransientStatus::WaitingForBackgroundWork) == "Waiting for background work…"@,
        status_text(TransientStatus::Compacting) == "Compacting context…"@,
        status_text(TransientStatus::Connecting) == "Connecting…"@,
        status_text(TransientStatus::Reconnecting) == "Reconnecting…"@,
        status_text(TransientStatus::Tool(tool)).take(8) == "Running "@,
        status_text(TransientStatus::Retrying(delay)).take(12) == "Retrying in "@,
        status_text(TransientStatus::Tool(tool)).skip(8).take(tool@.len() as int) == tool@,
        status_text(TransientStatus::Retrying(delay)).skip(12).take(delay@.len() as int) == delay@,
        status_text(TransientStatus::Error(error)) == error@,
{
    reveal_strlit("Running ");
    reveal_strlit("Retrying in ");
    assert(status_text(TransientStatus::Tool(tool)).take(8) =~= "Running "@);
    assert(status_text(TransientStatus::Retrying(delay)).take(12) =~= "Retrying in "@);
    assert(status_text(TransientStatus::Tool(tool)).skip(8).take(tool@.len() as int) =~= tool@);
    assert(status_text(TransientStatus::Retrying(delay)).skip(12).take(delay@.len() as int)
        =~= delay@);
}

/// The row of a call is that of its first hit; a call that was not drawn has none.
pub proof fn law_calls_are_found_where_they_are_drawn(
    hits: Seq<ToolHitRegion>,
    entry: u64,
    from: int,
)
    requires
        0 <= from <= hits.len(),
    ensures
        ({
            let found = crate::transcript::row_of_hit(hits, entry, from);
            &&& found is None <==> forall|i: int|
                from <= i < hits.len() ==> (#[trigger] hits[i]).entry != entry
            &&& found matches Some(row) ==> exists|i: int|
                from <= i < hits.len() && (#[trigger] hits[i]).entry == entry && hits[i].row == row
                    && forall|j: int| from <= j < i ==> (#[trigger] hits[j]).entry != entry
        }),
    decreases hits.len() - from,
{
    if from < hits.len() {
        if hits[from].entry == entry {
            assert(hits[from].entry == entry);
        } else {
            law_calls_are_found_where_they_are_drawn(hits, entry, from + 1);
            if let Some(row) = crate::transcript::row_of_hit(hits, entry, from + 1) {
                let i = choose|i: int|
                    from + 1 <= i < hits.len() && (#[trigger] hits[i]).entry == entry && hits[i].row
                        == row && forall|j: int|
                        from + 1 <= j < i ==> (#[trigger] hits[j]).entry != entry;
                assert(hits[i].entry == entry);
            }
        }
    }
}

/// A spinner turns exactly while a tool runs, and one that turns goes on without starting anew.
pub proof fn law_spinners_turn_while_tools_run(story: Story, running: bool, now: int)
    ensures
        story.spinner_for(running, now) is Some <==> running,
        running && story.spinner is Some ==> story.spinner_for(running, now) == story.spinner,
{
}

/// The end of a stream changes the transcript only where it changed the entries; then it is drawn at
/// once.
pub proof fn law_ended_streams_are_drawn(story: Story, change: Change)
    ensures
        ({
            let step = story.on_stream_closed(change);
            &&& !change.changed ==> step.story == story && step.render == RenderRequest::Idle
                && step.effect is None
            &&& change.changed ==> step.story.content == change.content@ && step.render
                == RenderRequest::Immediate && (step.story.spinner is Some
                <==> change.content@.running_tools)
            &&& step.story.viewport == story.viewport
        }),
{
}

/// A frame moves what is animated and nothing else; nothing is drawn where nothing moved.
pub proof fn law_frames_move_animations(story: Story, now: int)
    ensures
        ({
            let step = story.on_frame(now);
            &&& step.story.content == story.content
            &&& step.story.viewport == story.viewport
            &&& step.story.tools_focused == story.tools_focused
            &&& step.effect is None
            &&& step.story.spinner is Some <==> story.spinner is Some
            &&& story.spinner is None && !story.content.blank() ==> step.story == story
                && step.render == RenderRequest::Idle
            &&& story.spinner is Some && now >= story.spinner->0.next_frame ==> step.render
                == RenderRequest::Streaming
            &&& story.spinner is Some && now < story.spinner->0.next_frame ==> step.story.spinner
                == story.spinner
        }),
{
}

/// The selected call is folded where it was unfolded and unfolded where it was folded; without a
/// selected call nothing happens.
pub proof fn law_the_selected_call_is_toggled(story: Story, id: u64)
    ensures
        story.selected_tool is None ==> story.tool_toggled().story == story
            && story.tool_toggled().render == RenderRequest::Idle,
        story.selected_tool == Some(id) && entry_index(story.content.entries, id, 0)
            < story.content.entries.len() ==> ({
            let entry = story.content.entries[entry_index(story.content.entries, id, 0)];
            let step = story.tool_toggled();
            &&& step.story.kept.unfolds(entry) == !story.kept.unfolds(entry)
            &&& step.story.content == story.content
            &&& step.story.selected_tool == story.selected_tool
            &&& step.story.viewport.scroll == story.viewport.scroll
            &&& step.render == RenderRequest::Immediate
        }),
{
}

/// The calls lose the focus when they are asked to, once.
pub proof fn law_calls_lose_the_focus(story: Story)
    ensures
        ({
            let step = story.on_event(TranscriptEvent::BlurTools);
            &&& !step.story.tools_focused
            &&& story.tools_focused ==> step.render == RenderRequest::Immediate
            &&& !story.tools_focused ==> step.story == story && step.render == RenderRequest::Idle
            &&& step.story.content == story.content && step.story.selected_tool
                == story.selected_tool
        }),
{
}

/// What goes on is told when it changes, and only then.
pub proof fn law_changes_of_activity_are_told(story: Story, content: crate::transcript::Record)
    ensures
        story.news(content) is None <==> story.content.activity() == content.activity(),
        story.news(content) is Some ==> story.news(content)->0 == content.activity(),
{
}

} // verus!
