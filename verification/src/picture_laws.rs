//! What holds of what is drawn.

use crate::actions::{action_line, Action, ActionAvailability, MenuModel};
use crate::chrome::{content_strokes, edges, frame_strokes, token_strokes, Labels};
use crate::composer::{percent_of_window, ComposerChromeTarget, Composer};
use crate::draw::{colored, Look, Stroke, Tone};
use crate::file_finder::FinderModel;
use crate::floating::{popup, Popup};
use crate::geometry::{middle, Position, Rect};
use crate::layout::Row;
use crate::numeral::decimal;
use crate::prompt::Token;
use crate::queue::Line;
use crate::recent_prompts::{prompt_line, RecentModel, RecentPromptScope};
use crate::root::Root;
use crate::scroll::{Anchor, Plan};
use crate::search::{first_row, other_rows, search_strokes, Focus};
use crate::session_picker::{session_item, PickerModel};
use crate::text::{between, display_width};
use crate::tool::ToolState;
use crate::transcript::Story;
use crate::transcript_view::{flow_of, screen_row};
use vstd::prelude::*;

verus! {

proof fn lemma_edges(area: Rect, look: Look, n: int)
    requires
        0 <= n,
    ensures
        edges(area, look, n).len() == 2 * n,
        forall|c: int|
            0 <= c < n ==> {
                &&& #[trigger] edges(area, look, n)[2 * c] == (Stroke::Symbol {
                    x: area.x + c,
                    y: area.y as int,
                    symbol: '─',
                    look,
                })
                &&& edges(area, look, n)[2 * c + 1] == (Stroke::Symbol {
                    x: area.x + c,
                    y: area.y + area.height - 1,
                    symbol: '─',
                    look,
                })
            },
    decreases n,
{
    if n > 0 {
        lemma_edges(area, look, n - 1);
    }
}

/// A frame has a line in each column of its first and of its last row, and its four corners are
/// drawn over the lines, each rounded towards the inside.
pub proof fn law_frames_are_closed(area: Rect, look: Look, c: int)
    requires
        0 <= c < area.width,
    ensures
        ({
            let strokes = frame_strokes(area, look);
            let w = area.width as int;
            let right = area.x + area.width - 1;
            let bottom = area.y + area.height - 1;
            &&& strokes.len() == 2 * w + 4
            &&& strokes[2 * c] == (Stroke::Symbol {
                x: area.x + c,
                y: area.y as int,
                symbol: '─',
                look,
            })
            &&& strokes[2 * c + 1] == (Stroke::Symbol { x: area.x + c, y: bottom, symbol: '─', look })
            &&& strokes[2 * w] == (Stroke::Symbol {
                x: area.x as int,
                y: area.y as int,
                symbol: '╭',
                look,
            })
            &&& strokes[2 * w + 1] == (Stroke::Symbol {
                x: right,
                y: area.y as int,
                symbol: '╮',
                look,
            })
            &&& strokes[2 * w + 2] == (Stroke::Symbol {
                x: area.x as int,
                y: bottom,
                symbol: '╰',
                look,
            })
            &&& strokes[2 * w + 3] == (Stroke::Symbol { x: right, y: bottom, symbol: '╯', look })
        }),
{
    lemma_edges(area, look, area.width as int);
    assert(edges(area, look, area.width as int)[2 * c] == frame_strokes(area, look)[2 * c]);
}

/// The frame of a shell command is yellow, and no other one is.
pub proof fn law_shell_frames_are_yellow(labels: Labels)
    ensures
        labels.shell <==> labels.border().tone == Tone::Yellow,
        !labels.shell ==> labels.border().tone == Tone::Border,
{
}

/// The label on the left tells the share of the window, then the status, then the number of
/// subagents; where there is no status or no subagent, it says nothing of them.
pub proof fn law_the_left_label_tells_the_state(labels: Labels, status: Seq<char>)
    ensures
        ({
            let share = " "@ + decimal(percent_of_window(labels.tokens)) + "%/272k "@;
            let count = decimal(labels.subagents) + " subagents"@ + " "@;
            &&& labels.status is None && labels.subagents <= 0 ==> labels.usage() == share
            &&& labels.status == Some(status) && labels.subagents <= 0 ==> labels.usage() == share
                + status + " "@
            &&& labels.status is None && labels.subagents > 0 ==> labels.usage() == share + decimal(
                labels.subagents,
            ) + " subagents"@ + " "@
            &&& labels.status == Some(status) && labels.subagents > 0 ==> labels.usage() == share
                + status + " "@ + decimal(labels.subagents) + " subagents"@ + " "@
        }),
{
    let share = " "@ + decimal(percent_of_window(labels.tokens)) + "%/272k "@;
    assert(labels.usage_with_status() + (decimal(labels.subagents) + " subagents"@) + " "@
        =~= labels.usage_with_status() + decimal(labels.subagents) + " subagents"@ + " "@);
}

/// The label on the left ends before those on the right begin. The status and the subagents shimmer
/// where the label names them: as far to the right as what stands before them is wide.
pub proof fn law_left_labels_keep_their_place(labels: Labels, area: Rect)
    requires
        area.width >= 4,
        area.x + area.width <= u16::MAX,
        area.x + 2 + display_width(labels.usage_with_status()) <= u16::MAX,
        area.x + 2 + display_width(labels.usage_prefix()) <= u16::MAX,
    ensures
        ({
            let strokes = labels.left_strokes(area);
            let first = strokes[0];
            &&& first is Text && first->Text_x == area.x + 2 && first->Text_y == area.y
                && first->Text_text == labels.usage()
            &&& first->Text_limit > 0 ==> first->Text_x + first->Text_limit < labels.right_start(
                area,
            )
            &&& labels.status matches Some(status) ==> strokes.len() >= 2 && strokes[1]
                == (Stroke::Wave {
                x: area.x + 2 + display_width(labels.usage_prefix()),
                y: area.y as int,
                text: status,
                end: labels.right_start(area),
                tone: Tone::Cyan,
            })
            &&& labels.subagents > 0 ==> strokes.last() == (Stroke::Wave {
                x: area.x + 2 + display_width(labels.usage_with_status()),
                y: area.y as int,
                text: decimal(labels.subagents) + " subagents"@,
                end: labels.right_start(area),
                tone: Tone::Yellow,
            })
            &&& labels.status is None && labels.subagents <= 0 ==> strokes.len() == 1
        }),
{
}

/// The labels on the right are the model, the effort and, for a shell command, the mode; none goes
/// beyond the corner.
pub proof fn law_right_labels_keep_their_order(labels: Labels, area: Rect, i: int)
    requires
        area.width >= 4,
        0 <= i < labels.right_strokes(area).len(),
    ensures
        ({
            let strokes = labels.right_strokes(area);
            let end = area.x + area.width - 2;
            &&& strokes[0] is Text && strokes[0]->Text_text == " "@ + labels.model + " "@
                && strokes[0]->Text_x == labels.right_start(area)
            &&& strokes[i] is Text && strokes[i]->Text_y == area.y && strokes[i]->Text_x
                + strokes[i]->Text_limit == end
            &&& i >= 1 && strokes[i]->Text_look.tone == Tone::Effort(labels.effort)
                ==> strokes[i]->Text_text == " "@ + labels.effort.name() + " "@
            &&& strokes[i]->Text_look.tone == Tone::Yellow ==> labels.shell
                && strokes[i]->Text_text == " shell "@
            &&& labels.effort_start(area) < end ==> strokes.len() >= 2 && strokes[1]->Text_look.bold
                && strokes[1]->Text_x == labels.effort_start(area)
            &&& !labels.shell ==> strokes.len() <= 2
        }),
{
}

/// The directory ends in the corner below. Hints are given only where nothing is typed, and only
/// where they fit in front of the directory.
pub proof fn law_the_directory_is_in_the_corner(labels: Labels, area: Rect)
    requires
        area.width >= 4,
    ensures
        ({
            let strokes = labels.bottom_strokes(area);
            let last = strokes.last();
            &&& last is Text && last->Text_text == " "@ + labels.workspace + " "@
                && last->Text_y == area.y + area.height - 1
            &&& last->Text_x + last->Text_limit == area.x + area.width - 2
            &&& last->Text_limit <= display_width(" "@ + labels.workspace + " "@)
            &&& !labels.blank ==> strokes.len() == 1
            &&& strokes.len() == 2 ==> labels.blank && strokes[0] is Text && strokes[0]->Text_text
                == " / actions · @ files "@ && strokes[0]->Text_x + display_width(
                " / actions · @ files "@,
            ) <= last->Text_x
            &&& labels.blank && strokes.len() == 1 ==> area.x + 2 + display_width(
                " / actions · @ files "@,
            ) > last->Text_x
        }),
{
}

/// An image that stands wholly in a row is drawn over its text in blue; a row without images has
/// nothing drawn over it.
pub proof fn law_images_are_blue(
    text: Seq<char>,
    images: Seq<Token>,
    n: int,
    row: Row,
    x: int,
    y: int,
    columns: int,
    k: int,
)
    requires
        0 <= k < n <= images.len(),
    ensures
        row.start <= images[k].start < images[k].end <= row.end ==> exists|j: int|
            0 <= j < token_strokes(text, images, n, row, x, y, columns).len() && (
            #[trigger] token_strokes(text, images, n, row, x, y, columns)[j]) is Text
                && token_strokes(text, images, n, row, x, y, columns)[j]->Text_text == between(
                text,
                images[k].start,
                images[k].end,
            ) && token_strokes(text, images, n, row, x, y, columns)[j]->Text_look.tone == Tone::Blue
                && token_strokes(text, images, n, row, x, y, columns)[j]->Text_y == y,
        (forall|i: int|
            0 <= i < n ==> (#[trigger] images[i]).end <= row.start || images[i].start >= row.end)
            ==> token_strokes(text, images, n, row, x, y, columns).len() == 0,
    decreases n,
{
    let all = token_strokes(text, images, n, row, x, y, columns);
    let rest = token_strokes(text, images, n - 1, row, x, y, columns);
    if row.start <= images[k].start < images[k].end <= row.end {
        if k == n - 1 {
            assert(all[all.len() - 1] is Text);
        } else {
            law_images_are_blue(text, images, n - 1, row, x, y, columns, k);
            let j = choose|j: int|
                0 <= j < rest.len() && (#[trigger] rest[j]) is Text && rest[j]->Text_text == between(
                    text,
                    images[k].start,
                    images[k].end,
                ) && rest[j]->Text_look.tone == Tone::Blue && rest[j]->Text_y == y;
            assert(all[j] == rest[j]);
        }
    }
    if forall|i: int|
        0 <= i < n ==> (#[trigger] images[i]).end <= row.start || images[i].start >= row.end {
        assert(images[n - 1].end <= row.start || images[n - 1].start >= row.end);
        if n - 1 > 0 {
            law_images_are_blue(
                text,
                images,
                n - 1,
                row,
                x,
                y,
                columns,
                if k < n - 1 {
                    k
                } else {
                    0
                },
            );
        }
    }
}

/// Every row of the draft's frame has a line on both sides, and shows the row of the text that the
/// scrolling brings there, from the first column inside the frame on.
pub proof fn law_rows_are_drawn_between_the_sides(
    text: Seq<char>,
    images: Seq<Token>,
    list: Seq<Row>,
    scroll: int,
    area: Rect,
    look: Look,
    n: int,
    k: int,
)
    requires
        0 < k <= n,
        0 <= scroll,
    ensures
        ({
            let strokes = content_strokes(text, images, list, scroll, area, look, n);
            &&& strokes.contains(
                Stroke::Symbol { x: area.x as int, y: area.y + k, symbol: '│', look },
            )
            &&& strokes.contains(
                Stroke::Symbol { x: area.x + area.width - 1, y: area.y + k, symbol: '│', look },
            )
            &&& scroll + k - 1 < list.len() && area.width > 2 ==> strokes.contains(
                Stroke::Text {
                    x: area.x + 1,
                    y: area.y + k,
                    text: between(
                        text,
                        list[scroll + k - 1].start,
                        list[scroll + k - 1].end,
                    ),
                    limit: area.width - 2,
                    look: colored(Tone::Text),
                },
            )
        }),
    decreases n,
{
    let all = content_strokes(text, images, list, scroll, area, look, n);
    let rest = content_strokes(text, images, list, scroll, area, look, n - 1);
    let left = Stroke::Symbol { x: area.x as int, y: area.y + k, symbol: '│', look };
    let right = Stroke::Symbol { x: area.x + area.width - 1, y: area.y + k, symbol: '│', look };
    let line = Stroke::Text {
        x: area.x + 1,
        y: area.y + k,
        text: between(text, list[scroll + k - 1].start, list[scroll + k - 1].end),
        limit: area.width - 2,
        look: colored(Tone::Text),
    };
    if k == n {
        assert(all[rest.len() as int] == left);
        assert(all[rest.len() + 1int] == right);
        if scroll + k - 1 < list.len() && area.width > 2 {
            assert(all[rest.len() + 2int] == line);
        }
    } else {
        law_rows_are_drawn_between_the_sides(
            text,
            images,
            list,
            scroll,
            area,
            look,
            n - 1,
            k,
        );
        assert forall|stroke: Stroke| rest.contains(stroke) implies #[trigger] all.contains(
            stroke,
        ) by {
            let j = choose|j: int| 0 <= j < rest.len() && rest[j] == stroke;
            assert(all[j] == stroke);
        }
        assert(rest.contains(left) && rest.contains(right));
        assert(all.contains(left) && all.contains(right));
    }
}

/// A click finds the label that it hits, the subagents before the effort, and nothing elsewhere.
pub proof fn law_labels_are_found(composer: Composer, p: Position)
    ensures
        composer.target_at(p) == Some(ComposerChromeTarget::Subagents)
            <==> composer.subagent_hit_area is Some && composer.subagent_hit_area->0.covers(p),
        composer.target_at(p) is None <==> !(composer.subagent_hit_area is Some
            && composer.subagent_hit_area->0.covers(p)) && !(composer.effort_hit_area is Some
            && composer.effort_hit_area->0.covers(p)),
{
}

/// The cursor stays inside the frame.
pub proof fn law_the_cursor_stays_inside(composer: Composer, area: Rect)
    requires
        area.width >= 2,
        area.y < u16::MAX,
    ensures
        composer.cursor_cell(area) is Cursor,
        composer.cursor_cell(area)->Cursor_x <= area.x + area.width - 2,
        composer.cursor_cell(area)->Cursor_y >= area.y + 1,
{
}

/// A row of the transcript shows its line; a call that runs turns, and the selected call is marked
/// while the calls have the focus. No other row has a mark.
pub proof fn law_rows_are_marked(story: Story, a: Anchor, area: Rect, y: int)
    requires
        story.line_at(a) is Some,
        area.x <= 65000,
    ensures
        ({
            let strokes = story.row_strokes(a, area, y);
            let turning = story.tool_at(a) == Some(ToolState::Running) && story.spinner is Some;
            let chosen = story.tool_at(a) is Some && story.tools_focused && story.selected_tool
                == Some(a.entry);
            &&& strokes[0] is Line && strokes[0]->Line_line == story.line_at(a)->0
                && strokes[0]->Line_area.y == y as u16 && strokes[0]->Line_area.x == area.x
                && strokes[0]->Line_area.width == area.width
            &&& strokes.len() == 1 <==> !turning && !chosen
            &&& turning ==> strokes[1] is Text && strokes[1]->Text_x == area.x + 4
                && strokes[1]->Text_text == story.spinner->0.mark()
            &&& chosen ==> strokes.last() is Text && strokes.last()->Text_x == area.x
                && strokes.last()->Text_text == "›"@
        }),
{
}

/// An entry takes as many rows as were laid out for it, and each of them has a line.
pub proof fn law_rows_have_lines(story: Story, entry: crate::entry::TranscriptEntry, line: usize)
    requires
        story.kept.entries.contains_key(entry.id),
        story.kept.entries[entry.id].layout.lines@.len() <= usize::MAX,
    ensures
        flow_of(story.kept, entry).id == entry.id,
        flow_of(story.kept, entry).hidden == entry.hidden,
        story.line_at(Anchor { entry: entry.id, line }) is Some <==> line < flow_of(
            story.kept,
            entry,
        ).height,
{
}

/// Links are clicked on in the rows in which they are drawn.
pub proof fn law_links_stand_in_seen_rows(story: Story, plan: Plan, area: Rect, n: int, k: int)
    requires
        0 <= n <= plan.rows.len(),
        0 <= k < story.rows_links(plan, area, n).len(),
    ensures
        exists|i: int|
            0 <= i < n && story.rows_links(plan, area, n)[k].row == #[trigger] screen_row(
                area,
                plan.padding,
                i,
            ) as u16,
    decreases n,
{
    if n > 0 {
        let front = story.rows_links(plan, area, n - 1);
        if k < front.len() {
            law_links_stand_in_seen_rows(story, plan, area, n - 1, k);
            let i = choose|i: int|
                0 <= i < n - 1 && front[k].row == #[trigger] screen_row(
                    area,
                    plan.padding,
                    i,
                ) as u16;
            assert(story.rows_links(plan, area, n)[k] == front[k]);
            assert(screen_row(area, plan.padding, i) as u16 == front[k].row);
        } else {
            assert(story.rows_links(plan, area, n)[k].row == screen_row(
                area,
                plan.padding,
                n - 1,
            ) as u16);
        }
    }
}

/// A frame leaves the entries as they are and remembers where they were drawn; an empty transcript
/// has nothing to click on.
pub proof fn law_frames_leave_the_entries(story: Story, area: Rect)
    ensures
        story.rendered(area).content == story.content,
        story.rendered(area).viewport_height == area.height,
        story.rendered(area).y == area.y,
        story.rendered(area).tools_focused == story.tools_focused,
        story.rendered(area).spinner == story.spinner,
        story.content.blank() ==> story.rendered(area).tool_hits.len() == 0 && story.rendered(
            area,
        ).link_hits.len() == 0 && story.rendered(area).viewport == story.viewport,
        area.empty() ==> story.rendered(area).viewport == story.viewport && story.frame_plan(
            area,
        ).rows.len() == 0,
        story.picture(area)[0] == (Stroke::Clear { area }),
{
}

/// The line of a search names what it is, shows the end of the query, and has the cursor exactly
/// while it has the focus, within its area.
pub proof fn law_the_search_line(query: Seq<char>, focused: bool, area: Rect)
    requires
        !area.empty(),
    ensures
        ({
            let strokes = search_strokes(query, focused, area);
            &&& strokes[0] is Line && strokes[0]->Line_area == area && strokes[0]->Line_line.len() == 3
            &&& strokes[0]->Line_line[0].text == if focused {
                "› "@
            } else {
                "  "@
            }
            &&& strokes[0]->Line_line[1].text == "Search: "@
            &&& strokes.len() == 2 <==> focused
            &&& focused ==> strokes[1] is Cursor && strokes[1]->Cursor_y == area.y && area.x
                <= strokes[1]->Cursor_x < area.x + area.width
            &&& focused && display_width(strokes[0]->Line_line[0].text) + display_width(
                strokes[0]->Line_line[1].text,
            ) + display_width(strokes[0]->Line_line[2].text) < area.width ==> strokes[1]->Cursor_x
                == area.x + display_width(strokes[0]->Line_line[0].text) + display_width(
                strokes[0]->Line_line[1].text,
            ) + display_width(strokes[0]->Line_line[2].text)
        }),
        search_strokes(query, focused, Rect { width: 0, ..area }).len() == 0,
{
}

/// A popup with a search has it in its first row, and the list in all the others.
pub proof fn law_the_list_stands_below_the_search(body: Rect)
    requires
        body.height > 0,
        body.y + body.height <= u16::MAX,
    ensures
        first_row(body).y == body.y,
        first_row(body).height == 1,
        other_rows(body).y == body.y + 1,
        other_rows(body).height + 1 == body.height,
        other_rows(body).x == body.x && first_row(body).x == body.x,
        other_rows(body).width == body.width && first_row(body).width == body.width,
{
}

/// The list of prompts and the preview share what is below the first row: the list takes half of it,
/// seven rows at most, and the preview the rest.
pub proof fn law_the_preview_stands_below_the_list(body: Rect)
    requires
        body.height > 0,
        body.y + body.height <= u16::MAX,
    ensures
        ({
            let list = RecentModel::list_area(body);
            let preview = RecentModel::preview_area(body);
            &&& list.y == body.y + 1
            &&& preview.y == list.y + list.height
            &&& preview.y + preview.height == body.y + body.height
            &&& list.height <= 7
            &&& body.height <= 14 ==> list.height == body.height / 2
            &&& body.height > 14 ==> list.height == 7
            &&& list.width == body.width && preview.width == body.width
        }),
{
}

/// A recent prompt is numbered and shown on one line; where the prompts of all sessions are shown,
/// its directory and its session are named too.
pub proof fn law_prompts_are_listed(prompt: crate::session::RecentPrompt, number: int)
    ensures
        ({
            let all = prompt_line(prompt, number, RecentPromptScope::Global);
            let own = prompt_line(prompt, number, RecentPromptScope::CurrentSession);
            &&& own.len() == 1 && all.len() == 2
            &&& all[0] == own[0]
            &&& own[0].text == decimal(number) + ". "@ + crate::recent_prompts::on_one_line(
                prompt.text@,
                prompt.text@.len() as int,
            )
            &&& all[1].text == "  · "@ + prompt.workspace@ + " · "@ + prompt.session_id@
        }),
{
}

/// The preview shows the whole text of the prompt that would be inserted; the scope is named; the
/// list holds the prompts of the scope, from one on, and marks the selected one.
pub proof fn law_the_selected_prompt_is_previewed(
    picker: RecentModel,
    area: Rect,
    i: int,
    key: crate::event::KeyEvent,
)
    requires
        key.down(),
        key.code == crate::event::KeyCode::Enter,
        !area.empty(),
        picker.wf(),
        0 <= i < picker.visible.len(),
        area.y + area.height <= u16::MAX,
    ensures
        ({
            let preview = picker.preview_strokes(area);
            let list = picker.list_strokes(area);
            let scope = picker.scope_strokes(area);
            &&& preview.len() == 2 && preview[1] is Paragraph && preview[1]->Paragraph_text
                == picker.prompts[picker.visible[picker.selected]].text@
                && preview[1]->Paragraph_scroll == picker.scroll && preview[1]->Paragraph_area.y
                == area.y + 1
            &&& picker.on_key(key).effect == Some(
                crate::recent_prompts::RecentRequest::Insert(preview[1]->Paragraph_text),
            )
            &&& list.len() == 1 && list[0] is List && list[0]->List_selected == Some(picker.selected)
                && list[0]->List_items.len() == picker.visible.len() && list[0]->List_items[i]
                == seq![prompt_line(picker.prompts[picker.visible[i]], i + 1, picker.scope)]
            &&& scope.len() == 1 && scope[0] is Line && scope[0]->Line_line[1].text == if picker.scope
                == RecentPromptScope::Global {
                "Global"@
            } else {
                "Current session"@
            }
        }),
{
}

/// A session is shown by its age and its id, and below that by its first prompt, its model, its
/// effort and its directory.
pub proof fn law_sessions_are_described(session: crate::session::SessionSummary, unix_ms: int)
    ensures
        session_item(session, unix_ms).len() == 2,
        session_item(session, unix_ms)[1][0].text == session.preview@ + " · "@ + session.model@
            + " · "@ + session.effort.title() + " · "@ + session.workspace@,
        unix_ms >= session.started_at_unix_ms ==> session_item(session, unix_ms)[0][0].text
            == crate::session::age_text((unix_ms - session.started_at_unix_ms) / 1_000) + " · "@
            + session.session_id@,
        unix_ms < session.started_at_unix_ms ==> session_item(session, unix_ms)[0][0].text
            == crate::session::age_text(0) + " · "@ + session.session_id@,
{
}

/// The list of sessions shows those that match, in their order, and marks the selected one while the
/// list has the focus; without a match it says so.
pub proof fn law_matching_sessions_are_listed(picker: PickerModel, area: Rect, unix_ms: int, i: int)
    requires
        !area.empty(),
    ensures
        ({
            let strokes = picker.list_strokes(area, unix_ms);
            &&& strokes.len() == 1
            &&& picker.matches.len() == 0 ==> strokes[0] is Line
            &&& 0 <= i < picker.matches.len() ==> strokes[0] is List
                && strokes[0]->List_items.len() == picker.matches.len()
                && strokes[0]->List_items[i] == session_item(
                picker.sessions[picker.matches[i]],
                unix_ms,
            ) && strokes[0]->List_selected == Some(picker.selected)
            &&& strokes[0] is List ==> (strokes[0]->List_marker <==> picker.focus == Focus::List)
                && (strokes[0]->List_cursor <==> picker.focus == Focus::List) && (
            strokes[0]->List_highlight is Some <==> picker.focus == Focus::List)
        }),
{
}

/// The list of files shows those that were found, in their order, and marks the selected one.
pub proof fn law_found_files_are_listed(finder: FinderModel, area: Rect, i: int)
    requires
        !area.empty(),
    ensures
        ({
            let strokes = finder.list_strokes(area);
            &&& strokes.len() == 1 && strokes[0] is List
            &&& strokes[0]->List_items.len() == finder.matches.len()
            &&& 0 <= i < finder.matches.len() ==> strokes[0]->List_items[i][0][0].text
                == finder.files[finder.matches[i]] && strokes[0]->List_selected == Some(
                finder.selected,
            )
            &&& finder.matches.len() == 0 ==> strokes[0]->List_selected is None
            &&& strokes[0]->List_marker <==> finder.focus == Focus::List
        }),
{
}

/// What can be done is told by the keys: something is inserted only where a file was found.
pub proof fn law_keys_of_the_finder(focus: Focus, count: int)
    requires
        count >= 0,
    ensures
        ({
            let keys = crate::file_finder::finder_keys(focus, count);
            &&& keys.first() == "tab focus" && keys.last() == "esc close"
            &&& keys.contains("enter insert") <==> count == 1 || (count > 1 && focus == Focus::List)
            &&& count == 0 ==> !keys.contains("enter insert") && !keys.contains(
                "enter focus results",
            )
        }),
{
    reveal_strlit("tab focus");
    reveal_strlit("↑↓ move");
    reveal_strlit("enter insert");
    reveal_strlit("enter focus results");
    reveal_strlit("esc close");
    let keys = crate::file_finder::finder_keys(focus, count);
    assert("enter insert"@.len() == 12 && "enter focus results"@.len() == 19);
    assert("tab focus"@.len() == 9 && "esc close"@.len() == 9 && "↑↓ move"@.len() == 7);
    if count == 1 || (count > 1 && focus == Focus::List) {
        assert(keys[2] == "enter insert");
    }
}

/// An action that cannot be taken is muted, wherever the focus is; the selected one of the others is
/// accented. Its other name is told behind it.
pub proof fn law_impossible_actions_are_muted(
    action: Action,
    availability: ActionAvailability,
    chosen: bool,
)
    ensures
        ({
            let line = action_line(action, availability, chosen);
            &&& line[0].text == availability.text(action)
            &&& line[0].look.tone == Tone::Muted <==> !availability.enables(action)
            &&& line[0].look.tone == Tone::Accent <==> availability.enables(action) && chosen
            &&& line.len() == 2 <==> action.other_name() is Some
            &&& action.other_name() matches Some(alias) ==> line[1].text == " (alias: "@ + alias
                + ")"@
        }),
{
}

/// The menu lists the actions that match, in their order; an action that cannot be taken is not
/// highlighted.
pub proof fn law_matching_actions_are_listed(menu: MenuModel, area: Rect, i: int)
    requires
        !area.empty(),
        0 <= i < menu.matches.len(),
    ensures
        ({
            let strokes = menu.list_strokes(area);
            &&& strokes.len() == 1 && strokes[0] is List
            &&& strokes[0]->List_items.len() == menu.matches.len()
            &&& strokes[0]->List_items[i] == seq![
                action_line(
                    crate::actions::action_at(menu.matches[i]),
                    menu.availability,
                    menu.focus == Focus::List && i == menu.selected,
                ),
            ]
            &&& strokes[0]->List_selected == Some(menu.selected)
            &&& strokes[0]->List_highlight is Some ==> menu.focus == Focus::List
                && menu.availability.enables(
                crate::actions::action_at(menu.matches[menu.selected]),
            )
        }),
{
}

/// A range of changes is shown by its name and, below that, what it holds; the popup has two rows
/// for each, eighteen at most.
pub proof fn law_ranges_are_listed(
    picker: crate::review_range::ReviewRangePicker,
    area: Rect,
    i: int,
)
    requires
        0 <= i < picker.ranges@.len(),
    ensures
        picker.range_items().len() == picker.ranges@.len(),
        picker.range_items()[i].len() == 2,
        picker.range_items()[i][0][0].text == picker.ranges@[i].label@,
        picker.range_items()[i][1][0].text == picker.ranges@[i].detail@,
        picker.picture(area).last() is List,
        picker.picture(area).last()->List_items == picker.range_items(),
        picker.picture(area).last()->List_selected == Some(picker.selected as int),
{
}

/// Prompts that wait are shown one to a row, in their order, with a mark for those that are on their
/// way; the frame and the selected prompt are accented while the line has the focus.
pub proof fn law_waiting_prompts_are_drawn(line: Line, area: Rect, i: int)
    requires
        area.width > 2,
        0 <= i < area.height - 2,
        i < line.items.len(),
        area.y + area.height <= u16::MAX,
    ensures
        ({
            let strokes = line.picture(area);
            let body = crate::geometry::inside(area);
            &&& strokes.len() == 1 + (if line.items.len() < area.height - 2 {
                line.items.len() as int
            } else {
                area.height - 2
            })
            &&& strokes[0] is Border && (strokes[0]->Border_border == Tone::Accent <==> line.focused)
            &&& strokes[i + 1] is Line && strokes[i + 1]->Line_area.y == area.y + 1 + i
                && strokes[i + 1]->Line_line[0].text == crate::queue::state_mark(
                line.items[i].state,
            ) + line.items[i].prompt.text
            &&& strokes[i + 1]->Line_line[0].look.tone == Tone::Accent <==> line.focused && i
                == line.selected
        }),
        crate::queue::state_mark(crate::queue::ItemState::Ready) == "  "@,
{
}

/// Where nothing stands in front of a session, nothing is drawn over it, and no subagent's
/// transcript moves.
pub proof fn law_nothing_is_drawn_over_an_open_session(root: Root, area: Rect, unix_ms: int)
    ensures
        root.overlay is None ==> root.cover_picture(area, unix_ms).len() == 0,
        root.overlay is None ==> root.subagents_drawn(area) == root.subagents,
        root.overlay is Some && root.overlay->0 is Sessions ==> root.cover_picture(area, unix_ms)
            == root.overlay->0->Sessions_0.picture(area, unix_ms),
        root.overlay is Some && root.overlay->0 is FileFinder ==> root.cover_picture(area, unix_ms)
            == root.overlay->0->FileFinder_finder.picture(area),
{
}

/// The logo stands in the middle of the area, with as much room to its left as to its right and as
/// much above as below, up to one cell, and its name stands in its middle.
pub proof fn law_the_logo_is_centred(logo: crate::empty::EmptyLogo, area: Rect, model: crate::settings::Model)
    requires
        !area.empty(),
        area.x + area.width <= u16::MAX,
        area.y + area.height <= u16::MAX,
    ensures
        ({
            let canvas = crate::empty::canvas_of(area)->0;
            let left = canvas.x - area.x;
            let right = (area.x + area.width) - (canvas.x + canvas.width);
            let above = canvas.y - area.y;
            let below = (area.y + area.height) - (canvas.y + canvas.height);
            let strokes = logo.picture(area, model);
            &&& crate::empty::canvas_of(area) is Some
            &&& left <= right <= left + 1 && 0 <= left
            &&& above <= below <= above + 1 && 0 <= above
            &&& 1 <= canvas.width <= 35 && 1 <= canvas.height <= 17
            &&& strokes[0] is Artwork && strokes[0]->Artwork_area == canvas
            &&& strokes.len() == 2 ==> strokes[1] is Text && ({
                let x = strokes[1]->Text_x;
                let end = x + strokes[1]->Text_limit;
                &&& canvas.x <= x && end <= canvas.x + canvas.width
                &&& x - canvas.x <= (canvas.x + canvas.width) - end <= x - canvas.x + 1
                &&& canvas.y <= strokes[1]->Text_y < canvas.y + canvas.height
            })
        }),
        crate::empty::canvas_of(Rect { width: 0, ..area }) is None,
{
}

/// A popup clears its place, then draws its frame with the title, and writes the footer into the last
/// row inside the frame; without a footer there is none.
pub proof fn law_popups_are_drawn(frame: crate::floating::Popup, area: Rect)
    ensures
        ({
            let strokes = frame.picture(area);
            let place = frame.place(area);
            &&& strokes[0] == (Stroke::Clear { area: place })
            &&& strokes[1] is Border && strokes[1]->Border_area == place
                && strokes[1]->Border_border == frame.border && strokes[1]->Border_title_tone
                == frame.title_tone
            &&& frame.title.len() > 0 ==> strokes[1]->Border_title == " "@ + frame.title + " "@
            &&& frame.title.len() == 0 ==> strokes[1]->Border_title.len() == 0
            &&& strokes.len() == 3 <==> frame.footer is Some && !crate::geometry::inside(
                place,
            ).empty()
            &&& strokes.len() == 3 ==> strokes[2] is Line && strokes[2]->Line_line[0].text
                == frame.footer->0 && strokes[2]->Line_centered && strokes[2]->Line_area.height == 1
            &&& strokes.len() == 2 || strokes.len() == 3
        }),
{
}

/// Where the labels can be clicked on is where the last frame drew them; a draft that is too small
/// for its frame leaves that as it was.
pub proof fn law_labels_are_clicked_where_they_are_drawn(
    root: crate::root::RootNode,
    area: Rect,
    model: Seq<char>,
)
    ensures
        ({
            let place = root@.places(area).composer;
            let drawn = root.drawn(area, model);
            &&& place.width >= 2 && place.height >= 3 ==> drawn.effort_area
                == root.composer.labels(model).effort_area(place) && drawn.subagent_area
                == root.composer.labels(model).subagent_area(place)
            &&& place.width < 2 || place.height < 3 ==> drawn.effort_area == root@.effort_area
                && drawn.subagent_area == root@.subagent_area
            &&& drawn.composer_area == place
            &&& drawn.transcript_area == root@.places(area).transcript
            &&& drawn.queue_area == root@.places(area).queue
            &&& drawn.content_area == root@.places(area).content
            &&& drawn.queue == root@.queue && drawn.turns == root@.turns && drawn.overlay
                == root@.overlay
        }),
{
}

/// What is drawn begins with a popup in the middle of the area, with a title.
#[verifier::opaque]
pub open spec fn is_titled(
    strokes: Seq<Stroke>,
    title: Seq<char>,
    area: Rect,
    width: int,
    height: int,
) -> bool {
    &&& strokes.len() >= 2
    &&& strokes[0] == (Stroke::Clear { area: middle(area, width, height) })
    &&& strokes[1] is Border
    &&& strokes[1]->Border_area == middle(area, width, height)
    &&& strokes[1]->Border_title == " "@ + title + " "@
}

proof fn lemma_titled(frame: Popup, area: Rect)
    requires
        !frame.at_top,
        frame.title.len() > 0,
    ensures
        is_titled(frame.picture(area), frame.title, area, frame.width, frame.height),
{
    reveal(is_titled);
}

proof fn lemma_titled_more(
    strokes: Seq<Stroke>,
    more: Seq<Stroke>,
    title: Seq<char>,
    area: Rect,
    width: int,
    height: int,
)
    requires
        is_titled(strokes, title, area, width, height),
    ensures
        is_titled(strokes + more, title, area, width, height),
        more.len() == 1 ==> is_titled(strokes.push(more[0]), title, area, width, height),
{
    reveal(is_titled);
}

/// The menu of actions is titled by what it is for, and stands in the middle of the area.
pub proof fn law_the_menu_is_titled(menu: MenuModel, area: Rect)
    requires
        !area.empty(),
    ensures
        is_titled(crate::actions::actions_picture(menu, area), "Actions"@, area, 58, 13),
{
    reveal_strlit("Actions");
    let frame = popup("Actions"@, 58, 13, crate::actions::actions_keys());
    let body = frame.body(area);
    lemma_titled(frame, area);
    let search = search_strokes(menu.query, menu.focus == Focus::Search, first_row(body));
    lemma_titled_more(frame.picture(area), search, "Actions"@, area, 58, 13);
    lemma_titled_more(
        frame.picture(area) + search,
        menu.list_strokes(other_rows(body)),
        "Actions"@,
        area,
        58,
        13,
    );
}

/// The selectors of the effort and of the theme are titled by what they are for, and stand in the
/// middle of the area.
pub proof fn law_selectors_are_titled(
    effort: crate::selectors::EffortSelector,
    theme: crate::selectors::ThemeSelector,
    area: Rect,
)
    ensures
        is_titled(effort.picture(area), "Effort"@, area, 36, 5),
        is_titled(theme.picture(area), "Theme"@, area, 36, 6),
{
    reveal_strlit("Effort");
    reveal_strlit("Theme");
    let one = popup("Effort"@, 36, 5, crate::selectors::EffortSelector::keys());
    let two = popup("Theme"@, 36, 6, crate::selectors::ThemeSelector::keys());
    lemma_titled(one, area);
    lemma_titled(two, area);
    lemma_titled_more(
        one.picture(area),
        seq![effort.picture(area).last()],
        "Effort"@,
        area,
        36,
        5,
    );
    lemma_titled_more(two.picture(area), seq![theme.picture(area).last()], "Theme"@, area, 36, 6);
}

/// The list of files is titled by what it is for, and stands in the middle of the area.
pub proof fn law_the_finder_is_titled(finder: FinderModel, area: Rect)
    requires
        !area.empty(),
    ensures
        is_titled(finder.picture(area), "Files"@, area, 72, 14),
{
    reveal_strlit("Files");
    let frame = popup(
        "Files"@,
        72,
        14,
        crate::file_finder::finder_keys(finder.focus, finder.matches.len() as int),
    );
    let body = frame.body(area);
    lemma_titled(frame, area);
    let search = search_strokes(finder.query, finder.focus == Focus::Search, first_row(body));
    lemma_titled_more(frame.picture(area), search, "Files"@, area, 72, 14);
    lemma_titled_more(
        frame.picture(area) + search,
        finder.list_strokes(other_rows(body)),
        "Files"@,
        area,
        72,
        14,
    );
}

/// The list of sessions is titled by what it is for, and stands in the middle of the area.
pub proof fn law_the_sessions_are_titled(picker: PickerModel, area: Rect, unix_ms: int)
    ensures
        is_titled(picker.picture(area, unix_ms), "Resume session"@, area, 76, 18),
{
    reveal_strlit("Resume session");
    let frame = popup("Resume session"@, 76, 18, crate::session_picker::session_keys());
    let body = frame.body(area);
    lemma_titled(frame, area);
    let search = search_strokes(picker.query, picker.focus == Focus::Search, first_row(body));
    lemma_titled_more(frame.picture(area), search, "Resume session"@, area, 76, 18);
    lemma_titled_more(
        frame.picture(area) + search,
        picker.list_strokes(other_rows(body), unix_ms),
        "Resume session"@,
        area,
        76,
        18,
    );
}

/// The recent prompts and the keys are titled by what they are for, and stand in the middle of the
/// area.
pub proof fn law_prompts_and_keys_are_titled(picker: RecentModel, area: Rect)
    requires
        !area.empty(),
    ensures
        is_titled(picker.picture(area), "Recent prompts"@, area, 82, 22),
        is_titled(crate::keybindings::help_picture(area), "Keyboard shortcuts"@, area, 72, 21),
{
    reveal_strlit("Recent prompts");
    reveal_strlit("Keyboard shortcuts");
    let help = popup("Keyboard shortcuts"@, 72, 21, seq!["esc close"]);
    lemma_titled(help, area);
    lemma_titled_more(
        help.picture(area),
        if help.body(area).empty() {
            Seq::empty()
        } else {
            crate::keybindings::help_lines(
                help.body(area),
                crate::keybindings::bindings().len() as int,
            )
        },
        "Keyboard shortcuts"@,
        area,
        72,
        21,
    );
    let frame = popup("Recent prompts"@, 82, 22, crate::recent_prompts::recent_keys());
    let body = frame.body(area);
    let scope = picker.scope_strokes(first_row(body));
    let list = picker.list_strokes(RecentModel::list_area(body));
    lemma_titled(frame, area);
    lemma_titled_more(frame.picture(area), scope, "Recent prompts"@, area, 82, 22);
    lemma_titled_more(frame.picture(area) + scope, list, "Recent prompts"@, area, 82, 22);
    lemma_titled_more(
        frame.picture(area) + scope + list,
        picker.preview_strokes(RecentModel::preview_area(body)),
        "Recent prompts"@,
        area,
        82,
        22,
    );
}

/// The ranges of changes are titled by what they are for, with two rows for each range, eighteen at
/// most.
pub proof fn law_the_ranges_are_titled(
    picker: crate::review_range::ReviewRangePicker,
    area: Rect,
)
    ensures
        is_titled(
            picker.picture(area),
            "Select changes to review"@,
            area,
            72,
            if picker.ranges@.len() < 9 {
                2 * picker.ranges@.len() + 4int
            } else {
                22
            },
        ),
{
    reveal_strlit("Select changes to review");
    let height: int = if picker.ranges@.len() < 9 {
        2 * picker.ranges@.len() + 4int
    } else {
        22
    };
    let frame = popup(
        "Select changes to review"@,
        72,
        height,
        seq!["↑↓ select", "enter review", "esc cancel"],
    );
    lemma_titled(frame, area);
    lemma_titled_more(
        frame.picture(area),
        seq![picker.picture(area).last()],
        "Select changes to review"@,
        area,
        72,
        height,
    );
}

/// The theme that is set is marked in the list, and the effort that is set is named in its colour.
pub proof fn law_the_set_values_are_shown(
    area: Rect,
    effort: crate::selectors::EffortSelector,
    theme: crate::selectors::ThemeSelector,
)
    requires
        effort.picture(area).last() is Line && effort.picture(area).len() == 4,
        theme.picture(area).last() is List,
    ensures
        ({
            let line = effort.picture(area).last();
            let list = theme.picture(area).last();
            &&& line->Line_line[0].text == effort.selected.title()
            &&& line->Line_line[0].look.tone == Tone::Effort(effort.selected)
            &&& list->List_marker && list->List_selected is Some
            &&& theme.selected == crate::settings::ThemeMode::Auto
                ==> list->List_items[list->List_selected->0][0][0].text == "Auto"@
            &&& theme.selected == crate::settings::ThemeMode::Light
                ==> list->List_items[list->List_selected->0][0][0].text == "Light"@
            &&& theme.selected == crate::settings::ThemeMode::Dark
                ==> list->List_items[list->List_selected->0][0][0].text == "Dark"@
        }),
{
}

/// A look is coloured, and bold, dim or italic only where it says so.
pub proof fn law_looks_say_what_they_are(tone: Tone)
    ensures
        colored(tone).tone == tone && !colored(tone).bold && !colored(tone).dim && !colored(
            tone,
        ).italic,
        crate::draw::bold_colored(tone) == (Look { bold: true, ..colored(tone) }),
        crate::draw::dim_colored(tone) == (Look { dim: true, ..colored(tone) }),
{
}

} // verus!
