//! What holds of the prompts that wait.

use crate::event::{Event, KeyCode, KeyEvent};
use crate::geometry::Rect;
use crate::prompt::PromptModel;
use crate::queue::{
    interrupted, is_admitted, is_unacknowledged, item_index, lemma_item_index, prompts_in,
    state_mark, Item, ItemState, Line, QueueRequest,
};
use vstd::prelude::*;

verus! {

/// A prompt that is added waits behind all others, under a number of its own, and is selected.
pub proof fn law_prompts_wait_behind_the_others(line: Line, prompt: PromptModel)
    ensures
        ({
            let next = line.pushed(prompt);
            &&& next.items.len() == line.items.len() + 1
            &&& next.items.last().prompt == prompt
            &&& next.items.last().state is Ready
            &&& next.items.last().id == line.next_id
            &&& next.items.drop_last() == line.items
            &&& next.selected == line.items.len()
            &&& line.next_id < u64::MAX ==> next.next_id > line.next_id
            &&& line.wf() ==> next.wf()
        }),
{
    assert(line.pushed(prompt).items.drop_last() =~= line.items);
}

/// The down key selects the next prompt and the up key the one before it; away from the ends one
/// undoes the other.
pub proof fn law_prompts_are_selected_in_turn(line: Line, up: KeyEvent, down: KeyEvent)
    requires
        line.wf(),
        up.down(),
        up.code == KeyCode::Up,
        down.down(),
        down.code == KeyCode::Down,
    ensures
        ({
            let below = line.on_event(Event::Key(down)).line;
            let above = line.on_event(Event::Key(up)).line;
            &&& below.wf() && above.wf()
            &&& line.selected + 1 < line.items.len() ==> below.selected == line.selected + 1
                && below.on_event(Event::Key(up)).line == line
            &&& line.selected > 0 ==> above.selected == line.selected - 1
                && above.on_event(Event::Key(down)).line == line
            &&& line.selected + 1 >= line.items.len() ==> below == line
            &&& line.selected == 0 ==> above == line
        }),
{
}

/// The enter key sends the selected prompt into the turn if it waits: it is asked for under its
/// number, is on its way then, and cannot be sent again. All others stay as they are.
pub proof fn law_the_selected_prompt_steers(line: Line, enter: KeyEvent)
    requires
        line.wf(),
        line.items.len() > 0,
        enter.down(),
        enter.code == KeyCode::Enter,
    ensures
        ({
            let step = line.on_event(Event::Key(enter));
            let here = line.items[line.selected];
            &&& here.state is Ready ==> step.effect == Some(
                QueueRequest::Steer { id: here.id, prompt: here.prompt },
            ) && is_unacknowledged(step.line.items[line.selected].state)
                && step.line.items[line.selected].state is Steering
                && step.line.items[line.selected].prompt == here.prompt
                && step.line.items[line.selected].id == here.id
                && step.line.on_event(Event::Key(enter)).effect is None
            &&& !(here.state is Ready) ==> step.effect is None && step.line == line
            &&& step.line.items.len() == line.items.len()
            &&& forall|i: int|
                0 <= i < line.items.len() && i != line.selected ==> #[trigger] step.line.items[i]
                    == line.items[i]
        }),
{
}

/// The key for editing takes the selected prompt out of the line if it waits, and hands out its text
/// and its place. The escape key leaves the line as it is, without the focus.
pub proof fn law_the_selected_prompt_is_edited(line: Line, edit: KeyEvent, escape: KeyEvent)
    requires
        line.wf(),
        line.items.len() > 0,
        edit.down(),
        edit.code == KeyCode::Char('e'),
        escape.down(),
        escape.code == KeyCode::Esc,
    ensures
        ({
            let step = line.on_event(Event::Key(edit));
            let here = line.items[line.selected];
            &&& here.state is Ready ==> step.effect == Some(
                QueueRequest::Edit { index: line.selected, text: here.prompt.text },
            ) && step.line.items == line.items.remove(line.selected)
            &&& !(here.state is Ready) ==> step.effect is None && step.line == line
            &&& step.line.wf()
            &&& step.line.items.len() == 0 ==> !step.line.focused
        }),
        line.on_event(Event::Key(escape)).effect == Some(QueueRequest::Blur),
        line.on_event(Event::Key(escape)).line.items == line.items,
        !line.on_event(Event::Key(escape)).line.focused,
{
}

/// A prompt that could not be sent into the turn waits again, in its place.
pub proof fn law_failed_prompts_wait_again(line: Line, id: u64)
    ensures
        ({
            let i = item_index(line.items, id, 0);
            let next = line.failed(id);
            &&& 0 <= i < line.items.len() ==> next.items[i].state is Ready && next.items[i].prompt
                == line.items[i].prompt && next.items[i].id == line.items[i].id
            &&& next.items.len() == line.items.len()
            &&& forall|k: int|
                0 <= k < line.items.len() && k != i ==> #[trigger] next.items[k] == line.items[k]
        }),
{
    lemma_item_index(line.items, id, 0);
}

/// A prompt that became a turn of its own leaves the line, and the others keep their order.
pub proof fn law_promoted_prompts_leave(line: Line, id: u64)
    ensures
        ({
            let i = item_index(line.items, id, 0);
            &&& 0 <= i < line.items.len() ==> line.promoted(id).items == line.items.remove(i)
            &&& i >= line.items.len() ==> line.promoted(id) == line
        }),
{
}

/// A prompt that is on its way and was acknowledged is still on its way after an interruption, and
/// acknowledged.
pub proof fn law_interruption_keeps_acknowledgements(item: Item)
    ensures
        is_admitted(interrupted(item).state) == is_admitted(item.state),
        is_unacknowledged(interrupted(item).state) == is_unacknowledged(item.state),
        interrupted(item).state is Ready <==> item.state is Ready,
        !(interrupted(item).state is Steering),
        interrupted(item).prompt == item.prompt,
        interrupted(item).id == item.id,
{
}

/// The prompts that come back first are those that were interrupted, and each kind keeps its order:
/// one more at the end of the line comes last of its kind.
pub proof fn law_interrupted_prompts_come_first(line: Line, item: Item)
    ensures
        ({
            let n = line.items.len() as int;
            let more = Line { items: line.items.push(item), ..line };
            &&& item.state is Ready ==> more.ready() == line.ready().push(item.prompt)
            &&& item.state is Steering ==> more.ready() == line.ready()
            &&& item.state is Interrupted ==> more.ready() == prompts_in(line.items, true, n).push(
                item.prompt,
            ) + prompts_in(line.items, false, n)
        }),
{
    let n = line.items.len() as int;
    let more = Line { items: line.items.push(item), ..line };
    lemma_prefix(line.items, item, true, n);
    lemma_prefix(line.items, item, false, n);
    assert(more.items[n] == item);
    assert(prompts_in(more.items, true, n + 1) == if item.state is Interrupted {
        prompts_in(line.items, true, n).push(item.prompt)
    } else {
        prompts_in(line.items, true, n)
    });
    assert(prompts_in(line.items, true, n) + prompts_in(line.items, false, n).push(item.prompt)
        =~= line.ready().push(item.prompt));
}

proof fn lemma_prefix(items: Seq<Item>, item: Item, interrupted: bool, n: int)
    requires
        0 <= n <= items.len(),
    ensures
        prompts_in(items.push(item), interrupted, n) == prompts_in(items, interrupted, n),
    decreases n,
{
    if n > 0 {
        lemma_prefix(items, item, interrupted, n - 1);
        assert(items.push(item)[n - 1] == items[n - 1]);
    }
}

/// The mark in front of a prompt tells its state, two cells wide.
pub proof fn law_marks_tell_the_state(a: ItemState, b: ItemState)
    ensures
        state_mark(a) == state_mark(b) <==> (a is Ready && b is Ready) || (a is Steering
            && b is Steering) || (a is Interrupted && b is Interrupted),
        state_mark(a).len() == 2,
        a is Ready <==> state_mark(a)[0] == ' ',
        a is Steering <==> state_mark(a)[0] == '»',
        a is Interrupted <==> state_mark(a)[0] == '!',
{
    reveal_strlit("  ");
    reveal_strlit("» ");
    reveal_strlit("! ");
    assert(state_mark(a)[1] == ' ' && state_mark(b)[1] == ' ');
    if state_mark(a)[0] == state_mark(b)[0] {
        assert(state_mark(a) =~= state_mark(b));
    }
}

/// An empty line takes no rows; any other has a row for each prompt and two for its frame.
pub proof fn law_the_line_is_as_high_as_its_prompts(line: Line)
    requires
        line.items.len() + 2 <= u16::MAX,
    ensures
        line.items.len() == 0 ==> line.height() == 0,
        line.items.len() > 0 ==> line.height() == line.items.len() + 2,
{
}

/// A click on a row selects the prompt that is drawn there.
pub proof fn law_the_clicked_prompt_is_selected(line: Line, area: Rect, i: int)
    requires
        0 <= i < line.items.len(),
    ensures
        line.row_focused(area.y + 1 + i, area).selected == i,
        line.row_focused(area.y + 1 + i, area).focused,
        line.row_focused(area.y + 1 + i, area).items == line.items,
        line.row_focused(area.y as int, area).selected == 0,
{
}

} // verus!
