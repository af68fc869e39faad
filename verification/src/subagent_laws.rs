//! What holds of the tree of subagents.

use crate::draw::Tone;
use crate::event::{Event, KeyCode, KeyEvent};
use crate::numeral::decimal;
use crate::subagents::{
    active_among, branch, children, has_parent, is_active, lemma_twig_found, lemma_twig_known,
    origin_name, prefix, rails, roots, status_parts, twig_index, twig_lines, AgentDescriptor,
    AgentStatus, AgentUpdate, Forest, Seen, SubagentRequest, Twig,
};
use vstd::prelude::*;
use vstd::set_lib::{lemma_int_range, lemma_len_subset, set_int_range};

verus! {

/// No two subagents have the same id.
pub open spec fn distinct(nodes: Seq<Twig>) -> bool {
    forall|i: int, j: int|
        #![trigger nodes[i], nodes[j]]
        0 <= i < j < nodes.len() ==> nodes[i].descriptor.id != nodes[j].descriptor.id
}

/// The subagent at a place of a line is a child of the one before it.
pub open spec fn follows(nodes: Seq<Twig>, line: Seq<int>, k: int) -> bool {
    nodes[line[k]].descriptor.parent == Some(nodes[line[k - 1]].descriptor.id)
}

/// A subagent without a parent, one of its children, one of that one's children, and so on.
pub open spec fn is_line(nodes: Seq<Twig>, line: Seq<int>) -> bool {
    &&& forall|k: int| 0 <= k < line.len() ==> 0 <= #[trigger] line[k] < nodes.len()
    &&& line.len() > 0 ==> !has_parent(nodes, line[0])
    &&& forall|k: int| 0 < k < line.len() ==> #[trigger] follows(nodes, line, k)
}

/// One of the rows is that of a subagent.
pub open spec fn shows(rows: Seq<Seen>, index: int) -> bool {
    exists|k: int| 0 <= k < rows.len() && (#[trigger] rows[k]).index == index
}

/// Ids stay distinct.
pub proof fn law_ids_stay_distinct(forest: Forest, update: AgentUpdate, now: int)
    requires
        distinct(forest.nodes),
    ensures
        distinct(forest.applied(update, now).0.nodes),
{
    let nodes = forest.nodes;
    match update {
        AgentUpdate::Added(descriptor) => {
            lemma_twig_found(nodes, descriptor.id, 0);
            let after = forest.applied(update, now).0.nodes;
            assert forall|i: int, j: int|
                #![trigger after[i], after[j]]
                0 <= i < j < after.len() implies after[i].descriptor.id
                != after[j].descriptor.id by {
                if after.len() > nodes.len() && j == nodes.len()
                    && nodes[i].descriptor.id == descriptor.id {
                    lemma_twig_known(nodes, descriptor.id, i, 0);
                }
            }
        },
        AgentUpdate::Event { id, change } => {
            lemma_twig_found(nodes, id, 0);
        },
        AgentUpdate::Status { id, status } => {
            lemma_twig_found(nodes, id, 0);
        },
    }
}

/// The children of a subagent name it as their parent, and all that do are its children.
proof fn lemma_children(nodes: Seq<Twig>, id: u64, n: int)
    requires
        0 <= n <= nodes.len(),
    ensures
        forall|k: int|
            0 <= k < children(nodes, id, n).len() ==> 0 <= #[trigger] children(nodes, id, n)[k] < n
                && nodes[children(nodes, id, n)[k]].descriptor.parent == Some(id),
        forall|i: int|
            0 <= i < n && (#[trigger] nodes[i]).descriptor.parent == Some(id) ==> children(
                nodes,
                id,
                n,
            ).contains(i),
    decreases n,
{
    if n > 0 {
        lemma_children(nodes, id, n - 1);
        let before = children(nodes, id, n - 1);
        let now = children(nodes, id, n);
        assert forall|i: int|
            0 <= i < n && (#[trigger] nodes[i]).descriptor.parent == Some(
                id,
            ) implies now.contains(i) by {
            if i < n - 1 {
                assert(before.contains(i));
                let k = choose|k: int| 0 <= k < before.len() && before[k] == i;
                assert(now[k] == i);
            } else {
                assert(now[now.len() - 1] == i);
            }
        }
    }
}

/// The roots have no parent, and all that have none are roots.
proof fn lemma_roots(nodes: Seq<Twig>, n: int)
    requires
        0 <= n <= nodes.len(),
    ensures
        forall|k: int|
            0 <= k < roots(nodes, n).len() ==> 0 <= #[trigger] roots(nodes, n)[k] < n
                && !has_parent(nodes, roots(nodes, n)[k]),
        forall|i: int|
            0 <= i < n && !#[trigger] has_parent(nodes, i) ==> roots(nodes, n).contains(i),
    decreases n,
{
    if n > 0 {
        lemma_roots(nodes, n - 1);
        let before = roots(nodes, n - 1);
        let now = roots(nodes, n);
        assert forall|i: int|
            0 <= i < n && !#[trigger] has_parent(nodes, i) implies now.contains(i) by {
            if i < n - 1 {
                assert(before.contains(i));
                let k = choose|k: int| 0 <= k < before.len() && before[k] == i;
                assert(now[k] == i);
            } else {
                assert(now[now.len() - 1] == i);
            }
        }
    }
}

/// No subagent stands in a line twice.
proof fn lemma_once(nodes: Seq<Twig>, line: Seq<int>, i: int, j: int)
    requires
        distinct(nodes),
        is_line(nodes, line),
        0 <= i < j < line.len(),
    ensures
        line[i] != line[j],
    decreases i,
{
    if line[i] == line[j] {
        let above = line[j - 1];
        assert(follows(nodes, line, j));
        if i == 0 {
            lemma_twig_known(nodes, nodes[above].descriptor.id, above, 0);
            assert(has_parent(nodes, line[0]));
        } else {
            assert(follows(nodes, line, i));
            lemma_once(nodes, line, i - 1, j - 1);
            if line[i - 1] < above {
                assert(nodes[line[i - 1]].descriptor.id != nodes[above].descriptor.id);
            } else {
                assert(nodes[above].descriptor.id != nodes[line[i - 1]].descriptor.id);
            }
        }
    }
}

/// A line is no longer than there are subagents.
proof fn lemma_line_length(nodes: Seq<Twig>, line: Seq<int>)
    requires
        distinct(nodes),
        is_line(nodes, line),
    ensures
        line.len() <= nodes.len(),
{
    let all = set_int_range(0, nodes.len() as int);
    assert forall|i: int, j: int|
        0 <= i < line.len() && 0 <= j < line.len() && i != j implies line[i] != line[j] by {
        if i < j {
            lemma_once(nodes, line, i, j);
        } else {
            lemma_once(nodes, line, j, i);
        }
    }
    line.unique_seq_to_set();
    lemma_int_range(0, nodes.len() as int);
    assert(line.to_set().subset_of(all));
    lemma_len_subset(line.to_set(), all);
}

/// The siblings from sibling `from` on can stand behind a line.
spec fn continues(nodes: Seq<Twig>, line: Seq<int>, siblings: Seq<int>) -> bool {
    forall|k: int|
        0 <= k < siblings.len() ==> is_line(nodes, line.push(#[trigger] siblings[k]))
}

/// A child of a line's last subagent can stand behind it.
proof fn lemma_extended(nodes: Seq<Twig>, line: Seq<int>, child: int)
    requires
        is_line(nodes, line),
        line.len() > 0,
        0 <= child < nodes.len(),
        nodes[child].descriptor.parent == Some(nodes[line[line.len() - 1]].descriptor.id),
    ensures
        is_line(nodes, line.push(child)),
{
    let next = line.push(child);
    assert forall|k: int| 0 < k < next.len() implies #[trigger] follows(nodes, next, k) by {
        if k < line.len() {
            assert(follows(nodes, line, k));
        }
    }
}

/// More generations than there are subagents show nothing more.
proof fn lemma_saturated(
    nodes: Seq<Twig>,
    line: Seq<int>,
    siblings: Seq<int>,
    ancestors: Seq<bool>,
    from: int,
    a: nat,
    b: nat,
)
    requires
        distinct(nodes),
        is_line(nodes, line),
        continues(nodes, line, siblings),
        a + line.len() >= nodes.len(),
        b + line.len() >= nodes.len(),
    ensures
        branch(nodes, siblings, ancestors, from, a) == branch(
            nodes,
            siblings,
            ancestors,
            from,
            b,
        ),
    decreases a, siblings.len() - from,
{
    if 0 <= from < siblings.len() {
        let index = siblings[from];
        let longer = line.push(index);
        assert(is_line(nodes, longer));
        lemma_line_length(nodes, longer);
        assert(longer[longer.len() - 1] == index);
        let id = nodes[index].descriptor.id;
        let kids = children(nodes, id, nodes.len() as int);
        let is_last = from + 1 == siblings.len();
        lemma_children(nodes, id, nodes.len() as int);
        assert forall|k: int| 0 <= k < kids.len() implies is_line(
            nodes,
            longer.push(#[trigger] kids[k]),
        ) by {
            lemma_extended(nodes, longer, kids[k]);
        }
        lemma_saturated(
            nodes,
            longer,
            kids,
            ancestors.push(is_last),
            0,
            (a - 1) as nat,
            (b - 1) as nat,
        );
        lemma_saturated(nodes, line, siblings, ancestors, from + 1, a, b);
    }
}

/// The tree shows every generation: with more of them it would show the same rows.
pub proof fn law_the_tree_is_whole(forest: Forest, depth: nat)
    requires
        distinct(forest.nodes),
        depth >= forest.nodes.len(),
    ensures
        forest.visible() == branch(
            forest.nodes,
            roots(forest.nodes, forest.nodes.len() as int),
            Seq::empty(),
            0,
            depth,
        ),
{
    let nodes = forest.nodes;
    let first = roots(nodes, nodes.len() as int);
    lemma_roots(nodes, nodes.len() as int);
    assert forall|k: int| 0 <= k < first.len() implies is_line(
        nodes,
        Seq::<int>::empty().push(#[trigger] first[k]),
    ) by {
        assert(Seq::<int>::empty().push(first[k])[0] == first[k]);
    }
    lemma_saturated(nodes, Seq::empty(), first, Seq::empty(), 0, nodes.len(), depth);
}

/// A row that one of two parts shows is shown by both together.
proof fn lemma_shown_in(a: Seq<Seen>, b: Seq<Seen>, c: Seq<Seen>, index: int)
    requires
        shows(a, index) || shows(b, index) || shows(c, index),
    ensures
        shows(a + b + c, index),
{
    let rows = a + b + c;
    if shows(a, index) {
        let k = choose|k: int| 0 <= k < a.len() && (#[trigger] a[k]).index == index;
        assert(rows[k] == a[k]);
    } else if shows(b, index) {
        let k = choose|k: int| 0 <= k < b.len() && (#[trigger] b[k]).index == index;
        assert(rows[a.len() + k] == b[k]);
    } else {
        let k = choose|k: int| 0 <= k < c.len() && (#[trigger] c[k]).index == index;
        assert(rows[a.len() + b.len() + k] == c[k]);
    }
}

proof fn lemma_line_shown(
    nodes: Seq<Twig>,
    line: Seq<int>,
    k: int,
    siblings: Seq<int>,
    ancestors: Seq<bool>,
    from: int,
    at: int,
    depth: nat,
)
    requires
        is_line(nodes, line),
        0 <= k < line.len(),
        0 <= from <= at < siblings.len(),
        siblings[at] == line[k],
        k + depth + 1 >= line.len(),
    ensures
        shows(branch(nodes, siblings, ancestors, from, depth), line[line.len() - 1]),
    decreases line.len() - k, at - from,
{
    let target = line[line.len() - 1];
    let index = siblings[from];
    let is_last = from + 1 == siblings.len();
    let id = nodes[index].descriptor.id;
    let kids = children(nodes, id, nodes.len() as int);
    let head = seq![Seen { index, ancestors, is_last, has_children: kids.len() > 0 }];
    let below = if depth == 0 {
        Seq::empty()
    } else {
        branch(nodes, kids, ancestors.push(is_last), 0, (depth - 1) as nat)
    };
    let rest = branch(nodes, siblings, ancestors, from + 1, depth);
    if from < at {
        lemma_line_shown(nodes, line, k, siblings, ancestors, from + 1, at, depth);
    } else if k + 1 == line.len() {
        assert(head[0].index == target);
    } else {
        lemma_children(nodes, id, nodes.len() as int);
        assert(follows(nodes, line, k + 1));
        assert(kids.contains(line[k + 1]));
        let next = choose|m: int| 0 <= m < kids.len() && kids[m] == line[k + 1];
        lemma_line_shown(
            nodes,
            line,
            k + 1,
            kids,
            ancestors.push(is_last),
            0,
            next,
            (depth - 1) as nat,
        );
    }
    lemma_shown_in(head, below, rest, target);
}

/// Every subagent at the end of a line of parents is shown, whether it still works or not.
pub proof fn law_every_descendant_is_shown(forest: Forest, line: Seq<int>)
    requires
        distinct(forest.nodes),
        is_line(forest.nodes, line),
        line.len() > 0,
    ensures
        shows(forest.visible(), line[line.len() - 1]),
{
    let nodes = forest.nodes;
    let first = roots(nodes, nodes.len() as int);
    lemma_roots(nodes, nodes.len() as int);
    lemma_line_length(nodes, line);
    assert(first.contains(line[0]));
    let at = choose|m: int| 0 <= m < first.len() && first[m] == line[0];
    lemma_line_shown(nodes, line, 0, first, Seq::empty(), 0, at, nodes.len());
}

/// Two statuses are of one kind.
pub open spec fn same_kind(a: AgentStatus, b: AgentStatus) -> bool {
    match (a, b) {
        (AgentStatus::Pending, AgentStatus::Pending) => true,
        (AgentStatus::Running, AgentStatus::Running) => true,
        (AgentStatus::Completed { .. }, AgentStatus::Completed { .. }) => true,
        (AgentStatus::Interrupted, AgentStatus::Interrupted) => true,
        (AgentStatus::Failed { .. }, AgentStatus::Failed { .. }) => true,
        (AgentStatus::Closing, AgentStatus::Closing) => true,
        (AgentStatus::Closed, AgentStatus::Closed) => true,
        _ => false,
    }
}

/// Different statuses have different names, and their symbols differ in form or in colour. A failed
/// subagent is said to be failed, in red; one that is done, completed, in green; the others by the
/// word for what they do.
pub proof fn law_statuses_are_told_apart(a: AgentStatus, b: AgentStatus)
    ensures
        status_parts(a).2 == status_parts(b).2 <==> same_kind(a, b),
        status_parts(a).0 == status_parts(b).0 && status_parts(a).1 == status_parts(b).1 <==>
            same_kind(a, b),
        status_parts(a).1 == Tone::Red <==> a is Failed,
        status_parts(a).1 == Tone::Green <==> a is Completed,
        status_parts(a).1 == Tone::Yellow <==> is_active(a),
        status_parts(a).2 == "failed"@ <==> a is Failed,
        status_parts(a).2 == "completed"@ <==> a is Completed,
        status_parts(a).2 == "pending"@ <==> a is Pending,
        status_parts(a).2 == "running"@ <==> a is Running,
        status_parts(a).2 == "interrupted"@ <==> a is Interrupted,
        status_parts(a).2 == "closing"@ <==> a is Closing,
        status_parts(a).2 == "closed"@ <==> a is Closed,
{
    reveal_strlit("pending");
    reveal_strlit("running");
    reveal_strlit("completed");
    reveal_strlit("interrupted");
    reveal_strlit("failed");
    reveal_strlit("closing");
    reveal_strlit("closed");
    reveal_strlit("○");
    reveal_strlit("◐");
    reveal_strlit("●");
    reveal_strlit("■");
    reveal_strlit("×");
    reveal_strlit("◑");
    assert("pending"@[0] == 'p' && "running"@[0] == 'r' && "closing"@[0] == 'c');
    assert("failed"@[0] == 'f' && "closed"@[0] == 'c');
    assert("closing"@.len() == 7 && "closed"@.len() == 6);
    assert("completed"@.len() == 9 && "interrupted"@.len() == 11);
    assert("○"@[0] == '○' && "◐"@[0] == '◐' && "●"@[0] == '●' && "■"@[0] == '■');
    assert("×"@[0] == '×' && "◑"@[0] == '◑');
}

/// The row of a subagent that failed never reads like that of one in another state: the words
/// differ, and unless the row is selected its symbol and its words are red.
pub proof fn law_failures_are_seen(twig: Twig, status: AgentStatus, seen: Seen, columns: int)
    requires
        twig.status is Failed,
        !(status is Failed),
    ensures
        ({
            let failed = twig_lines(twig, seen, false, columns)[0];
            let other = twig_lines(Twig { status, ..twig }, seen, false, columns)[0];
            &&& failed[3].text != other[3].text
            &&& failed[1].look.tone == Tone::Red && failed[3].look.tone == Tone::Red
            &&& other[1].look.tone != Tone::Red && other[3].look.tone != Tone::Red
            &&& failed[2] == other[2]
            &&& twig_lines(twig, seen, true, columns)[0][3].text == failed[3].text
        }),
{
    law_statuses_are_told_apart(twig.status, status);
    let failed = twig_lines(twig, seen, false, columns)[0][3].text;
    let other = twig_lines(Twig { status, ..twig }, seen, false, columns)[0][3].text;
    let a = status_parts(twig.status).2;
    let b = status_parts(status).2;
    let tail = " · "@.len() + origin_name(twig.descriptor.origin).len() + " · #"@.len() + decimal(
        twig.descriptor.id as int,
    ).len();
    if failed == other {
        reveal_strlit("  ");
        assert(failed.len() == 2 + a.len() + tail);
        assert(other.len() == 2 + b.len() + tail);
        assert(failed.subrange(2, a.len() + 2int) =~= a);
        assert(other.subrange(2, b.len() + 2int) =~= b);
    }
}

proof fn lemma_active_change(nodes: Seq<Twig>, i: int, twig: Twig, n: int)
    requires
        0 <= n <= nodes.len(),
        0 <= i < nodes.len(),
    ensures
        active_among(nodes.update(i, twig), n) == active_among(nodes, n) + if i < n {
            (if is_active(twig.status) { 1int } else { 0 }) - (if is_active(nodes[i].status) {
                1int
            } else {
                0
            })
        } else {
            0
        },
    decreases n,
{
    if n > 0 {
        lemma_active_change(nodes, i, twig, n - 1);
    }
}

/// A subagent that stops working is counted no more, one that starts again is counted again, and
/// the subagents beside it stay as they are.
pub proof fn law_work_is_counted(forest: Forest, id: u64, status: AgentStatus, now: int)
    requires
        twig_index(forest.nodes, id, 0) < forest.nodes.len(),
    ensures
        ({
            let i = twig_index(forest.nodes, id, 0);
            let was = forest.nodes[i].status;
            let (next, known) = forest.applied(AgentUpdate::Status { id, status }, now);
            &&& known
            &&& is_active(was) && !is_active(status) ==> next.active() == forest.active() - 1
            &&& !is_active(was) && is_active(status) ==> next.active() == forest.active() + 1
            &&& is_active(was) == is_active(status) ==> next.active() == forest.active()
            &&& next.nodes[i].status == status
            &&& next.nodes[i].descriptor == forest.nodes[i].descriptor
            &&& forall|k: int|
                0 <= k < forest.nodes.len() && k != i ==> #[trigger] next.nodes[k]
                    == forest.nodes[k]
        }),
{
    let i = twig_index(forest.nodes, id, 0);
    lemma_twig_found(forest.nodes, id, 0);
    lemma_active_change(
        forest.nodes,
        i,
        Twig { status, ..forest.nodes[i] },
        forest.nodes.len() as int,
    );
}

/// A new subagent works, under its descriptor, and is counted.
pub proof fn law_new_subagents_work(forest: Forest, descriptor: AgentDescriptor, now: int)
    requires
        twig_index(forest.nodes, descriptor.id, 0) >= forest.nodes.len(),
    ensures
        ({
            let (next, known) = forest.applied(AgentUpdate::Added(descriptor), now);
            &&& known
            &&& next.nodes.len() == forest.nodes.len() + 1
            &&& next.nodes.last().descriptor == descriptor
            &&& next.nodes.last().status is Running
            &&& next.nodes.drop_last() == forest.nodes
            &&& next.active() == forest.active() + 1
        }),
{
    let (next, _) = forest.applied(AgentUpdate::Added(descriptor), now);
    assert(next.nodes.drop_last() =~= forest.nodes);
    lemma_active_prefix(forest.nodes, next.nodes.last(), forest.nodes.len() as int);
}

proof fn lemma_active_prefix(nodes: Seq<Twig>, twig: Twig, n: int)
    requires
        0 <= n <= nodes.len(),
    ensures
        active_among(nodes.push(twig), n) == active_among(nodes, n),
    decreases n,
{
    if n > 0 {
        lemma_active_prefix(nodes, twig, n - 1);
    }
}

/// Plus raises the limit by one and minus lowers it by one, but never below one. Each asks for the
/// new limit, and one undoes the other.
pub proof fn law_the_limit_goes_up_and_down(forest: Forest, plus: KeyEvent, less: KeyEvent)
    requires
        plus.down(),
        plus.code == KeyCode::Char('+'),
        less.down(),
        less.code == KeyCode::Char('-'),
        1 <= forest.max_subagents < usize::MAX,
    ensures
        ({
            let (more, asked) = forest.on_tree(Event::Key(plus));
            let (back, asked_back) = more.on_tree(Event::Key(less));
            let (fewer, _) = forest.on_tree(Event::Key(less));
            &&& more.max_subagents == forest.max_subagents + 1
            &&& asked == Some(SubagentRequest::SetMaxSubagents(more.max_subagents))
            &&& back == forest
            &&& asked_back == Some(SubagentRequest::SetMaxSubagents(forest.max_subagents))
            &&& 1 <= fewer.max_subagents
            &&& forest.max_subagents > 1 ==> fewer.max_subagents == forest.max_subagents - 1
            &&& forest.max_subagents == 1 ==> forest.on_tree(Event::Key(less)) == (
                forest,
                None::<SubagentRequest>,
            )
        }),
{
}

/// Down selects the next row and up the one before it, within the rows of the tree; away from the
/// ends one undoes the other.
pub proof fn law_rows_are_selected_in_turn(forest: Forest, up: KeyEvent, down: KeyEvent)
    requires
        forest.wf(),
        up.down(),
        up.code == KeyCode::Up || up.code == KeyCode::Char('k'),
        down.down(),
        down.code == KeyCode::Down || down.code == KeyCode::Char('j'),
    ensures
        ({
            let below = forest.on_tree(Event::Key(down)).0;
            let above = forest.on_tree(Event::Key(up)).0;
            let last = forest.nodes.len() - 1;
            &&& below.wf() && above.wf()
            &&& forest.selected < last ==> below.selected == forest.selected + 1
                && below.on_tree(Event::Key(up)).0 == forest
            &&& forest.selected > 0 ==> above.selected == forest.selected - 1
                && above.on_tree(Event::Key(down)).0 == forest
            &&& forest.selected >= last ==> below == forest
            &&& forest.selected == 0 ==> above == forest
        }),
{
}

proof fn lemma_rails(ancestors: Seq<bool>, n: int)
    requires
        0 <= n <= ancestors.len(),
    ensures
        rails(ancestors, n).len() == 3 * n,
        forall|k: int|
            0 <= k < n ==> (#[trigger] rails(ancestors, n)[3 * k] == '│' <==> !ancestors[k]),
    decreases n,
{
    reveal_strlit("   ");
    reveal_strlit("│  ");
    if n > 0 {
        lemma_rails(ancestors, n - 1);
        assert forall|k: int| 0 <= k < n implies (#[trigger] rails(ancestors, n)[3 * k] == '│' <==>
            !ancestors[k]) by {
            if k < n - 1 {
                assert(rails(ancestors, n)[3 * k] == rails(ancestors, n - 1)[3 * k]);
            }
        }
    }
}

/// The lines in front of a row are as wide as its depth asks for, and those in front of its task a
/// step wider. A line leads on below an ancestor exactly if it has a sibling to come.
pub proof fn law_branches_line_up(seen: Seen)
    ensures
        prefix(seen, false).len() == 3 * (seen.ancestors.len() + 1),
        prefix(seen, true).len() == 3 * (seen.ancestors.len() + 2),
        forall|k: int|
            0 <= k < seen.ancestors.len() ==> (#[trigger] prefix(seen, false)[3 * k] == '│' <==>
                !seen.ancestors[k]),
        prefix(seen, false)[3 * seen.ancestors.len() as int] == '└' <==> seen.is_last,
        prefix(seen, false)[3 * seen.ancestors.len() as int] == '├' <==> !seen.is_last,
        prefix(seen, true)[3 * seen.ancestors.len() as int] == '│' <==> !seen.is_last,
        prefix(seen, true)[3 * seen.ancestors.len() as int + 3] == '├' <==> seen.has_children,
{
    reveal_strlit("   ├─ ");
    reveal_strlit("   ╰─ ");
    reveal_strlit("│  ├─ ");
    reveal_strlit("│  ╰─ ");
    reveal_strlit("└─ ");
    reveal_strlit("├─ ");
    let n = seen.ancestors.len() as int;
    lemma_rails(seen.ancestors, n);
    assert forall|k: int| 0 <= k < n implies (#[trigger] prefix(seen, false)[3 * k] == '│' <==>
        !seen.ancestors[k]) by {
        assert(prefix(seen, false)[3 * k] == rails(seen.ancestors, n)[3 * k]);
    }
}

/// The escape key leaves a subagent's transcript, but takes the focus from its tool calls first; a
/// transcript that is not there is left at once.
pub proof fn law_transcripts_are_left(forest: Forest, id: u64, key: KeyEvent)
    requires
        key.down(),
        key.code == KeyCode::Esc,
    ensures
        ({
            let i = twig_index(forest.nodes, id, 0);
            let (next, asked) = forest.on_transcript(id, Event::Key(key));
            &&& asked == Some(SubagentRequest::Back) <==> i >= forest.nodes.len()
                || !forest.nodes[i].story.tools_focused
            &&& asked is Some ==> next == forest
            &&& asked is None ==> !next.nodes[i].story.tools_focused
        }),
{
    lemma_twig_found(forest.nodes, id, 0);
}

/// An event in a subagent's transcript changes no other subagent.
pub proof fn law_other_transcripts_stay(forest: Forest, id: u64, event: Event, j: int)
    requires
        0 <= j < forest.nodes.len(),
        j != twig_index(forest.nodes, id, 0),
    ensures
        forest.on_transcript(id, event).0.nodes[j] == forest.nodes[j],
        forest.on_transcript(id, event).0.selected == forest.selected,
        forest.on_transcript(id, event).0.nodes.len() == forest.nodes.len(),
{
    lemma_twig_found(forest.nodes, id, 0);
}

/// A new effort is that of all subagents, and of nothing else about them; a frame moves no subagent
/// to another state.
pub proof fn law_efforts_reach_all_subagents(
    forest: Forest,
    effort: crate::settings::ReasoningEffort,
    now: int,
    i: int,
)
    requires
        0 <= i < forest.nodes.len(),
    ensures
        forest.with_effort(effort).effort == effort,
        forest.with_effort(effort).nodes.len() == forest.nodes.len(),
        forest.with_effort(effort).nodes[i].story.effort == effort,
        forest.with_effort(effort).nodes[i].status == forest.nodes[i].status,
        forest.with_effort(effort).nodes[i].descriptor == forest.nodes[i].descriptor,
        forest.with_effort(effort).nodes[i].story.content == forest.nodes[i].story.content,
        forest.advanced(now).nodes.len() == forest.nodes.len(),
        forest.advanced(now).nodes[i].status == forest.nodes[i].status,
        forest.advanced(now).nodes[i].descriptor == forest.nodes[i].descriptor,
        forest.advanced(now).nodes[i].story.content == forest.nodes[i].story.content,
        forest.advanced(now).nodes[i].story.viewport == forest.nodes[i].story.viewport,
{
}

/// A margin is as wide on the right as on the left and as high below as above; what is left lies
/// within the area.
pub proof fn law_margins_are_even(
    area: crate::geometry::Rect,
    horizontal: int,
    vertical: int,
)
    requires
        0 <= horizontal && 0 <= vertical,
        2 * horizontal <= area.width,
        2 * vertical <= area.height,
        area.x + area.width <= u16::MAX,
        area.y + area.height <= u16::MAX,
    ensures
        ({
            let part = crate::subagents::inset_of(area, horizontal, vertical);
            &&& part.x - area.x == horizontal
            &&& (area.x + area.width) - (part.x + part.width) == horizontal
            &&& part.y - area.y == vertical
            &&& (area.y + area.height) - (part.y + part.height) == vertical
        }),
{
}

/// The tree shows a line for the main agent first and then one item for each subagent that is seen.
pub proof fn law_the_tree_shows_everyone(forest: Forest, columns: int)
    ensures
        forest.tree_items(columns).len() == forest.visible().len() + 1,
        forest.tree_items(columns)[0] == forest.main_lines(),
        forest.main_lines().len() == 1,
        forest.main_lines()[0][1].text == "main agent"@,
        forest.main_lines()[0][2].text == "  ·  "@ + decimal(forest.active()) + " active · "@
            + decimal(forest.visible().len() as int) + " total"@,
        forall|i: int|
            0 <= i < forest.visible().len() ==> #[trigger] forest.tree_items(columns)[i + 1]
                == twig_lines(
                forest.nodes[forest.visible()[i].index],
                forest.visible()[i],
                i == forest.selected,
                columns,
            ),
{
}

/// The popup of the tree grows by two rows with each subagent, from eight rows to twenty-two, and
/// its title tells the limit.
pub proof fn law_the_popup_grows_with_the_tree(forest: Forest)
    ensures
        8 <= forest.tree_popup().height <= 22,
        1 <= forest.visible().len() <= 8 ==> forest.tree_popup().height == 2
            * forest.visible().len() + 6,
        forest.visible().len() > 8 ==> forest.tree_popup().height == 22,
        forest.visible().len() == 0 ==> forest.tree_popup().height == 8,
        forest.tree_popup().title == "Subagents · limit "@ + decimal(forest.max_subagents as int),
        forest.tree_popup().width == 74,
{
}

/// A subagent's transcript takes four fifths of the area in each direction, and its title names the
/// subagent. The transcript is as wide as its popup within the frame.
pub proof fn law_transcripts_take_four_fifths(
    forest: Forest,
    i: int,
    area: crate::geometry::Rect,
)
    requires
        area.width <= 16383,
        area.height <= 16383,
    ensures
        ({
            let frame = forest.transcript_popup(i, area);
            &&& 5 * frame.width <= 4 * area.width < 5 * frame.width + 5
            &&& 5 * frame.height <= 4 * area.height < 5 * frame.height + 5
            &&& frame.title == forest.nodes[i].descriptor.role@ + " · #"@ + decimal(
                forest.nodes[i].descriptor.id as int,
            )
            &&& frame.width >= 2 ==> crate::subagents::transcript_columns(area) == frame.width - 2
        }),
{
}

/// Drawing one subagent's transcript leaves the others as they were; one that is not there changes
/// nothing.
pub proof fn law_drawing_leaves_the_others(
    forest: Forest,
    id: u64,
    area: crate::geometry::Rect,
    j: int,
)
    requires
        0 <= j < forest.nodes.len(),
    ensures
        twig_index(forest.nodes, id, 0) >= forest.nodes.len() ==> forest.transcript_rendered(
            id,
            area,
        ) == forest && forest.transcript_picture(id, area).len() == 0,
        j != twig_index(forest.nodes, id, 0) ==> forest.transcript_rendered(id, area).nodes[j]
            == forest.nodes[j],
        forest.transcript_rendered(id, area).nodes[j].descriptor == forest.nodes[j].descriptor,
        forest.transcript_rendered(id, area).nodes[j].status == forest.nodes[j].status,
{
    lemma_twig_found(forest.nodes, id, 0);
}

/// The tree marks the selected subagent, below the main agent; without subagents it says so.
pub proof fn law_the_selected_subagent_is_marked(forest: Forest, area: crate::geometry::Rect)
    requires
        !forest.tree_popup().body(area).empty(),
    ensures
        forest.visible().len() > 0 ==> forest.tree_picture(area).last() is Tree
            && forest.tree_picture(area).last()->Tree_row == forest.selected + 1
            && forest.tree_picture(area).last()->Tree_items.len() == forest.visible().len() + 1,
        forest.visible().len() == 0 ==> forest.tree_picture(area).last() is Paragraph
            && forest.tree_picture(area).last()->Paragraph_text
            == "No subagents have been delegated yet."@,
{
}

} // verus!
