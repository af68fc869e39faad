//! What holds of a selection.

use crate::geometry::{nearest, Position, Rect};
use crate::order::texts;
use crate::selection::{
    captured, Point, SelectedRow, Selection, Snapshot, Span, Surface,
};
use crate::text::{display_width, is_white_space, joined, without_blank_end};
use vstd::prelude::*;

verus! {

/// One cell is another one or stands in front of it in reading order.
pub open spec fn reads_before(a: Position, b: Position) -> bool {
    a.y < b.y || a.y == b.y && a.x <= b.x
}

/// A cell lies in one of the selected parts of rows.
pub open spec fn is_selected(rows: Seq<SelectedRow>, p: Position) -> bool {
    exists|i: int| 0 <= i < rows.len() && #[trigger] rows[i].y == p.y && rows[i].start <= p.x
        <= rows[i].end
}

/// A cell of the area is selected exactly if it lies between the two ends in reading order.
pub proof fn law_cells_between_the_ends_are_selected(span: Span, area: Rect, p: Position)
    requires
        area.covers(p),
        area.covers(span.anchor.position),
        area.covers(span.head.position),
    ensures
        is_selected(span.rows(area), p) <==> {
            ||| reads_before(span.anchor.position, p) && reads_before(p, span.head.position)
            ||| reads_before(span.head.position, p) && reads_before(p, span.anchor.position)
        },
{
    let rows = span.rows(area);
    if span.first().y <= p.y <= span.last().y {
        assert(rows[p.y - span.first().y].y == p.y);
    }
}

/// Every row between the first and the last one is selected from the first column of the area to
/// its last.
pub proof fn law_inner_rows_are_whole(span: Span, area: Rect, i: int)
    requires
        area.covers(span.anchor.position),
        area.covers(span.head.position),
        0 < i < span.rows(area).len() - 1,
    ensures
        span.rows(area)[i].start == area.x,
        span.rows(area)[i].end + 1 == area.right_edge(),
        span.rows(area)[i].y == span.rows(area)[0].y + i,
{
}

/// White space at the end is left out, and nothing else.
pub proof fn law_blank_ends_are_cut(s: Seq<char>)
    ensures
        without_blank_end(s).is_prefix_of(s),
        without_blank_end(s).len() > 0 ==> !is_white_space(without_blank_end(s).last()),
        forall|i: int| without_blank_end(s).len() <= i < s.len() ==> is_white_space(#[trigger] s[i]),
    decreases s.len(),
{
    if s.len() > 0 && is_white_space(s.last()) {
        law_blank_ends_are_cut(s.drop_last());
        assert forall|i: int| without_blank_end(s).len() <= i < s.len() implies is_white_space(
            #[trigger] s[i],
        ) by {
            if i < s.len() - 1 {
                assert(s.drop_last()[i] == s[i]);
            }
        }
    }
}

/// The snapshot holds every cell of its area.
pub open spec fn is_whole(snapshot: Snapshot) -> bool {
    &&& snapshot.area.fits()
    &&& snapshot.rows@.len() == snapshot.area.height
    &&& forall|i: int|
        0 <= i < snapshot.rows@.len() ==> (#[trigger] snapshot.rows@[i])@.len()
            == snapshot.area.width
}

/// The symbols of a row of a snapshot from one column to another, without white space at the end.
pub open spec fn line_between(snapshot: Snapshot, y: int, from: int, to: int) -> Seq<char> {
    without_blank_end(
        joined(
            texts(snapshot.rows@[y - snapshot.area.y]@).subrange(
                from - snapshot.area.x,
                to + 1 - snapshot.area.x,
            ),
        ),
    )
}

/// A selection in one row is the text from its left end to its right end.
pub proof fn law_one_row_is_copied(snapshot: Snapshot, span: Span)
    requires
        is_whole(snapshot),
        snapshot.area.covers(span.anchor.position),
        snapshot.area.covers(span.head.position),
        span.anchor.position.y == span.head.position.y,
        span.anchor.position.x <= span.head.position.x,
    ensures
        snapshot.selected_text(span) == line_between(
            snapshot,
            span.anchor.position.y as int,
            span.anchor.position.x as int,
            span.head.position.x as int,
        ),
{
    reveal_with_fuel(Snapshot::copied, 3);
    let rows = span.rows(snapshot.area);
    assert(rows.len() == 1);
    assert(snapshot.has(rows[0]));
}

/// A selection that goes on into further rows is the text from its start to the end of the row,
/// the rows between, and the text of the last row up to its end, each on a line of its own.
pub proof fn law_rows_are_copied_line_by_line(snapshot: Snapshot, span: Span)
    requires
        is_whole(snapshot),
        snapshot.area.covers(span.anchor.position),
        snapshot.area.covers(span.head.position),
        span.anchor.position.y < span.head.position.y,
    ensures
        ({
            let start = span.anchor.position;
            let end = span.head.position;
            let area = snapshot.area;
            snapshot.selected_text(span) == line_between(
                snapshot,
                start.y as int,
                start.x as int,
                area.x + area.width - 1,
            ) + whole_lines(snapshot, start.y + 1, end.y as int) + "\n"@ + line_between(
                snapshot,
                end.y as int,
                area.x as int,
                end.x as int,
            )
        }),
{
    let rows = span.rows(snapshot.area);
    let n = rows.len() as int;
    lemma_copied(snapshot, span, n - 1);
    assert(snapshot.has(rows[n - 1]));
}

/// The rows from one up to another, each behind a line break.
pub open spec fn whole_lines(snapshot: Snapshot, from: int, to: int) -> Seq<char>
    decreases to - from,
{
    if to <= from {
        Seq::empty()
    } else {
        whole_lines(snapshot, from, to - 1) + "\n"@ + line_between(
            snapshot,
            to - 1,
            snapshot.area.x as int,
            snapshot.area.x + snapshot.area.width - 1,
        )
    }
}

proof fn lemma_copied(snapshot: Snapshot, span: Span, n: int)
    requires
        is_whole(snapshot),
        snapshot.area.covers(span.anchor.position),
        snapshot.area.covers(span.head.position),
        span.anchor.position.y < span.head.position.y,
        0 < n < span.rows(snapshot.area).len(),
    ensures
        snapshot.copied(span.rows(snapshot.area), n) == (
            line_between(
                snapshot,
                span.anchor.position.y as int,
                span.anchor.position.x as int,
                snapshot.area.x + snapshot.area.width - 1,
            ) + whole_lines(
                snapshot,
                span.anchor.position.y + 1,
                span.anchor.position.y + n,
            ),
            true,
        ),
    decreases n,
{
    let rows = span.rows(snapshot.area);
    assert(snapshot.has(rows[n - 1]));
    let first = line_between(
        snapshot,
        span.anchor.position.y as int,
        span.anchor.position.x as int,
        snapshot.area.x + snapshot.area.width - 1,
    );
    if n > 1 {
        lemma_copied(snapshot, span, n - 1);
        let y = span.anchor.position.y + n - 1;
        let line = snapshot.line(rows[n - 1]);
        let before = whole_lines(snapshot, span.anchor.position.y + 1, y);
        assert(first + before + "\n"@ + line =~= first + (before + "\n"@ + line));
    } else {
        reveal_with_fuel(Snapshot::copied, 2);
        assert(first + whole_lines(
            snapshot,
            span.anchor.position.y + 1,
            span.anchor.position.y + 1,
        ) =~= first);
    }
}

/// Where no symbol is wider than a cell, every cell is taken as it is.
pub proof fn law_narrow_symbols_are_taken(cells: Seq<Seq<char>>, n: int)
    requires
        0 <= n <= cells.len(),
        forall|i: int| 0 <= i < cells.len() ==> display_width(#[trigger] cells[i]) <= 1,
    ensures
        captured(cells, n) == (cells.take(n), 0int),
    decreases n,
{
    if n > 0 {
        law_narrow_symbols_are_taken(cells, n - 1);
        assert(cells.take(n) =~= cells.take(n - 1).push(cells[n - 1]));
    } else {
        assert(cells.take(0) =~= Seq::empty());
    }
}

/// A wide symbol is taken once: the cells that it covers hold nothing, and the cell behind them is
/// taken again.
pub proof fn law_wide_symbols_are_taken_once(cells: Seq<Seq<char>>, k: int, n: int)
    requires
        0 <= k < n <= cells.len(),
        captured(cells, k).1 == 0,
    ensures
        captured(cells, n).0.len() == n,
        captured(cells, n).0[k] == cells[k],
        forall|j: int|
            k < j < n && j < k + display_width(cells[k]) ==> (#[trigger] captured(
                cells,
                n,
            ).0[j]).len() == 0,
        n <= k + display_width(cells[k]) ==> captured(cells, n).1 == k + display_width(cells[k]) - n,
    decreases n,
{
    lemma_captured_length(cells, n - 1);
    if n - 1 > k {
        law_wide_symbols_are_taken_once(cells, k, n - 1);
        assert forall|j: int| k < j < n && j < k + display_width(cells[k]) implies (
        #[trigger] captured(cells, n).0[j]).len() == 0 by {
            if j < n - 1 {
                assert(captured(cells, n).0[j] == captured(cells, n - 1).0[j]);
            }
        }
    }
}

proof fn lemma_captured_length(cells: Seq<Seq<char>>, n: int)
    requires
        0 <= n <= cells.len(),
    ensures
        captured(cells, n).0.len() == n,
        captured(cells, n).1 >= 0,
    decreases n,
{
    if n > 0 {
        lemma_captured_length(cells, n - 1);
    }
}

/// The distance of two numbers.
pub open spec fn distance(a: int, b: int) -> int {
    if a <= b {
        b - a
    } else {
        a - b
    }
}

/// A position is moved into an area no further than it must, and not at all where it lies there.
pub proof fn law_the_nearest_cell(p: Position, area: Rect, q: Position)
    requires
        area.fits(),
        area.covers(q),
    ensures
        area.covers(nearest(p, area)),
        area.covers(p) ==> nearest(p, area) == p,
        distance(p.x as int, nearest(p, area).x as int) <= distance(p.x as int, q.x as int),
        distance(p.y as int, nearest(p, area).y as int) <= distance(p.y as int, q.y as int),
{
}

/// A click that is drawn from one cell to another selects from the one to the other, whatever lay
/// between; a click that did not move selects nothing.
pub proof fn law_dragging_selects(
    surface: Surface,
    from: Position,
    between: Position,
    to: Position,
    area: Rect,
)
    requires
        area.fits(),
        area.covers(from),
        area.covers(to),
    ensures
        ({
            let begun = Selection::begun(surface, from);
            let done = begun.dragged(between, area).finished(to, area);
            &&& begun.range is None
            &&& done.range == Some(
                Span { anchor: Point { surface, position: from }, head: Point { surface, position: to } },
            )
            &&& done.pending is None
            &&& from != to ==> begun.finished(to, area).range == done.range
            &&& from == to ==> begun.finished(to, area).range is None
            &&& begun.finished(to, area).pending is None
        }),
{
    law_the_nearest_cell(to, area, to);
}

/// Once cleared twice, or once its text was taken, nothing is selected any more.
pub proof fn law_a_selection_ends(selection: Selection)
    ensures
        !selection.cleared().cleared().stirs(),
        selection.stirs() <==> selection.start() is Some,
        selection.pending is None ==> !selection.cleared().stirs(),
        selection.emptied().range is None,
        selection.chosen_text() is Some ==> selection.emptied().start() is None,
        selection.range is None ==> selection.chosen_text() is None && selection.emptied()
            == selection,
{
}

/// What is selected is taken where it is not blank, and nothing is taken where there is no picture of
/// the screen.
pub proof fn law_selected_text_is_taken(selection: crate::selection::Selection)
    ensures
        selection.snapshot is None ==> selection.chosen_text() is None,
        selection.chosen_text() matches Some(text) ==> text.len() > 0 && text
            == selection.snapshot->0.selected_text(selection.range->0),
        selection.range is Some && selection.snapshot is Some
            && selection.snapshot->0.selected_text(selection.range->0).len() > 0
            ==> selection.chosen_text() is Some,
{
}

} // verus!
