//! What holds of a draft: of its images whatever its text, and of its cursor where the text is made of
//! printable characters of ASCII and line breaks.

use crate::clipboard::{base64_text, png_url};
use crate::draft::{
    beginning_at, cut_tokens, fallen, lemma_beginning_at, lemma_insertion_point, lemma_token_over,
    token_over, Editing,
};
use crate::layout::{
    at_least_one, clusters_before, cursor_column, cursor_row, first_row, holds, law_rows_fit,
    line_rows, logical_rows, offset_at_column, row_clusters, text_rows, wrapped, Row,
};
use crate::layout_laws::{
    is_typed, lemma_plain, lemma_plain_columns, lemma_plain_place, lemma_printable,
    lemma_run_until_found, lemma_singles, lemma_text_rows,
};
use crate::geometry::least;
use crate::numeral::decimal;
use crate::prompt::{appended, placed, PromptModel, Token};
use crate::text::{
    after, before, begins, between, byte_len, char_index, clusters, is_offset, is_plain,
    is_printable, lemma_char_index, run_until, singles,
};
use vstd::prelude::*;

verus! {

proof fn lemma_bytes(s: Seq<char>)
    requires
        is_typed(s),
    ensures
        byte_len(s) == s.len(),
{
    assert forall|i: int| 0 <= i < s.len() implies '\0' <= #[trigger] s[i] <= '\u{7f}' by {
        if is_printable(s[i]) {
            lemma_printable(s[i]);
        }
    }
    vstd::utf8::is_ascii_chars_encode_utf8(s);
}

pub proof fn lemma_index(s: Seq<char>, k: int)
    requires
        is_typed(s),
        0 <= k <= s.len(),
    ensures
        is_offset(s, k),
        char_index(s, k) == k,
        before(s, k) == s.take(k),
        after(s, k) == s.skip(k),
{
    let head = s.take(k);
    assert forall|i: int| 0 <= i < head.len() implies is_printable(#[trigger] head[i]) || head[i]
        == '\n' by {
        assert(head[i] == s[i]);
    }
    lemma_bytes(head);
    lemma_char_index(s, k);
}

/// A row as wide as its text is long.
pub open spec fn is_even(row: Row) -> bool {
    row.start <= row.end && row.width == row.end - row.start
}

/// Row `i` is not empty and the next one begins at its end, or the next one begins behind a line
/// break.
pub open spec fn leads_on(list: Seq<Row>, i: int) -> bool {
    ||| list[i].start < list[i].end && list[i + 1].start == list[i].end
    ||| list[i + 1].start == list[i].end + 1
}

/// Rows that cover the text between two offsets.
pub open spec fn spans(list: Seq<Row>, from: int, to: int) -> bool {
    &&& list.len() > 0
    &&& list[0].start == from
    &&& list.last().end == to
    &&& forall|i: int| 0 <= i < list.len() ==> is_even(#[trigger] list[i])
    &&& forall|i: int| 0 <= i < list.len() - 1 ==> #[trigger] leads_on(list, i)
}

proof fn lemma_glued(a: Seq<Row>, b: Seq<Row>, from: int, mid: int, next: int, to: int)
    requires
        spans(a, from, mid),
        spans(b, next, to),
        next == mid + 1 || next == mid && a.last().start < a.last().end,
    ensures
        spans(a + b, from, to),
{
    let list = a + b;
    assert forall|i: int| 0 <= i < list.len() implies is_even(#[trigger] list[i]) by {
        if i < a.len() {
            assert(list[i] == a[i]);
        } else {
            assert(list[i] == b[i - a.len()]);
        }
    }
    assert forall|i: int| 0 <= i < list.len() - 1 implies #[trigger] leads_on(list, i) by {
        if i < a.len() - 1 {
            assert(leads_on(a, i));
        } else if i == a.len() - 1 {
            assert(list[i] == a.last() && list[i + 1] == b[0]);
        } else {
            assert(leads_on(b, i - a.len()));
        }
    }
}

proof fn lemma_wrapped_spans(rest: Seq<char>, base: int, width: int)
    requires
        is_plain(rest),
        rest.len() > 0,
        width >= 0,
    ensures
        spans(wrapped(rest, base, width), base, base + rest.len()),
        wrapped(rest, base, width).last().start < wrapped(rest, base, width).last().end,
    decreases rest.len(),
{
    let parts = clusters(rest);
    let first = first_row(rest, width);
    lemma_plain(rest);
    law_rows_fit(parts, width);
    let n = row_clusters(parts, width);
    lemma_singles(rest, n);
    assert(first == rest.take(n));
    assert forall|j: int| 0 <= j < first.len() implies is_printable(#[trigger] first[j]) by {
        assert(first[j] == rest[j]);
    }
    lemma_plain(first);
    lemma_bytes(first);
    let tail = rest.skip(n);
    let row = Row { start: base, end: base + n, width: n };
    let more = wrapped(tail, base + n, width);
    assert(wrapped(rest, base, width) == seq![row] + more);
    if tail.len() > 0 {
        assert forall|j: int| 0 <= j < tail.len() implies is_printable(#[trigger] tail[j]) by {
            assert(tail[j] == rest[j + n]);
        }
        lemma_wrapped_spans(tail, base + n, width);
        lemma_glued(seq![row], more, base, base + n, base + n, base + rest.len());
        assert((seq![row] + more).last() == more.last());
    } else {
        assert(more =~= Seq::<Row>::empty());
        assert(seq![row] + more =~= seq![row]);
    }
}

proof fn lemma_line_spans(text: Seq<char>, base: int, width: int)
    requires
        is_typed(text),
        width >= 0,
    ensures
        spans(line_rows(text, base, width), base, base + text.len()),
    decreases text.len(),
{
    let n = run_until(text, '\n');
    lemma_run_until_found(text, '\n');
    let line = text.take(n);
    assert forall|j: int| 0 <= j < line.len() implies is_printable(#[trigger] line[j]) by {
        assert(line[j] == text[j]);
    }
    if line.len() > 0 {
        lemma_wrapped_spans(line, base, width);
    }
    if n >= text.len() {
        assert(line =~= text);
    } else {
        let rest = text.skip(n + 1);
        let head = text.take(n + 1);
        assert forall|j: int| 0 <= j < head.len() implies is_printable(#[trigger] head[j]) || head[j]
            == '\n' by {
            assert(head[j] == text[j]);
        }
        assert forall|j: int| 0 <= j < rest.len() implies is_printable(#[trigger] rest[j]) || rest[j]
            == '\n' by {
            assert(rest[j] == text[j + n + 1]);
        }
        lemma_bytes(head);
        lemma_line_spans(rest, base + n + 1, width);
        lemma_glued(
            logical_rows(line, base, width),
            line_rows(rest, base + n + 1, width),
            base,
            base + n,
            base + n + 1,
            base + text.len(),
        );
    }
}

/// The rows of a text cover it from its start to its end, and every one of them leads on to the
/// next.
pub proof fn law_rows_cover_the_text(text: Seq<char>, width: int)
    requires
        is_typed(text),
        width > 0,
    ensures
        spans(text_rows(text, width), 0, text.len() as int),
{
    let lines = line_rows(text, 0, width);
    lemma_line_spans(text, 0, width);
    lemma_bytes(text);
    let end = text.len() as int;
    if lines.last().width == width {
        assert(is_even(lines.last()));
        let row = Row { start: end, end, width: 0 };
        assert(spans(seq![row], end, end));
        lemma_glued(lines, seq![row], 0, end, end, end);
        assert(lines.push(row) =~= lines + seq![row]);
    }
}

proof fn lemma_order(list: Seq<Row>, from: int, to: int, i: int, j: int)
    requires
        spans(list, from, to),
        0 <= i <= j < list.len(),
    ensures
        list[i].start <= list[j].start,
        list[i].end <= list[j].end,
    decreases j - i,
{
    if i < j {
        assert(leads_on(list, i));
        assert(is_even(list[i]) && is_even(list[i + 1]));
        lemma_order(list, from, to, i + 1, j);
    }
}

/// A row that holds the cursor between its ends is the cursor's row.
proof fn lemma_found(list: Seq<Row>, from: int, to: int, cursor: int, k: int, r: int)
    requires
        spans(list, from, to),
        0 <= k <= r < list.len(),
        list[r].start <= cursor <= list[r].end,
        holds(list, r, cursor),
    ensures
        cursor_row(list, cursor, k) == r,
    decreases r - k,
{
    if k < r {
        assert(leads_on(list, k));
        assert(is_even(list[k]));
        lemma_order(list, from, to, k + 1, r);
        lemma_found(list, from, to, cursor, k + 1, r);
    }
}

/// The cursor's row reaches from the cursor's left to its right.
proof fn lemma_row(list: Seq<Row>, from: int, to: int, cursor: int, k: int)
    requires
        spans(list, from, to),
        0 <= k < list.len(),
        list[k].start <= cursor <= to,
    ensures
        k <= cursor_row(list, cursor, k) < list.len(),
        list[cursor_row(list, cursor, k)].start <= cursor <= list[cursor_row(list, cursor, k)].end,
    decreases list.len() - k,
{
    assert(is_even(list[k]));
    if k < list.len() - 1 && !holds(list, k, cursor) {
        assert(leads_on(list, k));
        lemma_row(list, from, to, cursor, k + 1);
    }
}

/// The offset at a column of a row: as many bytes behind the row's start, but not beyond its end.
proof fn lemma_offset_at(text: Seq<char>, width: int, r: int, target: int)
    requires
        is_typed(text),
        width > 0,
        0 <= r < text_rows(text, width).len(),
        target >= 0,
    ensures
        ({
            let row = text_rows(text, width)[r];
            offset_at_column(text, row, target) == row.start + least(target, row.width)
        }),
{
    let list = text_rows(text, width);
    let row = list[r];
    law_rows_cover_the_text(text, width);
    lemma_order(list, 0, text.len() as int, 0, r);
    lemma_order(list, 0, text.len() as int, r, list.len() - 1);
    assert(is_even(row));
    lemma_text_rows(text, width, r);
    lemma_index(text, row.start);
    lemma_index(text, row.end);
    let inner = between(text, row.start, row.end);
    lemma_plain(inner);
    let n = least(target, inner.len() as int);
    if target <= inner.len() {
        lemma_plain_place(inner, target, 0);
    } else {
        lemma_all_before(inner, target, 0);
    }
    lemma_singles(inner, n);
    let head = inner.take(n);
    assert forall|j: int| 0 <= j < head.len() implies is_printable(#[trigger] head[j]) by {
        assert(head[j] == inner[j]);
    }
    lemma_bytes(head);
}

proof fn lemma_all_before(s: Seq<char>, target: int, n: int)
    requires
        is_plain(s),
        s.len() <= target,
        0 <= n <= s.len(),
    ensures
        clusters_before(singles(s), target, n) == s.len(),
    decreases s.len() - n,
{
    if n < s.len() {
        lemma_plain_columns(s, n + 1);
        lemma_all_before(s, target, n + 1);
    }
}

/// The draft holds printable characters of ASCII and line breaks, and its cursor lies in it.
pub open spec fn is_simple(draft: Editing) -> bool {
    &&& is_typed(draft.text)
    &&& 0 <= draft.cursor <= draft.text.len()
    &&& draft.preferred matches Some(column) ==> column >= 0
}

/// The cursor can stand in a row at a column: the row is longer, or no row begins at its end.
pub open spec fn has_room(list: Seq<Row>, r: int, column: int) -> bool {
    column < list[r].width || r + 1 == list.len() || list[r + 1].start > list[r].end
}

/// The draft after a vertical movement stands in another row: at the column that is aimed at, or at
/// the row's end where the row is shorter.
pub open spec fn stands_in(draft: Editing, width: int, r: int, column: int, next: Editing) -> bool {
    let list = draft.visual_rows(width);
    &&& next.text == draft.text
    &&& next.images == draft.images
    &&& 0 <= next.cursor <= next.text.len()
    &&& next.cursor == list[r].start + least(column, list[r].width)
    &&& next.preferred == Some(column)
    &&& has_room(list, r, column) ==> next.visual_row(width) == r
}

proof fn lemma_stands_in(draft: Editing, width: int, r: int)
    requires
        is_simple(draft),
        0 <= r < draft.visual_rows(width).len(),
        draft.aim(width) >= 0,
    ensures
        stands_in(draft, width, r, draft.aim(width), draft.in_row(r, width)),
{
    let wide = at_least_one(width);
    let list = draft.visual_rows(width);
    let column = draft.aim(width);
    let next = draft.in_row(r, width);
    law_rows_cover_the_text(draft.text, wide);
    lemma_offset_at(draft.text, wide, r, column);
    lemma_order(list, 0, draft.text.len() as int, 0, r);
    lemma_order(list, 0, draft.text.len() as int, r, list.len() - 1);
    assert(is_even(list[r]));
    if has_room(list, r, column) {
        if r + 1 < list.len() {
            assert(leads_on(list, r));
        }
        assert(holds(list, r, next.cursor));
        lemma_found(list, 0, draft.text.len() as int, next.cursor, 0, r);
    }
}

proof fn lemma_here(draft: Editing, width: int)
    requires
        is_simple(draft),
    ensures
        ({
            let list = draft.visual_rows(width);
            let r = draft.visual_row(width);
            &&& 0 <= r < list.len()
            &&& list[r].start <= draft.cursor <= list[r].end
            &&& is_even(list[r])
            &&& cursor_column(draft.text, list[r], draft.cursor) == draft.cursor - list[r].start
            &&& draft.aim(width) >= 0
        }),
{
    let wide = at_least_one(width);
    let list = draft.visual_rows(width);
    law_rows_cover_the_text(draft.text, wide);
    lemma_row(list, 0, draft.text.len() as int, draft.cursor, 0);
    let r = draft.visual_row(width);
    let row = list[r];
    assert(is_even(row));
    lemma_order(list, 0, draft.text.len() as int, 0, r);
    lemma_order(list, 0, draft.text.len() as int, r, list.len() - 1);
    lemma_text_rows(draft.text, wide, r);
    lemma_index(draft.text, row.start);
    lemma_index(draft.text, draft.cursor);
    lemma_index(draft.text, row.end);
    let head = between(draft.text, row.start, draft.cursor);
    let inner = between(draft.text, row.start, row.end);
    assert forall|j: int| 0 <= j < head.len() implies is_printable(#[trigger] head[j]) by {
        assert(head[j] == inner[j]);
    }
    lemma_plain(head);
}

/// Down moves the cursor to the next row and up to the row before it, by one row and no more, at
/// the column that is aimed at or at the end of a shorter row. There is no way up from the first row
/// nor down from the last one.
pub proof fn law_vertical_movement_is_by_one_row(draft: Editing, width: int)
    requires
        is_simple(draft),
    ensures
        ({
            let list = draft.visual_rows(width);
            let r = draft.visual_row(width);
            let column = draft.aim(width);
            &&& 0 <= r < list.len()
            &&& draft.down(width) is Some <==> r + 1 < list.len()
            &&& draft.up(width) is Some <==> r > 0
            &&& draft.down(width) matches Some(next) ==> stands_in(draft, width, r + 1, column, next)
            &&& draft.up(width) matches Some(next) ==> stands_in(draft, width, r - 1, column, next)
        }),
{
    lemma_here(draft, width);
    let r = draft.visual_row(width);
    if r + 1 < draft.visual_rows(width).len() {
        lemma_stands_in(draft, width, r + 1);
    }
    if r > 0 {
        lemma_stands_in(draft, width, r - 1);
    }
}

/// Where the next row has room at the cursor's column, down and then up bring the cursor back; where
/// the row before has room, so do up and then down.
pub proof fn law_down_and_up(draft: Editing, width: int)
    requires
        is_simple(draft),
        draft.preferred is None,
    ensures
        ({
            let list = draft.visual_rows(width);
            let r = draft.visual_row(width);
            let column = draft.cursor - list[r].start;
            &&& r + 1 < list.len() && has_room(list, r + 1, column) ==> draft.down(width) is Some
                && draft.down(width)->0.up(width) is Some
                && draft.down(width)->0.up(width)->0.cursor == draft.cursor
            &&& r > 0 && has_room(list, r - 1, column) ==> draft.up(width) is Some && draft.up(
                width,
            )->0.down(width) is Some && draft.up(width)->0.down(width)->0.cursor == draft.cursor
        }),
{
    let list = draft.visual_rows(width);
    let r = draft.visual_row(width);
    let column = draft.cursor - list[r].start;
    lemma_here(draft, width);
    law_vertical_movement_is_by_one_row(draft, width);
    if r + 1 < list.len() && has_room(list, r + 1, column) {
        law_vertical_movement_is_by_one_row(draft.down(width)->0, width);
    }
    if r > 0 && has_room(list, r - 1, column) {
        law_vertical_movement_is_by_one_row(draft.up(width)->0, width);
    }
}

/// The start and the end of a row are reached without leaving the row. From the start, nothing is
/// in front of the cursor in its row.
pub proof fn law_row_ends_are_in_the_row(draft: Editing, width: int)
    requires
        is_simple(draft),
    ensures
        ({
            let list = draft.visual_rows(width);
            let r = draft.visual_row(width);
            &&& draft.at_edge(false, width) is None <==> draft.cursor == list[r].start
            &&& draft.at_edge(true, width) is None <==> draft.cursor == list[r].end
            &&& draft.at_edge(false, width) matches Some(next) ==> next.cursor < draft.cursor
                && next.text == draft.text && next.visual_row(width) == r && next.aim(width) == 0
            &&& draft.at_edge(true, width) matches Some(next) ==> next.cursor > draft.cursor
                && next.text == draft.text && (next.visual_row(width) == r || next.visual_row(width)
                == r + 1 && next.aim(width) == 0)
        }),
{
    let list = draft.visual_rows(width);
    let r = draft.visual_row(width);
    let end = draft.text.len() as int;
    lemma_here(draft, width);
    law_rows_cover_the_text(draft.text, at_least_one(width));
    lemma_order(list, 0, end, 0, r);
    lemma_order(list, 0, end, r, list.len() - 1);
    if let Some(next) = draft.at_edge(false, width) {
        assert(holds(list, r, next.cursor));
        lemma_found(list, 0, end, next.cursor, 0, r);
        lemma_here(next, width);
    }
    if let Some(next) = draft.at_edge(true, width) {
        if holds(list, r, next.cursor) {
            lemma_found(list, 0, end, next.cursor, 0, r);
        } else {
            assert(is_even(list[r + 1]));
            assert(holds(list, r + 1, next.cursor)) by {
                if r + 2 < list.len() {
                    assert(leads_on(list, r + 1));
                }
            }
            lemma_found(list, 0, end, next.cursor, 0, r + 1);
        }
        lemma_here(next, width);
    }
}

proof fn lemma_no_token(images: Seq<Token>, low: int, high: int)
    requires
        images.len() == 0,
    ensures
        token_over(images, low, high, 0) == images.len(),
        beginning_at(images, low, 0) == 0,
{
}

/// Text that is typed stands where the cursor was, and the cursor stands behind it.
pub proof fn law_typed_text_stands_at_the_cursor(draft: Editing, added: Seq<char>)
    requires
        is_simple(draft),
        draft.images.len() == 0,
    ensures
        ({
            let next = draft.inserted(added);
            &&& next.text == draft.text.take(draft.cursor) + added + draft.text.skip(draft.cursor)
            &&& is_typed(added) ==> next.cursor == draft.cursor + added.len()
            &&& next.preferred is None
        }),
{
    lemma_index(draft.text, draft.cursor);
    lemma_no_token(draft.images, draft.cursor - 1, draft.cursor + 1);
    if is_typed(added) {
        lemma_bytes(added);
    }
}

/// The text has no line break next to the cursor, so that its parts are plain.
pub open spec fn is_line(draft: Editing) -> bool {
    is_simple(draft) && is_plain(draft.text)
}

proof fn lemma_neighbours(draft: Editing)
    requires
        is_line(draft),
    ensures
        draft.cursor == 0 ==> draft.previous_cluster() is None,
        draft.cursor > 0 ==> draft.previous_cluster() == Some(seq![draft.text[draft.cursor - 1]]),
        draft.cursor == draft.text.len() ==> draft.next_cluster() is None,
        draft.cursor < draft.text.len() ==> draft.next_cluster() == Some(
            seq![draft.text[draft.cursor]],
        ),
{
    let head = draft.text.take(draft.cursor);
    let tail = draft.text.skip(draft.cursor);
    lemma_index(draft.text, draft.cursor);
    assert forall|j: int| 0 <= j < head.len() implies is_printable(#[trigger] head[j]) by {
        assert(head[j] == draft.text[j]);
    }
    assert forall|j: int| 0 <= j < tail.len() implies is_printable(#[trigger] tail[j]) by {
        assert(tail[j] == draft.text[j + draft.cursor]);
    }
    lemma_plain(head);
    lemma_plain(tail);
    if head.len() > 0 {
        assert(singles(head).last() =~= seq![draft.text[draft.cursor - 1]]);
    }
    if tail.len() > 0 {
        assert(singles(tail)[0] =~= seq![draft.text[draft.cursor]]);
    }
}

proof fn lemma_one_byte(c: char)
    requires
        is_printable(c),
    ensures
        byte_len(seq![c]) == 1,
{
    let s = seq![c];
    assert forall|i: int| 0 <= i < s.len() implies is_printable(#[trigger] s[i]) by {}
    lemma_bytes(s);
}

/// Left goes back by one character and right goes on by one; at the start there is no way left and
/// at the end none right.
pub proof fn law_left_and_right(draft: Editing)
    requires
        is_line(draft),
        draft.images.len() == 0,
    ensures
        draft.left() is Some <==> draft.cursor > 0,
        draft.right() is Some <==> draft.cursor < draft.text.len(),
        draft.left() matches Some(next) ==> next.cursor == draft.cursor - 1 && next.text
            == draft.text,
        draft.right() matches Some(next) ==> next.cursor == draft.cursor + 1 && next.text
            == draft.text,
        draft.left() matches Some(next) ==> next.right() is Some && next.right()->0.cursor
            == draft.cursor,
        draft.right() matches Some(next) ==> next.left() is Some && next.left()->0.cursor
            == draft.cursor,
{
    lemma_neighbours(draft);
    if draft.cursor > 0 {
        lemma_one_byte(draft.text[draft.cursor - 1]);
        lemma_neighbours(draft.left()->0);
    }
    if draft.cursor < draft.text.len() {
        lemma_one_byte(draft.text[draft.cursor]);
        lemma_neighbours(draft.right()->0);
    }
}

/// Backspace removes the character in front of the cursor and delete the one behind it; all others
/// stay, and the cursor stays between its neighbours.
pub proof fn law_one_character_is_removed(draft: Editing)
    requires
        is_line(draft),
        draft.images.len() == 0,
    ensures
        draft.without_previous() is Some <==> draft.cursor > 0,
        draft.without_next() is Some <==> draft.cursor < draft.text.len(),
        draft.without_previous() matches Some(next) ==> next.text == draft.text.remove(
            draft.cursor - 1,
        ) && next.cursor == draft.cursor - 1,
        draft.without_next() matches Some(next) ==> next.text == draft.text.remove(draft.cursor)
            && next.cursor == draft.cursor,
{
    lemma_neighbours(draft);
    let c = draft.cursor;
    lemma_index(draft.text, c);
    if c > 0 {
        lemma_one_byte(draft.text[c - 1]);
        lemma_index(draft.text, c - 1);
        assert(draft.without_previous()->0.text =~= draft.text.remove(c - 1));
    }
    if c < draft.text.len() {
        lemma_one_byte(draft.text[c]);
        lemma_index(draft.text, c + 1);
        assert(draft.without_next()->0.text =~= draft.text.remove(c));
    }
}

proof fn lemma_over(images: Seq<Token>, low: int, high: int, from: int, i: int)
    requires
        0 <= from <= i < images.len(),
        images[i].start <= low,
        high <= images[i].end,
        forall|j: int| from <= j < i ==> (#[trigger] images[j]).end < high,
    ensures
        token_over(images, low, high, from) == i,
    decreases i - from,
{
    if from < i {
        assert(images[from].end < high);
        lemma_over(images, low, high, from + 1, i);
    }
}

/// From behind an image the cursor goes left to its front, and from its front right to behind it.
pub proof fn law_images_are_passed_as_a_whole(draft: Editing, i: int)
    requires
        is_line(draft),
        placed(draft.text, draft.images),
        0 <= i < draft.images.len(),
        draft.images[i].start >= 0,
        draft.images[i].end <= draft.text.len(),
    ensures
        draft.cursor == draft.images[i].end ==> (draft.left() matches Some(next) && next.cursor
            == draft.images[i].start && next.images == draft.images),
        draft.cursor == draft.images[i].start && draft.images[i].start + 1 < draft.images[i].end
            ==> (draft.right() matches Some(next) && next.cursor == draft.images[i].end
            && next.images == draft.images),
{
    lemma_neighbours(draft);
    let c = draft.cursor;
    let token = draft.images[i];
    assert forall|j: int| 0 <= j < i implies (#[trigger] draft.images[j]).end <= token.start by {
        assert(draft.images[j].end <= draft.images[i].start);
    }
    if c == token.end {
        lemma_one_byte(draft.text[c - 1]);
        lemma_over(draft.images, c - 1, c, 0, i);
    }
    if c == token.start && token.start + 1 < token.end {
        lemma_one_byte(draft.text[c]);
        lemma_over(draft.images, c, c + 2, 0, i);
    }
}

/// Nothing is inserted into the token of an image: text that would stand inside of it stands behind
/// it. Elsewhere it stands at the cursor.
pub proof fn law_images_are_not_split(draft: Editing, i: int)
    requires
        draft.wf(),
        0 <= i < draft.images.len(),
    ensures
        !(draft.images[i].start < draft.insertion_point() < draft.images[i].end),
        draft.images[i].start < draft.cursor < draft.images[i].end ==> draft.insertion_point()
            == draft.images[i].end,
        (forall|k: int|
            0 <= k < draft.images.len() ==> !((#[trigger] draft.images[k]).start < draft.cursor
                < draft.images[k].end)) ==> draft.insertion_point() == draft.cursor,
{
    lemma_insertion_point(draft);
    let c = draft.cursor;
    let k = token_over(draft.images, c - 1, c + 1, 0);
    lemma_token_over(draft.images, c - 1, c + 1, 0);
    if draft.images[i].start < c < draft.images[i].end {
        if k < i {
            assert(draft.images[k].end <= draft.images[i].start);
        } else if k > i {
            assert(draft.images[i].start <= c - 1 && c + 1 <= draft.images[i].end);
        }
    }
}

/// An image that is pasted stands in the text as its number in brackets, at the place of insertion,
/// and its token covers that text; the next one has the next number, and no image is lost.
pub proof fn law_pasted_images_have_numbers(draft: Editing, data_url: Seq<char>)
    requires
        draft.wf(),
        draft.next_image < u64::MAX,
    ensures
        ({
            let next = draft.with_image(data_url);
            let at = draft.insertion_point();
            let text = "[Image #"@ + decimal(draft.next_image) + "]"@;
            let k = beginning_at(draft.images, at, 0);
            &&& next.text == before(draft.text, at) + text + after(draft.text, at)
            &&& next.cursor == at + byte_len(text)
            &&& next.next_image == draft.next_image + 1
            &&& next.images.len() == draft.images.len() + 1
            &&& 0 <= k < next.images.len()
            &&& next.images[k] == (Token { start: at, end: at + byte_len(text), data_url })
        }),
{
    let at = draft.insertion_point();
    lemma_beginning_at(draft.images, at, 0);
}

/// An offset in front of what is removed stays, one behind it moves up by as much, and one inside of
/// it falls to its start; no two change their order.
pub proof fn law_offsets_move_up(a: int, b: int, from: int, to: int)
    requires
        from <= to,
        a <= b,
    ensures
        a <= from ==> fallen(a, from, to) == a,
        a >= to ==> fallen(a, from, to) == a - (to - from),
        from <= a <= to ==> fallen(a, from, to) == from,
        fallen(a, from, to) <= fallen(b, from, to),
        fallen(b, from, to) - fallen(a, from, to) <= b - a,
{
}

/// A token whose text is removed is gone, one beside it keeps its length, and no other appears.
pub proof fn law_tokens_go_with_their_text(images: Seq<Token>, from: int, to: int, n: int)
    requires
        from <= to,
        0 <= n <= images.len(),
        forall|i: int| 0 <= i < images.len() ==> (#[trigger] images[i]).start < images[i].end,
    ensures
        cut_tokens(images, from, to, n).len() <= n,
        (forall|i: int|
            0 <= i < n ==> from <= (#[trigger] images[i]).start && images[i].end <= to)
            ==> cut_tokens(images, from, to, n).len() == 0,
        (forall|i: int| 0 <= i < n ==> (#[trigger] images[i]).end <= from) ==> cut_tokens(
            images,
            from,
            to,
            n,
        ) == images.take(n),
        (forall|i: int| 0 <= i < n ==> to <= (#[trigger] images[i]).start) ==> cut_tokens(
            images,
            from,
            to,
            n,
        ).len() == n && forall|i: int|
            0 <= i < n ==> (#[trigger] cut_tokens(images, from, to, n)[i]).start
                == images[i].start - (to - from) && cut_tokens(images, from, to, n)[i].end
                == images[i].end - (to - from),
    decreases n,
{
    if n > 0 {
        law_tokens_go_with_their_text(images, from, to, n - 1);
        assert(images.take(n) =~= images.take(n - 1).push(images[n - 1]));
        assert(images[n - 1].start < images[n - 1].end);
    } else {
        assert(images.take(0) =~= Seq::empty());
    }
}

/// Text that is cut out of a draft is gone, and all around it stays; the cursor stands where it was.
pub proof fn law_text_is_cut_out(draft: Editing, from: int, to: int)
    requires
        is_typed(draft.text),
        0 <= from <= to <= draft.text.len(),
    ensures
        draft.cut_out(from, to).text == draft.text.take(from) + draft.text.skip(to),
        draft.cut_out(from, to).cursor == from,
        draft.erased(from, to).text == draft.text.take(from) + draft.text.skip(to),
        draft.erased(from, to).cursor == from,
{
    lemma_index(draft.text, from);
    lemma_index(draft.text, to);
    assert(draft.cut_out(from, to).text =~= draft.text.take(from) + draft.text.skip(to));
}

/// Prompts that are joined keep all their images: those of the first in their places, those of the
/// second moved by the first text and the empty line.
pub proof fn law_images_move_behind_the_first_prompt(a: PromptModel, b: PromptModel, i: int)
    requires
        0 <= i < b.images.len(),
        b.images[i].start + byte_len(a.text + "\n\n"@) <= usize::MAX,
        b.images[i].end + byte_len(a.text + "\n\n"@) <= usize::MAX,
    ensures
        ({
            let both = appended(a, b);
            let k = a.images.len() + i;
            &&& both.text == a.text + "\n\n"@ + b.text
            &&& both.images.len() == a.images.len() + b.images.len()
            &&& both.images.take(a.images.len() as int) == a.images
            &&& both.images[k].start == b.images[i].start + byte_len(a.text + "\n\n"@)
            &&& both.images[k].end == b.images[i].end + byte_len(a.text + "\n\n"@)
            &&& both.images[k].data_url == b.images[i].data_url
        }),
{
    assert(appended(a, b).images.take(a.images.len() as int) =~= a.images);
}

/// The address of an image says that it is one, in base64, and holds its data.
pub proof fn law_image_addresses_hold_their_data(file: Seq<u8>)
    ensures
        begins(png_url(file), "data:image/"@),
        png_url(file).skip(22) == base64_text(file),
        png_url(file).take(22) == "data:image/png;base64,"@,
{
    reveal_strlit("data:image/");
    reveal_strlit("data:image/png;base64,");
    assert(png_url(file).take(22) =~= "data:image/png;base64,"@);
    assert(png_url(file).skip(22) =~= base64_text(file));
    assert(png_url(file).take(11) =~= "data:image/"@);
}

/// Images from a place on move by the bytes that were put in front of them, and those before it stay.
pub proof fn law_later_images_move(images: Seq<Token>, from: int, by: int, i: int)
    requires
        0 <= i < images.len(),
    ensures
        ({
            let after = crate::draft::moved_from(images, from, by);
            &&& after.len() == images.len()
            &&& after[i].data_url == images[i].data_url
            &&& after[i].end - after[i].start == images[i].end - images[i].start
            &&& i >= from ==> after[i].start == images[i].start + by
            &&& i < from ==> after[i] == images[i]
        }),
{
}

} // verus!
