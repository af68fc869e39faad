//! Where the cursor stands in wrapped text.

use crate::layout::{
    at_least_one, clusters_before, columns, cursor_column, first_row, is_row, law_rows_fit,
    line_rows, logical_rows, offset_at_column, row_clusters, text_rows, wrapped, Row, VisualLayout,
};
use crate::text::{
    between, byte_len, char_index, clusters, display_width, is_offset, is_plain, is_printable,
    joined, lemma_byte_len_take, lemma_char_index, lemma_offset, lemma_offset_order,
    run_until, singles,
};
use vstd::prelude::*;

verus! {

/// A text of printable characters of ASCII and line breaks.
pub open spec fn is_typed(text: Seq<char>) -> bool {
    forall|i: int| 0 <= i < text.len() ==> is_printable(#[trigger] text[i]) || text[i] == '\n'
}

/// A row between two offsets of a text, without a line break.
pub open spec fn is_unbroken(text: Seq<char>, row: Row) -> bool {
    &&& is_offset(text, row.start)
    &&& is_offset(text, row.end)
    &&& row.start <= row.end
    &&& is_plain(between(text, row.start, row.end))
}

pub proof fn lemma_plain(s: Seq<char>)
    requires
        is_plain(s),
    ensures
        clusters(s) == singles(s),
        display_width(s) == s.len(),
{
    reveal(clusters);
    reveal(display_width);
}

pub proof fn lemma_singles(s: Seq<char>, n: int)
    requires
        0 <= n <= s.len(),
    ensures
        joined(singles(s).take(n)) == s.take(n),
    decreases n,
{
    if n > 0 {
        lemma_singles(s, n - 1);
        assert(singles(s).take(n).drop_last() =~= singles(s).take(n - 1));
        assert(s.take(n) =~= s.take(n - 1) + seq![s[n - 1]]);
    } else {
        assert(singles(s).take(0) =~= Seq::<Seq<char>>::empty());
        assert(s.take(0) =~= Seq::<char>::empty());
    }
}

pub proof fn lemma_plain_columns(s: Seq<char>, n: int)
    requires
        is_plain(s),
        0 <= n <= s.len(),
    ensures
        columns(singles(s), n) == n,
    decreases n,
{
    if n > 0 {
        lemma_plain_columns(s, n - 1);
        assert(is_printable(s[n - 1]));
        assert(is_plain(seq![s[n - 1]]));
        lemma_plain(seq![s[n - 1]]);
        assert(singles(s)[n - 1] == seq![s[n - 1]]);
    }
}

pub proof fn lemma_plain_place(s: Seq<char>, target: int, n: int)
    requires
        is_plain(s),
        0 <= n <= target <= s.len(),
    ensures
        clusters_before(singles(s), target, n) == target,
    decreases target - n,
{
    if n < s.len() {
        lemma_plain_columns(s, n + 1);
    }
    if n < target {
        lemma_plain_place(s, target, n + 1);
    }
}

pub proof fn lemma_run_until_found(s: Seq<char>, c: char)
    ensures
        0 <= run_until(s, c) <= s.len(),
        forall|i: int| 0 <= i < run_until(s, c) ==> #[trigger] s[i] != c,
    decreases s.len(),
{
    if s.len() > 0 && s[0] != c {
        let rest = s.drop_first();
        lemma_run_until_found(rest, c);
        assert forall|i: int| 0 <= i < run_until(s, c) implies #[trigger] s[i] != c by {
            if i > 0 {
                assert(rest[i - 1] == s[i]);
            }
        }
    }
}

/// The rows of text that is the part of another text from character `k` on.
pub proof fn lemma_wrapped(whole: Seq<char>, rest: Seq<char>, k: int, width: int, i: int)
    requires
        0 <= k <= k + rest.len() <= whole.len(),
        rest == whole.subrange(k, k + rest.len()),
        is_plain(rest),
        width >= 0,
        0 <= i < wrapped(rest, byte_len(whole.take(k)) as int, width).len(),
    ensures
        is_unbroken(whole, wrapped(rest, byte_len(whole.take(k)) as int, width)[i]),
    decreases rest.len(),
{
    let base = byte_len(whole.take(k)) as int;
    let parts = clusters(rest);
    let first = first_row(rest, width);
    lemma_plain(rest);
    if rest.len() > 0 {
        law_rows_fit(parts, width);
        let n = row_clusters(parts, width);
        lemma_singles(rest, n);
        assert(first == rest.take(n));
        let end = base + byte_len(first);
        assert(whole.subrange(k, k + n) =~= first);
        lemma_byte_len_take(whole, k, k + n);
        lemma_char_index(whole, k);
        lemma_char_index(whole, k + n);
        assert(byte_len(whole.take(k + n)) == end);
        if i == 0 {
            assert(between(whole, base, end) =~= first);
            assert forall|j: int| 0 <= j < first.len() implies is_printable(#[trigger] first[j]) by {
                assert(first[j] == rest[j]);
            }
        } else {
            let tail = rest.skip(n);
            assert(tail =~= whole.subrange(k + n, k + n + tail.len()));
            assert forall|j: int| 0 <= j < tail.len() implies is_printable(#[trigger] tail[j]) by {
                assert(tail[j] == rest[j + n]);
            }
            lemma_wrapped(whole, tail, k + n, width, i - 1);
        }
    } else {
        assert(parts.take(row_clusters(parts, width)) =~= parts);
        assert(joined(parts) =~= Seq::<char>::empty());
    }
}

pub proof fn lemma_logical_rows(whole: Seq<char>, line: Seq<char>, k: int, width: int, i: int)
    requires
        0 <= k <= k + line.len() <= whole.len(),
        line == whole.subrange(k, k + line.len()),
        is_plain(line),
        width >= 0,
        0 <= i < logical_rows(line, byte_len(whole.take(k)) as int, width).len(),
    ensures
        is_unbroken(whole, logical_rows(line, byte_len(whole.take(k)) as int, width)[i]),
{
    if line.len() == 0 {
        let base = byte_len(whole.take(k)) as int;
        lemma_char_index(whole, k);
        assert(between(whole, base, base) =~= Seq::<char>::empty());
    } else {
        lemma_wrapped(whole, line, k, width, i);
    }
}

pub proof fn lemma_line_rows(whole: Seq<char>, text: Seq<char>, k: int, width: int, i: int)
    requires
        is_typed(whole),
        0 <= k <= whole.len(),
        text == whole.skip(k),
        width >= 0,
        0 <= i < line_rows(text, byte_len(whole.take(k)) as int, width).len(),
    ensures
        is_unbroken(whole, line_rows(text, byte_len(whole.take(k)) as int, width)[i]),
    decreases text.len(),
{
    let base = byte_len(whole.take(k)) as int;
    let n = run_until(text, '\n');
    lemma_run_until_found(text, '\n');
    if n >= text.len() {
        assert(text =~= whole.subrange(k, k + text.len()));
        assert forall|j: int| 0 <= j < text.len() implies is_printable(#[trigger] text[j]) by {
            assert(text[j] == whole[k + j]);
        }
        lemma_logical_rows(whole, text, k, width, i);
    } else {
        let line = text.take(n);
        let rows = logical_rows(line, base, width);
        assert(line =~= whole.subrange(k, k + line.len()));
        assert forall|j: int| 0 <= j < line.len() implies is_printable(#[trigger] line[j]) by {
            assert(line[j] == text[j] && text[j] == whole[k + j]);
        }
        if i < rows.len() {
            lemma_logical_rows(whole, line, k, width, i);
        } else {
            let rest = text.skip(n + 1);
            assert(rest =~= whole.skip(k + n + 1));
            assert(whole.subrange(k, k + n + 1) =~= text.take(n + 1));
            lemma_byte_len_take(whole, k, k + n + 1);
            lemma_line_rows(whole, rest, k + n + 1, width, i - rows.len());
        }
    }
}

pub proof fn lemma_text_rows(text: Seq<char>, width: int, i: int)
    requires
        is_typed(text),
        width >= 0,
        0 <= i < text_rows(text, width).len(),
    ensures
        is_unbroken(text, text_rows(text, width)[i]),
{
    let lines = line_rows(text, 0, width);
    assert(text.take(0) =~= Seq::<char>::empty());
    assert(text.skip(0) =~= text);
    lemma_byte_len_take(text, 0, 0);
    assert(text.subrange(0, 0) =~= Seq::<char>::empty());
    assert(byte_len(text.take(0)) == 0);
    if i < lines.len() {
        lemma_line_rows(text, text, 0, width, i);
    } else {
        let end = byte_len(text) as int;
        assert(text.take(text.len() as int) =~= text);
        lemma_char_index(text, text.len() as int);
        assert(between(text, end, end) =~= Seq::<char>::empty());
    }
}

pub proof fn lemma_column(text: Seq<char>, row: Row, cursor: int)
    requires
        is_row(text, row),
        is_unbroken(text, row),
        is_offset(text, cursor),
        row.start <= cursor <= row.end,
    ensures
        offset_at_column(text, row, cursor_column(text, row, cursor)) == cursor,
{
    let inner = between(text, row.start, row.end);
    let a = char_index(text, row.start);
    let b = char_index(text, cursor);
    let c = char_index(text, row.end);
    lemma_offset(text, row.start);
    lemma_offset(text, cursor);
    lemma_offset(text, row.end);
    lemma_offset_order(text, row.start, cursor);
    lemma_offset_order(text, cursor, row.end);
    lemma_offset_order(text, row.start, row.end);
    let head = between(text, row.start, cursor);
    assert(head =~= inner.take(b - a));
    assert forall|j: int| 0 <= j < head.len() implies is_printable(#[trigger] head[j]) by {
        assert(head[j] == inner[j]);
    }
    lemma_plain(head);
    lemma_plain(inner);
    assert(cursor_column(text, row, cursor) == b - a);
    lemma_plain_place(inner, b - a, 0);
    lemma_singles(inner, b - a);
}

pub proof fn lemma_printable(c: char)
    requires
        is_printable(c),
    ensures
        '\0' <= c <= '\u{7f}',
{
}

pub proof fn lemma_typed_offset(text: Seq<char>, k: int)
    requires
        is_typed(text),
        0 <= k <= text.len(),
    ensures
        is_offset(text, k),
{
    let head = text.take(k);
    assert forall|i: int| 0 <= i < head.len() implies '\0' <= #[trigger] head[i] <= '\u{7f}' by {
        assert(head[i] == text[i]);
        if is_printable(text[i]) {
            lemma_printable(text[i]);
        }
    }
    vstd::utf8::is_ascii_chars_encode_utf8(head);
    lemma_char_index(text, k);
}

/// In a text of printable characters of ASCII and line breaks, every number up to the length is a
/// place for the cursor, and the byte at the cursor's column of the cursor's row is the cursor.
pub proof fn law_the_cursor_is_at_its_column(
    layout: VisualLayout,
    text: Seq<char>,
    cursor: int,
    width: int,
)
    requires
        is_typed(text),
        0 <= cursor <= text.len(),
    ensures
        is_offset(text, cursor),
        layout.describes(text, cursor, width) ==> layout.cursor_row < layout.lines@.len()
            && offset_at_column(
            text,
            layout.lines@[layout.cursor_row as int]@,
            layout.cursor_column as int,
        ) == cursor,
{
    lemma_typed_offset(text, cursor);
    if layout.describes(text, cursor, width) {
        let list = crate::layout::rows(layout.lines@);
        let r = layout.cursor_row as int;
        assert(list[r] == layout.lines@[r]@);
        lemma_text_rows(text, at_least_one(width), r);
        assert(is_row(text, list[r]));
        lemma_column(text, list[r], cursor);
    }
}

} // verus!
