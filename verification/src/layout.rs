//! Cluster-aware soft and hard wrapping of the prompt draft.

use crate::text::{
    after, between, byte_len, bytes_in, bytes_in_first, char_index, clusters, cut, display_width,
    find_char, graphemes, is_offset, is_white_space, joined, lemma_byte_len_take, lemma_char_index,
    lemma_joined_take, lemma_offset, lemma_offset_order, lemma_split, run_until, views, white_space,
    width,
};
use vstd::prelude::*;

verus! {

/// One row of wrapped text: a byte range and the columns that it occupies.
#[derive(Clone, Copy, Debug, PartialEq, Eq, Structural)]
pub struct VisualLine {
    pub start: usize,
    pub end: usize,
    pub width: usize,
}

/// Wrapped text with the row and column of the cursor.
#[derive(Debug)]
pub struct VisualLayout {
    pub lines: Vec<VisualLine>,
    pub cursor_row: usize,
    pub cursor_column: usize,
}

/// A row as mathematical integers.
pub struct Row {
    pub start: int,
    pub end: int,
    pub width: int,
}

impl View for VisualLine {
    type V = Row;

    open spec fn view(&self) -> Row {
        Row { start: self.start as int, end: self.end as int, width: self.width as int }
    }
}

/// The rows of a list of lines.
pub open spec fn rows(lines: Seq<VisualLine>) -> Seq<Row> {
    lines.map_values(|line: VisualLine| line@)
}

/// The columns of the first `n` clusters.
pub open spec fn columns(parts: Seq<Seq<char>>, n: int) -> nat
    decreases n,
{
    if n <= 0 {
        0
    } else {
        columns(parts, n - 1) + display_width(parts[n - 1])
    }
}

/// A piece of text without a character other than white space.
pub open spec fn blank(part: Seq<char>) -> bool {
    forall|i: int| 0 <= i < part.len() ==> is_white_space(#[trigger] part[i])
}

/// No cluster can follow the first `n` in a row of `width` columns.
pub open spec fn is_full(parts: Seq<Seq<char>>, width: int, n: int) -> bool {
    n >= parts.len() || columns(parts, n) >= width || columns(parts, n + 1) > width
}

/// The least number of clusters, `n` at least, that fills a row of `width` columns.
pub open spec fn filling(parts: Seq<Seq<char>>, width: int, n: int) -> int
    decreases parts.len() - n,
{
    if is_full(parts, width, n) {
        n
    } else {
        filling(parts, width, n + 1)
    }
}

/// The number of clusters through the last blank one among the first `n`; 0 if none is blank.
pub open spec fn word_break(parts: Seq<Seq<char>>, n: int) -> int
    decreases n,
{
    if n <= 0 {
        0
    } else if blank(parts[n - 1]) {
        n
    } else {
        word_break(parts, n - 1)
    }
}

/// The number of clusters in the first row of `parts`: as many as fill it, but where text is left
/// over the row ends behind its last blank cluster.
pub open spec fn row_clusters(parts: Seq<Seq<char>>, width: int) -> int {
    let n = filling(parts, width, 1);
    if n < parts.len() && word_break(parts, n) > 0 {
        word_break(parts, n)
    } else {
        n
    }
}

/// The text of the first row.
pub open spec fn first_row(rest: Seq<char>, width: int) -> Seq<char> {
    joined(clusters(rest).take(row_clusters(clusters(rest), width)))
}

/// The rows of text without a line break that begins at the byte offset `base`.
pub open spec fn wrapped(rest: Seq<char>, base: int, width: int) -> Seq<Row>
    decreases rest.len(),
{
    let first = first_row(rest, width);
    if first.len() == 0 || first.len() > rest.len() {
        Seq::empty()
    } else {
        let end = base + byte_len(first);
        seq![Row { start: base, end, width: display_width(first) as int }] + wrapped(
            rest.skip(first.len() as int),
            end,
            width,
        )
    }
}

/// The rows of one logical line; an empty line has one empty row.
pub open spec fn logical_rows(line: Seq<char>, base: int, width: int) -> Seq<Row> {
    if line.len() == 0 {
        seq![Row { start: base, end: base, width: 0 }]
    } else {
        wrapped(line, base, width)
    }
}

/// The rows of text that begins at the byte offset `base`, line by line; a line break at the end
/// opens one more empty row.
pub open spec fn line_rows(text: Seq<char>, base: int, width: int) -> Seq<Row>
    decreases text.len(),
{
    let n = run_until(text, '\n');
    if n < 0 || n >= text.len() {
        logical_rows(text, base, width)
    } else {
        let next = base + byte_len(text.take(n + 1));
        logical_rows(text.take(n), base, width) + line_rows(text.skip(n + 1), next, width)
    }
}

/// The rows of a text. Where the last row is filled exactly, an empty row follows for the cursor.
pub open spec fn text_rows(text: Seq<char>, width: int) -> Seq<Row> {
    let lines = line_rows(text, 0, width);
    let end = byte_len(text) as int;
    if lines.len() > 0 && lines.last().end == end && lines.last().width == width {
        lines.push(Row { start: end, end, width: 0 })
    } else {
        lines
    }
}

/// A row of `text` between two of its offsets, with the columns of its text.
pub open spec fn is_row(text: Seq<char>, row: Row) -> bool {
    &&& is_offset(text, row.start)
    &&& is_offset(text, row.end)
    &&& row.start <= row.end
    &&& row.width == if row.start == row.end {
        0
    } else {
        display_width(between(text, row.start, row.end)) as int
    }
}

/// Row `i` begins where the row in front of it ends.
pub open spec fn adjoins(list: Seq<Row>, i: int) -> bool {
    list[i].start == list[i - 1].end
}

/// Row `i` begins where the row in front of it ends, or one line break later.
pub open spec fn follows(list: Seq<Row>, i: int) -> bool {
    adjoins(list, i) || list[i].start == list[i - 1].end + 1
}

/// The rows from index `from` on cover the part of the text between two offsets without a gap.
pub open spec fn covers(text: Seq<char>, list: Seq<Row>, from: int, start: int, end: int) -> bool {
    &&& 0 <= from < list.len()
    &&& list[from].start == start
    &&& list.last().end == end
    &&& forall|i: int| from <= i < list.len() ==> is_row(text, #[trigger] list[i])
    &&& forall|i: int| from < i < list.len() ==> #[trigger] adjoins(list, i)
}

/// Rows that cover a text from its start to its end.
pub open spec fn tiles(text: Seq<char>, list: Seq<Row>) -> bool {
    &&& tiles_through(text, list)
    &&& list.last().end == byte_len(text)
}

/// Rows that cover a text from its start on.
pub open spec fn tiles_through(text: Seq<char>, list: Seq<Row>) -> bool {
    &&& list.len() > 0
    &&& list[0].start == 0
    &&& forall|i: int| 0 <= i < list.len() ==> is_row(text, #[trigger] list[i])
    &&& forall|i: int| 0 < i < list.len() ==> #[trigger] follows(list, i)
}

proof fn lemma_push_row(text: Seq<char>, list: Seq<Row>, row: Row, from: int, start: int)
    requires
        is_row(text, row),
        0 <= from <= list.len(),
        from == list.len() ==> row.start == start,
        from < list.len() ==> covers(text, list, from, start, row.start),
    ensures
        covers(text, list.push(row), from, start, row.end),
{
    let longer = list.push(row);
    assert forall|i: int| from <= i < longer.len() implies is_row(text, #[trigger] longer[i]) by {
        if i < list.len() {
            assert(longer[i] == list[i]);
        }
    }
    assert forall|i: int| from < i < longer.len() implies #[trigger] adjoins(longer, i) by {
        if i < list.len() {
            assert(adjoins(list, i));
            assert(longer[i] == list[i] && longer[i - 1] == list[i - 1]);
        }
    }
}

proof fn lemma_extend(
    text: Seq<char>,
    seen: Seq<Row>,
    list: Seq<Row>,
    added: Seq<Row>,
    start: int,
    end: int,
)
    requires
        list == seen + added,
        covers(text, list, seen.len() as int, start, end),
        seen.len() == 0 ==> start == 0,
        seen.len() > 0 ==> tiles_through(text, seen) && start == seen.last().end + 1,
    ensures
        tiles_through(text, list),
        list.last().end == end,
{
    assert forall|i: int| 0 <= i < list.len() implies is_row(text, #[trigger] list[i]) by {
        if i < seen.len() {
            assert(list[i] == seen[i]);
        }
    }
    assert forall|i: int| 0 < i < list.len() implies #[trigger] follows(list, i) by {
        if i < seen.len() {
            assert(follows(seen, i));
            assert(list[i] == seen[i] && list[i - 1] == seen[i - 1]);
        } else if i == seen.len() {
            assert(list[i - 1] == seen[i - 1]);
        } else {
            assert(adjoins(list, i));
        }
    }
    if seen.len() > 0 {
        assert(list[0] == seen[0]);
    }
}

proof fn lemma_next_row(text: Seq<char>, start: int, end: int, row: Seq<char>)
    requires
        is_offset(text, start),
        is_offset(text, end),
        start <= end,
        row.len() <= between(text, start, end).len(),
        row == between(text, start, end).take(row.len() as int),
    ensures
        is_offset(text, start + byte_len(row)),
        start + byte_len(row) <= end,
        between(text, start, start + byte_len(row)) == row,
        between(text, start + byte_len(row), end) == between(text, start, end).skip(
            row.len() as int,
        ),
{
    let a = char_index(text, start);
    let b = char_index(text, end);
    lemma_offset(text, start);
    lemma_offset(text, end);
    lemma_offset_order(text, start, end);
    let m = a + row.len();
    assert(text.subrange(a, m) =~= row);
    lemma_byte_len_take(text, a, m);
    lemma_byte_len_take(text, m, b);
    lemma_char_index(text, m);
    assert(text.subrange(m, b) =~= text.subrange(a, b).skip(row.len() as int));
}

proof fn lemma_filling(parts: Seq<Seq<char>>, width: int, n: int)
    requires
        n <= parts.len(),
    ensures
        n <= filling(parts, width, n) <= parts.len(),
        is_full(parts, width, filling(parts, width, n)),
    decreases parts.len() - n,
{
    if !is_full(parts, width, n) {
        lemma_filling(parts, width, n + 1);
    }
}

proof fn lemma_word_break(parts: Seq<Seq<char>>, n: int)
    ensures
        n > 0 ==> 0 <= word_break(parts, n) <= n,
        n <= 0 ==> word_break(parts, n) == 0,
    decreases n,
{
    if n > 0 {
        lemma_word_break(parts, n - 1);
    }
}

/// Whether every character of a string is white space.
fn is_blank(part: &str) -> (yes: bool)
    ensures
        yes == blank(part@),
{
    let chars = crate::text::characters(part);
    let mut i: usize = 0;
    while i < chars.len()
        invariant
            chars@ == part@,
            i <= chars.len(),
            forall|j: int| 0 <= j < i ==> is_white_space(#[trigger] part@[j]),
        decreases chars.len() - i,
    {
        if !white_space(chars[i]) {
            return false;
        }
        i = i + 1;
    }
    true
}

/// The number of clusters in the first row.
fn first_row_clusters(parts: &Vec<&str>, limit: usize) -> (count: usize)
    requires
        parts@.len() > 0,
    ensures
        count == row_clusters(views(parts@), limit as int),
        1 <= count <= parts@.len(),
{
    let ghost pieces = views(parts@);
    let mut count: usize = 1;
    let mut used: usize = width(parts[0]);
    let mut last_word_break: usize = 0;
    if is_blank(parts[0]) {
        last_word_break = 1;
    }
    assert(columns(pieces, 1) == display_width(pieces[0])) by {
        assert(columns(pieces, 0) == 0);
    }
    assert(word_break(pieces, 1) == last_word_break) by {
        assert(word_break(pieces, 0) == 0);
    }
    let mut going: bool = true;
    while going && count < parts.len() && used < limit
        invariant
            pieces == views(parts@),
            1 <= count <= parts@.len(),
            used == columns(pieces, count as int),
            last_word_break == word_break(pieces, count as int),
            filling(pieces, limit as int, 1) == filling(pieces, limit as int, count as int),
            !going ==> is_full(pieces, limit as int, count as int),
        decreases parts@.len() - count + if going { 1int } else { 0 },
    {
        let next: usize = width(parts[count]);
        assert(columns(pieces, count + 1) == columns(pieces, count as int) + display_width(
            pieces[count as int],
        ));
        if next > limit - used {
            going = false;
        } else {
            proof {
                assert(!is_full(pieces, limit as int, count as int));
            }
            used = used + next;
            count = count + 1;
            if is_blank(parts[count - 1]) {
                last_word_break = count;
            }
        }
    }
    proof {
        lemma_word_break(pieces, count as int);
        assert(is_full(pieces, limit as int, count as int));
    }
    if count < parts.len() && last_word_break > 0 {
        last_word_break
    } else {
        count
    }
}

/// Appends the rows of the logical line between two byte offsets.
pub fn wrap_logical_line(
    text: &str,
    start: usize,
    end: usize,
    width: usize,
    lines: &mut Vec<VisualLine>,
)
    requires
        is_offset(text@, start as int),
        is_offset(text@, end as int),
        start <= end,
    ensures
        rows(final(lines)@) == rows(old(lines)@) + logical_rows(
            between(text@, start as int, end as int),
            start as int,
            width as int,
        ),
        covers(text@, rows(final(lines)@), old(lines)@.len() as int, start as int, end as int),
{
    let ghost line = between(text@, start as int, end as int);
    let ghost earlier = rows(lines@);
    let ghost columns_wide = width as int;
    let (head, _) = cut(text, end);
    proof {
        lemma_offset_order(text@, start as int, end as int);
        lemma_offset(text@, start as int);
        lemma_offset(text@, end as int);
        let k = char_index(text@, start as int);
        assert(head@.take(k) =~= text@.take(k));
        lemma_char_index(head@, k);
        assert(head@.skip(k) =~= line);
    }
    let (_, tail) = cut(head, start);
    assert(tail@ == line);
    if start == end {
        lines.push(VisualLine { start, end, width: 0 });
        proof {
            assert(line.len() == 0);
            assert(rows(lines@) =~= earlier + seq![
                Row { start: start as int, end: start as int, width: 0 },
            ]);
            assert(lines@.last()@.width == 0);
        }
        return ;
    }
    let ghost whole = wrapped(line, start as int, columns_wide);
    let mut rest: &str = tail;
    let mut line_start: usize = start;
    let ghost count_before = lines@.len() as int;
    proof {
        assert(byte_len(line) == end - start);
        assert(earlier + whole =~= rows(lines@) + whole);
        crate::text::lemma_byte_len_bounds(line);
    }
    while line_start < end
        invariant
            columns_wide == width,
            line_start <= end,
            byte_len(rest@) == end - line_start,
            is_offset(text@, line_start as int),
            is_offset(text@, end as int),
            rest@ == between(text@, line_start as int, end as int),
            start <= line_start,
            lines@.len() >= count_before >= 0,
            line_start == start ==> lines@.len() == count_before,
            line_start > start ==> covers(
                text@,
                rows(lines@),
                count_before,
                start as int,
                line_start as int,
            ),
            earlier + whole == rows(lines@) + wrapped(rest@, line_start as int, columns_wide),
        decreases end - line_start,
    {
        let parts = graphemes(rest);
        let ghost pieces = views(parts@);
        proof {
            if parts@.len() == 0 {
                assert(rest@ =~= Seq::<char>::empty());
                crate::text::lemma_byte_len_bounds(rest@);
            }
        }
        let count: usize = first_row_clusters(&parts, width);
        let taken: usize = bytes_in_first(&parts, count);
        let ghost row = joined(pieces.take(count as int));
        proof {
            lemma_joined_take(pieces, count as int);
            lemma_split(rest@, row, joined(pieces.skip(count as int)));
            assert(pieces.take(count as int).last() == parts@[count - 1]@);
            assert(row.len() > 0);
            crate::text::lemma_byte_len_bounds(row);
        }
        let (piece, remaining) = cut(rest, taken);
        let line_end: usize = line_start + taken;
        let occupied: usize = crate::text::width(piece);
        let ghost before_push = rows(lines@);
        lines.push(VisualLine { start: line_start, end: line_end, width: occupied });
        proof {
            let added = Row {
                start: line_start as int,
                end: line_end as int,
                width: occupied as int,
            };
            assert(rows(lines@) =~= before_push.push(added));
            assert(remaining@ =~= rest@.skip(row.len() as int));
            assert(wrapped(rest@, line_start as int, columns_wide) =~= seq![added] + wrapped(
                remaining@,
                line_end as int,
                columns_wide,
            ));
            assert(before_push + (seq![added] + wrapped(
                remaining@,
                line_end as int,
                columns_wide,
            )) =~= rows(lines@) + wrapped(remaining@, line_end as int, columns_wide));
        }
        proof {
            lemma_next_row(text@, line_start as int, end as int, row);
            assert(remaining@ =~= between(text@, line_end as int, end as int));
            assert(piece@ =~= between(text@, line_start as int, line_end as int));
            lemma_push_row(
                text@,
                before_push,
                Row { start: line_start as int, end: line_end as int, width: occupied as int },
                count_before,
                start as int,
            );
        }
        line_start = line_end;
        rest = remaining;
    }
    proof {
        crate::text::lemma_byte_len_bounds(rest@);
        lemma_wrapped_empty(rest@, line_start as int, columns_wide);
        assert(rows(lines@) + wrapped(rest@, line_start as int, columns_wide) =~= rows(lines@));
        assert(line.len() > 0);
    }
}

/// The rows of a text in a number of columns.
pub fn wrap_text(text: &str, width: usize) -> (lines: Vec<VisualLine>)
    ensures
        rows(lines@) == text_rows(text@, width as int),
        tiles(text@, rows(lines@)),
{
    let total: usize = bytes_in(text);
    let mut lines: Vec<VisualLine> = Vec::new();
    let mut logical_start: usize = 0;
    let mut rest: &str = text;
    let ghost whole = line_rows(text@, 0, width as int);
    proof {
        lemma_char_index(text@, 0);
        assert(text@.take(0) =~= Seq::<char>::empty());
        assert(text@.skip(0) =~= text@);
        assert(rows(lines@) + whole =~= whole);
        lemma_char_index(text@, text@.len() as int);
        assert(text@.take(text@.len() as int) =~= text@);
    }
    let mut more: bool = true;
    while more
        invariant
            total == byte_len(text@),
            is_offset(text@, total as int),
            char_index(text@, total as int) == text@.len(),
            more ==> is_offset(text@, logical_start as int),
            more ==> rest@ == after(text@, logical_start as int),
            more ==> rows(lines@) + line_rows(rest@, logical_start as int, width as int) == whole,
            !more ==> rows(lines@) == whole,
            !more ==> tiles(text@, rows(lines@)),
            lines@.len() == 0 ==> more && logical_start == 0,
            lines@.len() > 0 ==> tiles_through(text@, rows(lines@)),
            more && lines@.len() > 0 ==> logical_start == lines@.last().end + 1,
        decreases (if more { 1int } else { 0 }), rest@.len(),
    {
        let newline = find_char(rest, '\n');
        let ghost n = run_until(rest@, '\n');
        proof {
            lemma_offset(text@, logical_start as int);
        }
        let logical_end: usize = match newline {
            Some(offset) => {
                proof {
                    lemma_inner(text@, logical_start as int, n);
                    lemma_byte_len_take(rest@, n, rest@.len() as int);
                    assert(rest@.take(rest@.len() as int) =~= rest@);
                }
                logical_start + offset
            },
            None => total,
        };
        let ghost seen = rows(lines@);
        proof {
            lemma_offset_order(text@, logical_start as int, logical_end as int);
            assert(between(text@, logical_start as int, logical_end as int) =~= rest@.take(n));
        }
        wrap_logical_line(text, logical_start, logical_end, width, &mut lines);
        let ghost added = logical_rows(rest@.take(n), logical_start as int, width as int);
        proof {
            lemma_extend(text@, seen, rows(lines@), added, logical_start as int, logical_end as int);
        }
        match newline {
            None => {
                more = false;
                proof {
                    assert(rest@.take(n) =~= rest@);
                }
            },
            Some(_) => {
                proof {
                    lemma_inner(text@, logical_start as int, n + 1);
                    lemma_byte_len_take(rest@, n, n + 1);
                    assert(rest@.subrange(n, n + 1) =~= seq!['\n']);
                    lemma_newline();
                    lemma_byte_len_take(rest@, n + 1, rest@.len() as int);
                    assert(rest@.take(rest@.len() as int) =~= rest@);
                }
                logical_start = logical_end + 1;
                let (_, tail) = cut(text, logical_start);
                proof {
                    assert(tail@ =~= rest@.skip(n + 1));
                    assert((seen + added) + line_rows(tail@, logical_start as int, width as int)
                        =~= seen + (added + line_rows(
                        tail@,
                        logical_start as int,
                        width as int,
                    )));
                }
                rest = tail;
            },
        }
    }
    let last: VisualLine = lines[lines.len() - 1];
    assert(rows(lines@).last() == last@);
    if last.end == total && last.width == width {
        let ghost list = rows(lines@);
        lines.push(VisualLine { start: total, end: total, width: 0 });
        proof {
            let row = Row { start: total as int, end: total as int, width: 0 };
            let longer = list.push(row);
            assert(rows(lines@) =~= longer);
            assert forall|i: int| 0 <= i < longer.len() implies is_row(
                text@,
                #[trigger] longer[i],
            ) by {
                if i < list.len() {
                    assert(longer[i] == list[i]);
                }
            }
            assert forall|i: int| 0 < i < longer.len() implies #[trigger] follows(longer, i) by {
                if i < list.len() {
                    assert(follows(list, i));
                    assert(longer[i] == list[i] && longer[i - 1] == list[i - 1]);
                }
            }
        }
    }
    lines
}

/// The cursor is drawn in row `r`: in front of the row's end, or at its end unless the next row
/// begins there.
pub open spec fn holds(list: Seq<Row>, r: int, cursor: int) -> bool {
    let row = list[r];
    ||| cursor < row.end
    ||| row.start == row.end && cursor == row.start
    ||| cursor == row.end && !(r + 1 < list.len() && list[r + 1].start == cursor)
}

/// The first row from `from` on that holds the cursor, or the last row.
pub open spec fn cursor_row(list: Seq<Row>, cursor: int, from: int) -> int
    decreases list.len() - from,
{
    if from >= list.len() - 1 || holds(list, from, cursor) {
        from
    } else {
        cursor_row(list, cursor, from + 1)
    }
}

/// The columns in front of the cursor in its row.
pub open spec fn cursor_column(text: Seq<char>, row: Row, cursor: int) -> int {
    if cursor < row.end || row.start == row.end && cursor == row.start {
        display_width(between(text, row.start, cursor)) as int
    } else {
        row.width
    }
}

/// The row and the column of the cursor.
pub fn locate_cursor(text: &str, lines: &[VisualLine], cursor: usize) -> (place: (usize, usize))
    requires
        tiles(text@, rows(lines@)),
        is_offset(text@, cursor as int),
    ensures
        place.0 == cursor_row(rows(lines@), cursor as int, 0),
        place.0 < lines@.len(),
        rows(lines@)[place.0 as int].start <= cursor <= rows(lines@)[place.0 as int].end,
        place.1 == cursor_column(text@, rows(lines@)[place.0 as int], cursor as int),
{
    let ghost list = rows(lines@);
    let mut row: usize = 0;
    proof {
        lemma_offset(text@, cursor as int);
    }
    while row < lines.len()
        invariant
            list == rows(lines@),
            tiles(text@, list),
            is_offset(text@, cursor as int),
            cursor <= byte_len(text@),
            row < lines@.len(),
            list[row as int].start <= cursor,
            cursor_row(list, cursor as int, 0) == cursor_row(list, cursor as int, row as int),
        decreases lines@.len() - row,
    {
        let line: VisualLine = lines[row];
        assert(line@ == list[row as int]);
        assert(is_row(text@, list[row as int]));
        if cursor < line.end || (line.start == line.end && cursor == line.start) {
            let (head, _) = cut(text, cursor);
            proof {
                lemma_offset(text@, cursor as int);
                lemma_offset(text@, line.start as int);
                lemma_offset_order(text@, line.start as int, cursor as int);
                let k = char_index(text@, line.start as int);
                assert(head@.take(k) =~= text@.take(k));
                lemma_char_index(head@, k);
            }
            let (_, piece) = cut(head, line.start);
            assert(piece@ =~= between(text@, line.start as int, cursor as int));
            return (row, crate::text::width(piece));
        }
        if cursor == line.end {
            let next_starts_here: bool = row + 1 < lines.len() && lines[row + 1].start == cursor;
            proof {
                if row + 1 < lines@.len() {
                    assert(lines@[row + 1]@ == list[row + 1]);
                }
            }
            if !next_starts_here {
                return (row, line.width);
            }
        }
        proof {
            if row + 1 < lines@.len() {
                assert(follows(list, row + 1));
            } else {
                assert(list.last() == list[row as int]);
            }
        }
        row = row + 1;
    }
    (row, 0)
}

/// The number of clusters, `n` at least, that stand in front of the one which reaches beyond the
/// column `target`.
pub open spec fn clusters_before(parts: Seq<Seq<char>>, target: int, n: int) -> int
    decreases parts.len() - n,
{
    if n >= parts.len() || columns(parts, n + 1) > target {
        n
    } else {
        clusters_before(parts, target, n + 1)
    }
}

/// The byte offset in a row of the cluster at the column `target`; the row's end where the row is
/// shorter.
pub open spec fn offset_at_column(text: Seq<char>, row: Row, target: int) -> int {
    let parts = clusters(between(text, row.start, row.end));
    row.start + byte_len(joined(parts.take(clusters_before(parts, target, 0))))
}

/// The byte offset at a column of a row.
pub fn byte_at_column(text: &str, line: &VisualLine, target: usize) -> (at: usize)
    requires
        is_offset(text@, line.start as int),
        is_offset(text@, line.end as int),
        line.start <= line.end,
    ensures
        at == offset_at_column(text@, line@, target as int),
        is_offset(text@, at as int),
        line.start <= at <= line.end,
{
    let (head, _) = cut(text, line.end);
    let ghost inner = between(text@, line.start as int, line.end as int);
    proof {
        lemma_offset(text@, line.end as int);
        lemma_offset(text@, line.start as int);
        lemma_offset_order(text@, line.start as int, line.end as int);
        let k = char_index(text@, line.start as int);
        assert(head@.take(k) =~= text@.take(k));
        lemma_char_index(head@, k);
        assert(head@.skip(k) =~= inner);
    }
    let (_, piece) = cut(head, line.start);
    let parts = graphemes(piece);
    let ghost pieces = views(parts@);
    let mut column: usize = 0;
    let mut count: usize = 0;
    let mut going: bool = true;
    while going && count < parts.len()
        invariant
            pieces == views(parts@),
            count <= parts@.len(),
            column == columns(pieces, count as int),
            column <= target,
            clusters_before(pieces, target as int, 0) == clusters_before(
                pieces,
                target as int,
                count as int,
            ),
            !going ==> clusters_before(pieces, target as int, count as int) == count,
        decreases parts@.len() - count + if going { 1int } else { 0 },
    {
        let next: usize = width(parts[count]);
        assert(columns(pieces, count + 1) == columns(pieces, count as int) + display_width(
            pieces[count as int],
        ));
        if next > target - column {
            going = false;
        } else {
            column = column + next;
            count = count + 1;
        }
    }
    let skipped: usize = bytes_in_first(&parts, count);
    proof {
        lemma_joined_take(pieces, count as int);
        lemma_next_row(
            text@,
            line.start as int,
            line.end as int,
            joined(pieces.take(count as int)),
        );
    }
    line.start + skipped
}

impl VisualLayout {
    /// The rows of a text, with the place of the cursor in them. At least one column is used.
    pub fn new(text: &str, cursor: usize, width: usize) -> (layout: Self)
        requires
            is_offset(text@, cursor as int),
        ensures
            layout.describes(text@, cursor as int, width as int),
    {
        let wide: usize = if width < 1 {
            1
        } else {
            width
        };
        let lines = wrap_text(text, wide);
        let (cursor_row, cursor_column) = locate_cursor(text, lines.as_slice(), cursor);
        VisualLayout { lines, cursor_row, cursor_column }
    }

    /// The layout of a text in a number of columns with the cursor at a byte offset.
    pub open spec fn describes(&self, text: Seq<char>, cursor: int, width: int) -> bool {
        let list = rows(self.lines@);
        &&& list == text_rows(text, at_least_one(width))
        &&& tiles(text, list)
        &&& self.cursor_row == cursor_row(list, cursor, 0)
        &&& self.cursor_row < list.len()
        &&& list[self.cursor_row as int].start <= cursor <= list[self.cursor_row as int].end
        &&& self.cursor_column == cursor_column(text, list[self.cursor_row as int], cursor)
    }
}

/// `n`, but 1 where it is less.
pub open spec fn at_least_one(n: int) -> int {
    if n < 1 {
        1
    } else {
        n
    }
}

/// A row holds more columns than it may only where it holds a single cluster.
pub proof fn law_rows_fit(parts: Seq<Seq<char>>, width: int)
    requires
        parts.len() > 0,
        width >= 0,
    ensures
        1 <= row_clusters(parts, width) <= parts.len(),
        columns(parts, row_clusters(parts, width)) <= width || row_clusters(parts, width) == 1,
{
    let n = filling(parts, width, 1);
    lemma_filling(parts, width, 1);
    lemma_filling_fits(parts, width, 1);
    lemma_word_break(parts, n);
    let m = row_clusters(parts, width);
    lemma_columns_grow(parts, m, n);
}

/// Where a row breaks in front of its limit it breaks behind white space.
pub proof fn law_soft_breaks_follow_blanks(parts: Seq<Seq<char>>, width: int)
    requires
        parts.len() > 0,
        row_clusters(parts, width) < filling(parts, width, 1),
    ensures
        blank(parts[row_clusters(parts, width) - 1]),
{
    lemma_filling(parts, width, 1);
    lemma_break_blank(parts, filling(parts, width, 1));
}

proof fn lemma_break_blank(parts: Seq<Seq<char>>, n: int)
    ensures
        word_break(parts, n) > 0 ==> blank(parts[word_break(parts, n) - 1]),
    decreases n,
{
    if n > 0 && !blank(parts[n - 1]) {
        lemma_break_blank(parts, n - 1);
    }
}

proof fn lemma_filling_fits(parts: Seq<Seq<char>>, width: int, n: int)
    requires
        1 <= n <= parts.len(),
        n > 1 ==> columns(parts, n) <= width,
    ensures
        filling(parts, width, n) > 1 ==> columns(parts, filling(parts, width, n)) <= width,
    decreases parts.len() - n,
{
    if !is_full(parts, width, n) {
        lemma_filling_fits(parts, width, n + 1);
    }
}

proof fn lemma_columns_grow(parts: Seq<Seq<char>>, m: int, n: int)
    ensures
        m <= n ==> columns(parts, m) <= columns(parts, n),
    decreases n,
{
    if m < n && n > 0 {
        lemma_columns_grow(parts, m, n - 1);
    }
}

proof fn lemma_newline()
    ensures
        byte_len(seq!['\n']) == 1,
{
    reveal_with_fuel(vstd::utf8::encode_utf8, 2);
}

/// The offset `n` characters behind another one.
proof fn lemma_inner(text: Seq<char>, start: int, n: int)
    requires
        is_offset(text, start),
        0 <= n <= after(text, start).len(),
    ensures
        is_offset(text, start + byte_len(after(text, start).take(n))),
        char_index(text, start + byte_len(after(text, start).take(n))) == char_index(text, start)
            + n,
{
    let a = char_index(text, start);
    lemma_offset(text, start);
    lemma_byte_len_take(text, a, a + n);
    assert(text.subrange(a, a + n) =~= after(text, start).take(n));
    lemma_char_index(text, a + n);
}

proof fn lemma_wrapped_empty(rest: Seq<char>, base: int, width: int)
    requires
        rest.len() == 0,
    ensures
        wrapped(rest, base, width) == Seq::<Row>::empty(),
{
}

} // verus!
