//! Wrapping of styled text into the rows of the transcript.

use crate::draw::{lines, say, words, Look, Word, Words};
use crate::layout::{
    blank, columns, filling, is_full, law_rows_fit, row_clusters, word_break,
};
use crate::search::{control, is_control};
use crate::text::{
    characters, clusters, cut_at, display_width, graphemes, is_white_space, joined,
    lemma_joined_first, lemma_joined_take, run_until, views, white_space, width,
};
use vstd::prelude::*;

verus! {

/// The first `n` characters of a text without control characters; line breaks and tabs become
/// blanks.
pub open spec fn sanitized(s: Seq<char>, n: int) -> Seq<char>
    decreases n,
{
    if n <= 0 {
        Seq::empty()
    } else if s[n - 1] == '\n' || s[n - 1] == '\t' {
        sanitized(s, n - 1).push(' ')
    } else if is_control(s[n - 1]) {
        sanitized(s, n - 1)
    } else {
        sanitized(s, n - 1).push(s[n - 1])
    }
}

/// A text without control characters.
pub open spec fn clean(s: Seq<char>) -> Seq<char> {
    sanitized(s, s.len() as int)
}

/// A text without control characters; line breaks and tabs become blanks.
pub fn sanitize(text: &str) -> (cleaned: String)
    ensures
        cleaned@ == clean(text@),
{
    let chars = characters(text);
    let mut cleaned = String::new();
    let mut i: usize = 0;
    assert(cleaned@ =~= sanitized(text@, 0));
    while i < chars.len()
        invariant
            chars@ == text@,
            i <= chars@.len(),
            cleaned@ == sanitized(text@, i as int),
        decreases chars@.len() - i,
    {
        if chars[i] == '\n' || chars[i] == '\t' {
            cleaned.push(' ');
        } else if !control(chars[i]) {
            cleaned.push(chars[i]);
        }
        i = i + 1;
    }
    cleaned
}

/// Pieces of text in one look.
pub open spec fn in_look(parts: Seq<Seq<char>>, look: Look) -> Seq<Word> {
    parts.map_values(|part: Seq<char>| Word { text: part, look })
}

/// The clusters of the first `n` words of a line, each in the look of its word.
pub open spec fn cells(line: Seq<Word>, n: int) -> Seq<Word>
    decreases n,
{
    if n <= 0 {
        Seq::empty()
    } else {
        cells(line, n - 1) + in_look(clusters(line[n - 1].text), line[n - 1].look)
    }
}

/// The text of every cell.
pub open spec fn cell_texts(list: Seq<Word>) -> Seq<Seq<char>> {
    list.map_values(|cell: Word| cell.text)
}

/// Cells put together: neighbours in the same look become one word.
pub open spec fn merged(list: Seq<Word>) -> Seq<Word>
    decreases list.len(),
{
    if list.len() == 0 {
        Seq::empty()
    } else {
        let front = merged(list.drop_last());
        let cell = list.last();
        if front.len() > 0 && front.last().look == cell.look {
            front.drop_last().push(Word { text: front.last().text + cell.text, look: cell.look })
        } else {
            front.push(cell)
        }
    }
}

/// The rows of a list of cells.
pub open spec fn cell_rows(list: Seq<Word>, width: int) -> Seq<Seq<Word>>
    decreases list.len(),
{
    let n = row_clusters(cell_texts(list), width);
    if list.len() == 0 || n <= 0 || n > list.len() {
        Seq::empty()
    } else {
        seq![merged(list.take(n))] + cell_rows(list.skip(n), width)
    }
}

/// The rows of a line; an empty line has one empty row.
pub open spec fn wrapped_line(line: Seq<Word>, width: int) -> Seq<Seq<Word>> {
    let list = cells(line, line.len() as int);
    if list.len() == 0 {
        seq![Seq::empty()]
    } else {
        cell_rows(list, width)
    }
}

/// The rows of a text in one look, line by line.
pub open spec fn wrapped_text(text: Seq<char>, width: int, look: Look) -> Seq<Seq<Word>>
    decreases text.len(),
{
    let n = run_until(text, '\n');
    if n < 0 || n >= text.len() {
        wrapped_line(seq![Word { text: clean(text), look }], width)
    } else {
        wrapped_line(seq![Word { text: clean(text.take(n)), look }], width) + wrapped_text(
            text.skip(n + 1),
            width,
            look,
        )
    }
}

/// The characters of a line.
pub open spec fn spelled(line: Seq<Word>) -> Seq<char> {
    joined(cell_texts(line))
}

/// The characters of some rows, one row behind the other.
pub open spec fn spelled_rows(rows: Seq<Seq<Word>>) -> Seq<char> {
    joined(rows.map_values(|row: Seq<Word>| spelled(row)))
}

/// A row holds at most so many columns, or a single cluster that is wider.
pub open spec fn row_fits(row: Seq<Word>, width: int) -> bool {
    exists|part: Seq<Word>|
        row == #[trigger] merged(part) && (part.len() <= 1 || columns(
            cell_texts(part),
            part.len() as int,
        ) <= width)
}

proof fn lemma_merged(list: Seq<Word>)
    ensures
        spelled(merged(list)) == spelled(list),
    decreases list.len(),
{
    if list.len() > 0 {
        let rest = list.drop_last();
        lemma_merged(rest);
        let front = merged(rest);
        let cell = list.last();
        assert(cell_texts(list).drop_last() =~= cell_texts(rest));
        assert(spelled(list) == spelled(rest) + cell.text);
        let line = merged(list);
        if front.len() > 0 && front.last().look == cell.look {
            assert(cell_texts(line).drop_last() =~= cell_texts(front).drop_last());
            assert(spelled(line) =~= spelled(front) + cell.text);
        } else {
            assert(cell_texts(line).drop_last() =~= cell_texts(front));
        }
    }
}

/// Wrapping a line loses nothing: its rows, one behind the other, spell the line.
pub proof fn law_wrapping_keeps_the_text(list: Seq<Word>, width: int)
    requires
        width >= 0,
    ensures
        spelled_rows(cell_rows(list, width)) == spelled(list),
    decreases list.len(),
{
    let rows = cell_rows(list, width);
    let texts = rows.map_values(|row: Seq<Word>| spelled(row));
    if list.len() == 0 {
        assert(texts =~= Seq::empty());
    } else {
        let n = row_clusters(cell_texts(list), width);
        law_rows_fit(cell_texts(list), width);
        let first = merged(list.take(n));
        let rest = cell_rows(list.skip(n), width);
        lemma_merged(list.take(n));
        law_wrapping_keeps_the_text(list.skip(n), width);
        assert(texts =~= seq![spelled(first)] + rest.map_values(|row: Seq<Word>| spelled(row)));
        lemma_joined_first(texts);
        assert(texts.drop_first() =~= rest.map_values(|row: Seq<Word>| spelled(row)));
        lemma_joined_take(cell_texts(list), n);
        assert(cell_texts(list).take(n) =~= cell_texts(list.take(n)));
        assert(cell_texts(list).skip(n) =~= cell_texts(list.skip(n)));
    }
}

/// No row is wider than it may be, but where a single cluster is.
pub proof fn law_wrapped_rows_fit(list: Seq<Word>, width: int, i: int)
    requires
        width >= 0,
        0 <= i < cell_rows(list, width).len(),
    ensures
        row_fits(cell_rows(list, width)[i], width),
    decreases list.len(),
{
    let n = row_clusters(cell_texts(list), width);
    law_rows_fit(cell_texts(list), width);
    if i == 0 {
        let part = list.take(n);
        assert(cell_texts(part) =~= cell_texts(list).take(n));
        lemma_columns_prefix(cell_texts(list), n, n);
        assert(row_fits(merged(part), width));
    } else {
        law_wrapped_rows_fit(list.skip(n), width, i - 1);
    }
}

proof fn lemma_columns_prefix(parts: Seq<Seq<char>>, n: int, k: int)
    requires
        0 <= k <= n <= parts.len(),
    ensures
        columns(parts.take(n), k) == columns(parts, k),
    decreases k,
{
    if k > 0 {
        lemma_columns_prefix(parts, n, k - 1);
    }
}

proof fn lemma_nothing_spelled()
    ensures
        spelled(Seq::empty()) == Seq::<char>::empty(),
        spelled_rows(seq![Seq::empty()]) == Seq::<char>::empty(),
{
    assert(cell_texts(Seq::empty()) =~= Seq::<Seq<char>>::empty());
    let texts = seq![Seq::<Word>::empty()].map_values(|row: Seq<Word>| spelled(row));
    assert(texts.drop_last() =~= Seq::<Seq<char>>::empty());
    assert(joined(texts) =~= Seq::<char>::empty());
}

fn split_cells(line: &Vec<Words>) -> (list: Vec<Words>)
    ensures
        words(list@) == cells(words(line@), line@.len() as int),
        spelled(words(list@)) == spelled(words(line@)),
{
    let mut list: Vec<Words> = Vec::new();
    let mut i: usize = 0;
    assert(words(list@) =~= cells(words(line@), 0));
    assert(words(line@).take(0) =~= words(list@));
    while i < line.len()
        invariant
            i <= line@.len(),
            words(list@) == cells(words(line@), i as int),
            spelled(words(list@)) == spelled(words(line@).take(i as int)),
        decreases line@.len() - i,
    {
        let look: Look = line[i].look;
        let parts = graphemes(line[i].text.as_str());
        let ghost start = words(list@);
        let ghost added = in_look(clusters(line@[i as int].text@), look);
        assert(words(line@)[i as int] == line@[i as int]@);
        let mut k: usize = 0;
        assert(start + added.take(0) =~= start);
        while k < parts.len()
            invariant
                k <= parts@.len(),
                added == in_look(views(parts@), look),
                words(list@) == start + added.take(k as int),
            decreases parts@.len() - k,
        {
            let ghost sofar = words(list@);
            let cell = Words { text: parts[k].to_owned(), look };
            list.push(cell);
            k = k + 1;
            assert(words(list@) =~= sofar.push(cell@));
            assert(words(list@) =~= start + added.take(k as int));
        }
        assert(added.take(k as int) =~= added);
        proof {
            let texts = cell_texts(start + added);
            lemma_joined_take(texts, start.len() as int);
            assert(texts.take(start.len() as int) =~= cell_texts(start));
            assert(texts.skip(start.len() as int) =~= views(parts@));
            let upto = cell_texts(words(line@).take(i + 1));
            assert(upto.drop_last() =~= cell_texts(words(line@).take(i as int)));
        }
        i = i + 1;
    }
    assert(words(line@).take(i as int) =~= words(line@));
    list
}

fn is_blank(text: &str) -> (yes: bool)
    ensures
        yes == blank(text@),
{
    let chars = characters(text);
    let mut i: usize = 0;
    while i < chars.len()
        invariant
            chars@ == text@,
            i <= chars@.len(),
            forall|k: int| 0 <= k < i ==> is_white_space(#[trigger] text@[k]),
        decreases chars@.len() - i,
    {
        if !white_space(chars[i]) {
            return false;
        }
        i = i + 1;
    }
    true
}

/// The number of cells in the first row.
fn row_length(list: &Vec<Words>, limit: usize) -> (n: usize)
    requires
        list@.len() > 0,
    ensures
        n == row_clusters(cell_texts(words(list@)), limit as int),
        1 <= n <= list@.len(),
{
    let ghost parts = cell_texts(words(list@));
    assert(forall|i: int| 0 <= i < list@.len() ==> #[trigger] parts[i] == list@[i].text@);
    let mut n: usize = 1;
    let mut used: usize = width(list[0].text.as_str());
    let mut full: bool = false;
    assert(columns(parts, 1) == columns(parts, 0) + display_width(parts[0]));
    while !full
        invariant
            parts == cell_texts(words(list@)),
            forall|i: int| 0 <= i < list@.len() ==> #[trigger] parts[i] == list@[i].text@,
            1 <= n <= list@.len(),
            used == columns(parts, n as int),
            filling(parts, limit as int, n as int) == filling(parts, limit as int, 1),
            full ==> is_full(parts, limit as int, n as int),
        decreases list@.len() - n, if full { 0int } else { 1 },
    {
        if n == list.len() || used >= limit {
            full = true;
        } else {
            let next: usize = width(list[n].text.as_str());
            assert(columns(parts, n + 1) == columns(parts, n as int) + next);
            if next > limit - used {
                full = true;
            } else {
                used = used + next;
                n = n + 1;
            }
        }
    }
    proof {
        law_rows_fit(parts, limit as int);
    }
    if n == list.len() {
        return n;
    }
    let mut at: usize = n;
    while at > 0 && !is_blank(list[at - 1].text.as_str())
        invariant
            forall|i: int| 0 <= i < list@.len() ==> #[trigger] parts[i] == list@[i].text@,
            at <= n <= list@.len(),
            word_break(parts, at as int) == word_break(parts, n as int),
        decreases at,
    {
        at = at - 1;
    }
    if at > 0 {
        at
    } else {
        n
    }
}

/// Puts cells together: neighbours in the same look become one word.
fn merge(list: Vec<Words>) -> (line: Vec<Words>)
    ensures
        words(line@) == merged(words(list@)),
{
    let mut line: Vec<Words> = Vec::new();
    let mut i: usize = 0;
    let ghost all = words(list@);
    assert(words(line@) =~= merged(all.take(0)));
    while i < list.len()
        invariant
            all == words(list@),
            i <= list@.len(),
            words(line@) == merged(all.take(i as int)),
        decreases list@.len() - i,
    {
        let ghost front = words(line@);
        let ghost cell = list@[i as int]@;
        assert(all.take(i + 1).drop_last() =~= all.take(i as int));
        assert(all.take(i + 1).last() == cell);
        let look: Look = list[i].look;
        let count: usize = line.len();
        if count > 0 && line[count - 1].look == look {
            let mut word: Words = match line.pop() {
                Some(word) => word,
                None => return line,
            };
            word.text.push_str(list[i].text.as_str());
            line.push(word);
            assert(words(line@) =~= front.drop_last().push(
                Word { text: front.last().text + cell.text, look },
            ));
        } else {
            let word = Words { text: list[i].text.clone(), look };
            line.push(word);
            assert(words(line@) =~= front.push(cell));
        }
        i = i + 1;
    }
    assert(all.take(i as int) =~= all);
    line
}

/// Wraps a line of styled text.
pub fn wrap_spans(line: &Vec<Words>, limit: usize) -> (rows: Vec<Vec<Words>>)
    ensures
        lines(rows@) == wrapped_line(words(line@), limit as int),
        spelled_rows(lines(rows@)) == spelled(words(line@)),
        rows@.len() > 0,
{
    let mut rest: Vec<Words> = split_cells(line);
    proof {
        law_wrapping_keeps_the_text(words(rest@), limit as int);
    }
    let mut rows: Vec<Vec<Words>> = Vec::new();
    if rest.len() == 0 {
        let empty: Vec<Words> = Vec::new();
        rows.push(empty);
        assert(words(empty@) =~= Seq::<Word>::empty());
        assert(lines(rows@) =~= seq![Seq::<Word>::empty()]);
        proof {
            lemma_nothing_spelled();
        }
        return rows;
    }
    let ghost whole = cell_rows(words(rest@), limit as int);
    assert(lines(rows@) + whole =~= whole);
    while rest.len() > 0
        invariant
            lines(rows@) + cell_rows(words(rest@), limit as int) == whole,
            rest@.len() == 0 ==> rows@.len() > 0,
        decreases rest@.len(),
    {
        let ghost sofar = lines(rows@);
        let ghost list = words(rest@);
        let n: usize = row_length(&rest, limit);
        let tail: Vec<Words> = rest.split_off(n);
        assert(words(rest@) =~= list.take(n as int));
        assert(words(tail@) =~= list.skip(n as int));
        let row: Vec<Words> = merge(rest);
        rows.push(row);
        rest = tail;
        assert(lines(rows@) =~= sofar.push(words(row@)));
        assert(lines(rows@) + cell_rows(words(rest@), limit as int) =~= sofar
            + cell_rows(list, limit as int));
    }
    assert(cell_rows(words(rest@), limit as int) =~= Seq::<Seq<Word>>::empty());
    assert(lines(rows@) =~= whole);
    rows
}

/// Appends the rows of a text in one look.
pub fn wrap_onto(rows: &mut Vec<Vec<Words>>, text: &str, limit: usize, look: Look)
    ensures
        lines(final(rows)@) == lines(old(rows)@) + wrapped_text(
            text@,
            limit as int,
            look,
        ),
        final(rows)@.len() > old(rows)@.len(),
    decreases text@.len(),
{
    let ghost start = lines(rows@);
    let (line, more) = cut_at(text, '\n');
    let mut part: Vec<Words> = Vec::new();
    say(&mut part, sanitize(line), look);
    assert(words(part@) =~= seq![Word { text: clean(line@), look }]);
    let mut wrapped: Vec<Vec<Words>> = wrap_spans(&part, limit);
    let ghost first = lines(wrapped@);
    rows.append(&mut wrapped);
    assert(lines(rows@) =~= start + first);
    match more {
        Some(rest) => {
            wrap_onto(rows, rest, limit, look);
            assert(lines(rows@) =~= start + wrapped_text(
                text@,
                limit as int,
                look,
            ));
        },
        None => {
            assert(text@.take(text@.len() as int) =~= text@);
        },
    }
}

/// The rows of a text in one look.
pub fn wrap_plain(text: &str, limit: usize, look: Look) -> (rows: Vec<Vec<Words>>)
    ensures
        lines(rows@) == wrapped_text(text@, limit as int, look),
        rows@.len() > 0,
{
    let mut rows: Vec<Vec<Words>> = Vec::new();
    wrap_onto(&mut rows, text, limit, look);
    assert(lines(rows@) =~= wrapped_text(text@, limit as int, look));
    rows
}

} // verus!
