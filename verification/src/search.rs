//! Search fields: their query, matching, and the part of the query that is seen.

use crate::draw::{
    bold_colored, colored, paint, say, strokes, words, Look, Paint, Stroke, Tone, Word, Words,
};
use crate::geometry::{cell16, least, minus, smaller, to_cell, Position, Rect};
use crate::text::{
    bytes_in, bytes_in_first, characters, clusters, cut, display_width, graphemes, joined,
    lemma_joined_take, lemma_split, views, width,
};
use vstd::prelude::*;
use vstd::string::*;
use vstd::utf8::*;

verus! {

/// Which part of a picker answers to the keys.
#[derive(Clone, Copy, Debug, PartialEq, Eq, Structural)]
pub enum Focus {
    Search,
    List,
}

impl Focus {
    /// The other part.
    pub open spec fn other(self) -> Focus {
        match self {
            Focus::Search => Focus::List,
            Focus::List => Focus::Search,
        }
    }

    /// The other part.
    pub fn toggled(self) -> (focus: Focus)
        ensures
            focus == self.other(),
    {
        match self {
            Focus::Search => Focus::List,
            Focus::List => Focus::Search,
        }
    }
}

/// A control character of Unicode.
pub open spec fn is_control(c: char) -> bool {
    (c as u32) < 0x20 || 0x7f <= c as u32 <= 0x9f
}

/// Whether a character is a control character.
pub fn control(c: char) -> (yes: bool)
    ensures
        yes == is_control(c),
{
    let point: u32 = c as u32;
    point < 0x20 || (0x7f <= point && point <= 0x9f)
}

/// The characters among the first `n` that are no control characters.
pub open spec fn printable(s: Seq<char>, n: int) -> Seq<char>
    decreases n,
{
    if n <= 0 {
        Seq::empty()
    } else if is_control(s[n - 1]) {
        printable(s, n - 1)
    } else {
        printable(s, n - 1).push(s[n - 1])
    }
}

/// Appends the characters of a text that are no control characters.
pub fn push_printable(query: &mut String, text: &str)
    ensures
        final(query)@ == old(query)@ + printable(text@, text@.len() as int),
{
    let ghost start = query@;
    let chars = characters(text);
    let mut i: usize = 0;
    assert(start + printable(text@, 0) =~= start);
    while i < chars.len()
        invariant
            chars@ == text@,
            i <= chars.len(),
            query@ == start + printable(text@, i as int),
        decreases chars.len() - i,
    {
        if !control(chars[i]) {
            query.push(chars[i]);
        }
        i = i + 1;
        assert(query@ =~= start + printable(text@, i as int));
    }
}

/// A text without its last cluster.
pub open spec fn without_last_cluster(s: Seq<char>) -> Seq<char> {
    if clusters(s).len() == 0 {
        s
    } else {
        joined(clusters(s).drop_last())
    }
}

/// Removes the last cluster, if there is one.
pub fn pop_cluster(query: &mut String)
    ensures
        final(query)@ == without_last_cluster(old(query)@),
{
    let text: String = query.clone();
    let parts = graphemes(text.as_str());
    if parts.len() == 0 {
        return ;
    }
    let ghost pieces = views(parts@);
    let total: usize = bytes_in(text.as_str());
    let at: usize = bytes_in_first(&parts, parts.len() - 1);
    proof {
        lemma_joined_take(pieces, pieces.len() - 1);
        assert(pieces.take(pieces.len() - 1) =~= pieces.drop_last());
        lemma_split(text@, joined(pieces.drop_last()), joined(pieces.skip(pieces.len() - 1)));
    }
    let (head, _) = cut(text.as_str(), at);
    *query = head.to_owned();
}

/// A character with ASCII capitals made small.
pub open spec fn lower(c: char) -> char {
    if 'A' <= c <= 'Z' {
        (c as u32 + 32) as char
    } else {
        c
    }
}

/// A text with ASCII capitals made small.
pub open spec fn lowercase(s: Seq<char>) -> Seq<char> {
    Seq::new(s.len(), |i: int| lower(s[i]))
}

fn lower_char(c: char) -> (small: char)
    ensures
        small == lower(c),
{
    if c >= 'A' && c <= 'Z' {
        match c {
            'A' => 'a',
            'B' => 'b',
            'C' => 'c',
            'D' => 'd',
            'E' => 'e',
            'F' => 'f',
            'G' => 'g',
            'H' => 'h',
            'I' => 'i',
            'J' => 'j',
            'K' => 'k',
            'L' => 'l',
            'M' => 'm',
            'N' => 'n',
            'O' => 'o',
            'P' => 'p',
            'Q' => 'q',
            'R' => 'r',
            'S' => 's',
            'T' => 't',
            'U' => 'u',
            'V' => 'v',
            'W' => 'w',
            'X' => 'x',
            'Y' => 'y',
            _ => 'z',
        }
    } else {
        c
    }
}

/// The characters of a text with ASCII capitals made small.
pub fn lower_characters(text: &str) -> (chars: Vec<char>)
    ensures
        chars@ == lowercase(text@),
{
    let source = characters(text);
    let mut chars: Vec<char> = Vec::new();
    let mut i: usize = 0;
    while i < source.len()
        invariant
            source@ == text@,
            i <= source.len(),
            chars@ == lowercase(text@).take(i as int),
        decreases source.len() - i,
    {
        chars.push(lower_char(source[i]));
        i = i + 1;
        assert(chars@ =~= lowercase(text@).take(i as int));
    }
    assert(chars@ =~= lowercase(text@));
    chars
}

/// `needle` stands in `s` at index `at`.
pub open spec fn stands_at(s: Seq<char>, needle: Seq<char>, at: int) -> bool {
    0 <= at && at + needle.len() <= s.len() && forall|i: int|
        0 <= i < needle.len() ==> s[at + i] == #[trigger] needle[i]
}

/// `needle` stands somewhere in `s`.
pub open spec fn occurs(s: Seq<char>, needle: Seq<char>) -> bool {
    exists|at: int| stands_at(s, needle, at)
}

/// Whether a sequence of characters occurs in another one.
pub fn contains(s: &Vec<char>, needle: &Vec<char>) -> (yes: bool)
    ensures
        yes == occurs(s@, needle@),
{
    let mut at: usize = 0;
    while at <= s.len() && needle.len() <= s.len() - at
        invariant
            at <= s.len() + 1,
            at <= s.len() || needle@.len() > s@.len() - at,
            forall|k: int| 0 <= k < at ==> !stands_at(s@, needle@, k),
        decreases s.len() + 1 - at,
    {
        let mut i: usize = 0;
        while i < needle.len() && s[at + i] == needle[i]
            invariant
                at + needle.len() <= s.len(),
                i <= needle.len(),
                forall|k: int| 0 <= k < i ==> s@[at + k] == #[trigger] needle@[k],
            decreases needle.len() - i,
        {
            i = i + 1;
        }
        if i == needle.len() {
            assert(stands_at(s@, needle@, at as int));
            return true;
        }
        assert(!stands_at(s@, needle@, at as int)) by {
            assert(s@[at + i] != needle@[i as int]);
        }
        if at == s.len() {
            assert(needle@.len() == 0);
            return false;
        }
        at = at + 1;
    }
    assert forall|k: int| !stands_at(s@, needle@, k) by {
        if stands_at(s@, needle@, k) && k >= at {
            assert(k + needle@.len() <= s@.len());
        }
    }
    false
}

/// A byte with ASCII capitals made small.
pub open spec fn fold(b: u8) -> u8 {
    if 65 <= b <= 90 {
        (b + 32) as u8
    } else {
        b
    }
}

/// `query` stands in `value` at byte `at` if ASCII case is ignored.
pub open spec fn matches_at(value: Seq<u8>, query: Seq<u8>, at: int) -> bool {
    0 <= at && at + query.len() <= value.len() && forall|i: int|
        0 <= i < query.len() ==> fold(value[at + i]) == fold(#[trigger] query[i])
}

/// `query` stands somewhere in `value` if ASCII case is ignored.
pub open spec fn contains_folded(value: Seq<char>, query: Seq<char>) -> bool {
    exists|at: int| matches_at(encode_utf8(value), encode_utf8(query), at)
}

fn fold_byte(b: u8) -> (small: u8)
    ensures
        small == fold(b),
{
    if 65 <= b && b <= 90 {
        b + 32
    } else {
        b
    }
}

/// Whether a query stands in a text if ASCII case is ignored.
pub fn contains_ignore_ascii_case(value: &str, query: &str) -> (yes: bool)
    ensures
        yes == contains_folded(value@, query@),
{
    let text: &[u8] = value.as_bytes();
    let wanted: &[u8] = query.as_bytes();
    if wanted.len() > text.len() {
        return false;
    }
    let size: usize = text.len();
    let last: usize = size - wanted.len();
    let mut at: usize = 0;
    let mut found: bool = false;
    while !found && at <= last
        invariant
            text@ == encode_utf8(value@),
            wanted@ == encode_utf8(query@),
            size == text@.len(),
            last == size - wanted@.len(),
            at <= last + 1,
            found ==> contains_folded(value@, query@),
            forall|k: int| 0 <= k < at ==> found || !matches_at(text@, wanted@, k),
        decreases last + 1 - at + if found { 0int } else { 1 },
    {
        let mut i: usize = 0;
        while i < wanted.len() && fold_byte(text[at + i]) == fold_byte(wanted[i])
            invariant
                at + wanted@.len() <= text@.len(),
                size == text@.len(),
                i <= wanted@.len(),
                forall|k: int| 0 <= k < i ==> fold(text@[at + k]) == fold(#[trigger] wanted@[k]),
            decreases wanted@.len() - i,
        {
            i = i + 1;
        }
        if i == wanted.len() {
            assert(matches_at(text@, wanted@, at as int));
            found = true;
        } else {
            assert(fold(text@[at + i]) != fold(wanted@[i as int]));
            assert(!matches_at(text@, wanted@, at as int));
            if at == last {
                assert forall|k: int| !matches_at(text@, wanted@, k) by {}
                return false;
            }
            at = at + 1;
        }
    }
    found
}

/// The columns of the clusters from index `k` on.
pub open spec fn columns_from(parts: Seq<Seq<char>>, k: int) -> int
    decreases parts.len() - k,
{
    if k >= parts.len() {
        0
    } else {
        display_width(parts[k]) + columns_from(parts, k + 1)
    }
}

/// The first cluster of the longest end of `parts` that fits, among those up to index `k`.
pub open spec fn tail_start(parts: Seq<Seq<char>>, limit: int, k: int) -> int
    decreases k,
{
    if k <= 0 || columns_from(parts, k - 1) > limit {
        k
    } else {
        tail_start(parts, limit, k - 1)
    }
}

/// The end of a query that is seen in a number of columns.
pub open spec fn visible_end(query: Seq<char>, limit: int) -> Seq<char> {
    let parts = clusters(query);
    joined(parts.skip(tail_start(parts, limit, parts.len() as int)))
}

/// The end of a query that fits into a number of columns.
pub fn visible_query_tail(query: &str, limit: usize) -> (tail: &str)
    ensures
        tail@ == visible_end(query@, limit as int),
{
    let total: usize = bytes_in(query);
    let parts = graphemes(query);
    let ghost pieces = views(parts@);
    let mut k: usize = parts.len();
    let mut used: usize = 0;
    let mut going: bool = true;
    while going && k > 0
        invariant
            pieces == views(parts@),
            k <= parts@.len(),
            used == columns_from(pieces, k as int),
            used <= limit,
            tail_start(pieces, limit as int, pieces.len() as int) == tail_start(
                pieces,
                limit as int,
                k as int,
            ),
            !going ==> tail_start(pieces, limit as int, k as int) == k,
        decreases k + if going { 1int } else { 0 },
    {
        let columns: usize = width(parts[k - 1]);
        assert(columns_from(pieces, k - 1) == display_width(pieces[k - 1]) + columns_from(
            pieces,
            k as int,
        ));
        if columns > limit - used {
            going = false;
        } else {
            used = used + columns;
            k = k - 1;
        }
    }
    let at: usize = bytes_in_first(&parts, k);
    proof {
        lemma_joined_take(pieces, k as int);
        lemma_split(query@, joined(pieces.take(k as int)), joined(pieces.skip(k as int)));
    }
    let (_, tail) = cut(query, at);
    tail
}

/// The visible end of a query is no wider than the field, counted by clusters.
pub proof fn law_visible_end_fits(parts: Seq<Seq<char>>, limit: int, k: int)
    requires
        0 <= k <= parts.len(),
        columns_from(parts, k) <= limit,
    ensures
        0 <= tail_start(parts, limit, k) <= k,
        columns_from(parts, tail_start(parts, limit, k)) <= limit,
    decreases k,
{
    if k > 0 && columns_from(parts, k - 1) <= limit {
        law_visible_end_fits(parts, limit, k - 1);
    }
}

/// The marker of a part that has the focus.
pub open spec fn marker(focused: bool) -> Seq<char> {
    if focused {
        "› "@
    } else {
        "  "@
    }
}

/// The columns in front of the query.
pub open spec fn prefix_columns(focused: bool) -> int {
    (display_width(marker(focused)) + display_width("Search: "@)) as int
}

/// What a search field draws: its label, the visible end of the query and, with the focus, the
/// cursor.
pub open spec fn search_strokes(query: Seq<char>, focused: bool, area: Rect) -> Seq<Stroke> {
    let look = if focused {
        bold_colored(Tone::Accent)
    } else {
        colored(Tone::Muted)
    };
    let shown = visible_end(query, minus(area.width as int, prefix_columns(focused)));
    let line = Stroke::Line {
        area,
        line: seq![
            Word { text: marker(focused), look },
            Word { text: "Search: "@, look },
            Word { text: shown, look: colored(Tone::Text) },
        ],
        centered: false,
    };
    if area.empty() {
        Seq::empty()
    } else if focused {
        seq![
            line,
            Stroke::Cursor {
                x: area.x + least(
                    cell16(prefix_columns(focused) + display_width(shown)),
                    area.width - 1,
                ),
                y: area.y as int,
            },
        ]
    } else {
        seq![line]
    }
}

/// Draws a search field.
pub fn render_search(query: &str, focused: bool, area: Rect, paints: &mut Vec<Paint>)
    requires
        area.fits(),
    ensures
        strokes(final(paints)@) == strokes(old(paints)@) + search_strokes(query@, focused, area),
{
    let ghost start = strokes(paints@);
    if area.is_empty() {
        assert(strokes(paints@) =~= start + search_strokes(query@, focused, area));
        return ;
    }
    let mark: &str = if focused {
        "› "
    } else {
        "  "
    };
    let look: Look = if focused {
        Look::bold(Tone::Accent)
    } else {
        Look::plain(Tone::Muted)
    };
    let mark_columns: usize = width(mark);
    let label_columns: usize = width("Search: ");
    let room: usize = (area.width as usize).saturating_sub(mark_columns).saturating_sub(
        label_columns,
    );
    let shown: &str = visible_query_tail(query, room);
    let mut line: Vec<Words> = Vec::new();
    say(&mut line, mark.to_owned(), look);
    say(&mut line, "Search: ".to_owned(), look);
    say(&mut line, shown.to_owned(), Look::plain(Tone::Text));
    assert(words(line@) =~= seq![
        Word { text: marker(focused), look },
        Word { text: "Search: "@, look },
        Word { text: shown@, look: colored(Tone::Text) },
    ]);
    paint(paints, Paint::Line { area, line, centered: false });
    if focused {
        let offset: usize = mark_columns.saturating_add(label_columns).saturating_add(width(shown));
        let x: u16 = area.x + smaller(to_cell(offset), area.width - 1);
        paint(paints, Paint::Cursor { position: Position { x, y: area.y } });
    }
    assert(strokes(paints@) =~= start + search_strokes(query@, focused, area));
}

/// The first row of a popup's body.
pub open spec fn first_row(body: Rect) -> Rect {
    Rect { height: 1, ..body }
}

/// The rows of a popup's body below the first one.
pub open spec fn other_rows(body: Rect) -> Rect {
    Rect { y: (body.y + 1) as u16, height: (body.height - 1) as u16, ..body }
}

/// Cuts the first row off a rectangle that has one.
pub fn split_first_row(body: Rect) -> (parts: (Rect, Rect))
    requires
        body.fits(),
        !body.empty(),
    ensures
        parts.0 == first_row(body),
        parts.1 == other_rows(body),
        parts.0.fits() && parts.1.fits(),
{
    (
        Rect { x: body.x, y: body.y, width: body.width, height: 1 },
        Rect { x: body.x, y: body.y + 1, width: body.width, height: body.height - 1 },
    )
}

} // verus!
