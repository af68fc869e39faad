//! Strings as character sequences addressed by UTF-8 byte offsets.

use unicode_segmentation::UnicodeSegmentation;
use unicode_width::UnicodeWidthStr;
use vstd::prelude::*;
use vstd::string::*;
use vstd::utf8::*;

verus! {

/// The number of bytes of the UTF-8 encoding of `s`.
pub open spec fn byte_len(s: Seq<char>) -> nat {
    encode_utf8(s).len()
}

/// `at` is the byte offset of a character of `s`, or the length of `s`.
pub open spec fn is_offset(s: Seq<char>, at: int) -> bool {
    exists|k: int| 0 <= k <= s.len() && byte_len(#[trigger] s.take(k)) == at
}

/// The number of characters of `s` in front of the byte offset `at`.
pub open spec fn char_index(s: Seq<char>, at: int) -> int {
    choose|k: int| 0 <= k <= s.len() && byte_len(#[trigger] s.take(k)) == at
}

/// The characters of `s` in front of the byte offset `at`.
pub open spec fn before(s: Seq<char>, at: int) -> Seq<char> {
    s.take(char_index(s, at))
}

/// The characters of `s` from the byte offset `at` on.
pub open spec fn after(s: Seq<char>, at: int) -> Seq<char> {
    s.skip(char_index(s, at))
}

/// The characters of `s` between two byte offsets.
pub open spec fn between(s: Seq<char>, from: int, to: int) -> Seq<char> {
    s.subrange(char_index(s, from), char_index(s, to))
}

/// All pieces joined in order.
pub open spec fn joined(pieces: Seq<Seq<char>>) -> Seq<char>
    decreases pieces.len(),
{
    if pieces.len() == 0 {
        Seq::empty()
    } else {
        joined(pieces.drop_last()) + pieces.last()
    }
}

/// A printable character of ASCII.
pub open spec fn is_printable(c: char) -> bool {
    0x20 <= c as u32 <= 0x7E
}

/// A string of printable characters of ASCII.
pub open spec fn is_plain(s: Seq<char>) -> bool {
    forall|i: int| 0 <= i < s.len() ==> is_printable(#[trigger] s[i])
}

/// Every character of a string by itself.
pub open spec fn singles(s: Seq<char>) -> Seq<Seq<char>> {
    Seq::new(s.len(), |i: int| seq![s[i]])
}

/// The extended grapheme clusters of a string that is not plain.
pub uninterp spec fn segments(s: Seq<char>) -> Seq<Seq<char>>;

/// The number of terminal columns that a string occupies that is not plain.
pub uninterp spec fn measure(s: Seq<char>) -> nat;

/// The extended grapheme clusters of a string; in a plain one, every character is one.
#[verifier::opaque]
pub open spec fn clusters(s: Seq<char>) -> Seq<Seq<char>> {
    if is_plain(s) {
        singles(s)
    } else {
        segments(s)
    }
}

/// The number of terminal columns that a string occupies; in a plain one, every character has one.
#[verifier::opaque]
pub open spec fn display_width(s: Seq<char>) -> nat {
    if is_plain(s) {
        s.len()
    } else {
        measure(s)
    }
}

/// The characters of every string of a list.
pub open spec fn views(strings: Seq<&str>) -> Seq<Seq<char>> {
    strings.map_values(|s: &str| s@)
}

/// `UnicodeSegmentation::graphemes` with extended clusters: the clusters of the string in order.
/// They are not empty and, put together, are the string. Printable characters of ASCII among
/// themselves form no larger ones.
#[verifier::external_body]
pub(crate) fn graphemes(text: &str) -> (parts: Vec<&str>)
    ensures
        views(parts@) == clusters(text@),
        !is_plain(text@) ==> views(parts@) == segments(text@),
        joined(views(parts@)) == text@,
        forall|i: int| 0 <= i < parts@.len() ==> (#[trigger] parts@[i])@.len() > 0,
{
    text.graphemes(true).collect()
}

/// `UnicodeWidthStr::width`: the number of columns of the string. Every printable character of ASCII
/// has one, and the empty string none.
#[verifier::external_body]
pub(crate) fn width(text: &str) -> (columns: usize)
    ensures
        columns == display_width(text@),
        !is_plain(text@) ==> columns == measure(text@),
        text@.len() == 0 ==> columns == 0,
{
    UnicodeWidthStr::width(text)
}

/// Whether a character has the Unicode `White_Space` property.
#[verifier::opaque]
pub open spec fn is_white_space(c: char) -> bool {
    let n = c as u32;
    ||| 0x09 <= n <= 0x0D
    ||| n == 0x20
    ||| n == 0x85
    ||| n == 0xA0
    ||| n == 0x1680
    ||| 0x2000 <= n <= 0x200A
    ||| n == 0x2028
    ||| n == 0x2029
    ||| n == 0x202F
    ||| n == 0x205F
    ||| n == 0x3000
}

/// Whether a character is white space.
pub fn white_space(c: char) -> (yes: bool)
    ensures
        yes == is_white_space(c),
{
    proof {
        reveal(is_white_space);
    }
    let n: u32 = c as u32;
    (0x09 <= n && n <= 0x0D) || n == 0x20 || n == 0x85 || n == 0xA0 || n == 0x1680 || (0x2000 <= n
        && n <= 0x200A) || n == 0x2028 || n == 0x2029 || n == 0x202F || n == 0x205F || n == 0x3000
}

/// `String::push` appends one character.
pub assume_specification[ String::push ](s: &mut String, c: char)
    ensures
        final(s)@ == old(s)@.push(c),
;

/// `String::push_str` appends the characters of a string.
pub assume_specification[ String::push_str ](s: &mut String, text: &str)
    ensures
        final(s)@ == old(s)@ + text@,
;

pub proof fn lemma_byte_len_concat(a: Seq<char>, b: Seq<char>)
    ensures
        encode_utf8(a + b) == encode_utf8(a) + encode_utf8(b),
        byte_len(a + b) == byte_len(a) + byte_len(b),
    decreases a.len(),
{
    if a.len() == 0 {
        assert(a + b =~= b);
        assert(encode_utf8(a) =~= Seq::<u8>::empty());
        assert(encode_utf8(a) + encode_utf8(b) =~= encode_utf8(b));
    } else {
        lemma_byte_len_concat(a.drop_first(), b);
        assert((a + b).drop_first() =~= a.drop_first() + b);
        assert((a + b)[0] == a[0]);
        assert(encode_utf8(a + b) =~= encode_utf8(a) + encode_utf8(b));
    }
}

pub proof fn lemma_byte_len_bounds(s: Seq<char>)
    ensures
        s.len() <= byte_len(s) <= 4 * s.len(),
    decreases s.len(),
{
    if s.len() > 0 {
        lemma_byte_len_bounds(s.drop_first());
        char_is_scalar(s[0]);
    }
}

pub proof fn lemma_byte_len_take(s: Seq<char>, i: int, j: int)
    requires
        0 <= i <= j <= s.len(),
    ensures
        byte_len(s.take(i)) + byte_len(s.subrange(i, j)) == byte_len(s.take(j)),
        byte_len(s.take(i)) + (j - i) <= byte_len(s.take(j)),
        byte_len(s.take(j)) + byte_len(s.skip(j)) == byte_len(s),
{
    assert(s.take(j) =~= s.take(i) + s.subrange(i, j));
    lemma_byte_len_concat(s.take(i), s.subrange(i, j));
    lemma_byte_len_bounds(s.subrange(i, j));
    assert(s =~= s.take(j) + s.skip(j));
    lemma_byte_len_concat(s.take(j), s.skip(j));
}

/// A byte offset determines the number of characters in front of it.
pub proof fn lemma_char_index(s: Seq<char>, k: int)
    requires
        0 <= k <= s.len(),
    ensures
        is_offset(s, byte_len(s.take(k)) as int),
        char_index(s, byte_len(s.take(k)) as int) == k,
{
    let at = byte_len(s.take(k)) as int;
    let c = char_index(s, at);
    assert(0 <= c <= s.len() && byte_len(s.take(c)) == at);
    if c < k {
        lemma_byte_len_take(s, c, k);
    } else if k < c {
        lemma_byte_len_take(s, k, c);
    }
}

/// A split of a string at a byte offset.
pub proof fn lemma_split(s: Seq<char>, a: Seq<char>, b: Seq<char>)
    requires
        s == a + b,
    ensures
        is_offset(s, byte_len(a) as int),
        char_index(s, byte_len(a) as int) == a.len(),
        before(s, byte_len(a) as int) == a,
        after(s, byte_len(a) as int) == b,
        byte_len(s) == byte_len(a) + byte_len(b),
{
    lemma_byte_len_concat(a, b);
    assert(s.take(a.len() as int) =~= a);
    assert(s.skip(a.len() as int) =~= b);
    lemma_char_index(s, a.len() as int);
}

/// Offsets are ordered as the characters in front of them.
pub proof fn lemma_offset(s: Seq<char>, at: int)
    requires
        is_offset(s, at),
    ensures
        0 <= char_index(s, at) <= s.len(),
        byte_len(before(s, at)) == at,
        before(s, at) + after(s, at) == s,
        0 <= at <= byte_len(s),
        at + byte_len(after(s, at)) == byte_len(s),
        char_index(s, at) == 0 <==> at == 0,
        char_index(s, at) == s.len() <==> at == byte_len(s),
{
    let k = char_index(s, at);
    assert(0 <= k <= s.len() && byte_len(s.take(k)) == at);
    lemma_byte_len_take(s, 0, k);
    lemma_byte_len_take(s, k, s.len() as int);
    assert(s.take(s.len() as int) =~= s);
    assert(s.take(0) =~= Seq::<char>::empty());
    assert(before(s, at) + after(s, at) =~= s);
}

pub proof fn lemma_offset_order(s: Seq<char>, a: int, b: int)
    requires
        is_offset(s, a),
        is_offset(s, b),
    ensures
        a < b <==> char_index(s, a) < char_index(s, b),
        a == b <==> char_index(s, a) == char_index(s, b),
        a <= b ==> byte_len(between(s, a, b)) == b - a,
{
    let i = char_index(s, a);
    let j = char_index(s, b);
    assert(0 <= i <= s.len() && byte_len(s.take(i)) == a);
    assert(0 <= j <= s.len() && byte_len(s.take(j)) == b);
    if i <= j {
        lemma_byte_len_take(s, i, j);
    } else {
        lemma_byte_len_take(s, j, i);
    }
}

/// The number of bytes of a string.
pub fn bytes_in(text: &str) -> (n: usize)
    ensures
        n == byte_len(text@),
{
    text.as_bytes().len()
}

/// A string cut in two at a byte offset.
pub fn cut(text: &str, at: usize) -> (parts: (&str, &str))
    requires
        is_offset(text@, at as int),
    ensures
        parts.0@ == before(text@, at as int),
        parts.1@ == after(text@, at as int),
        parts.0@ + parts.1@ == text@,
        byte_len(parts.0@) == at,
{
    let ghost s = text@;
    let ghost a = before(s, at as int);
    let ghost b = after(s, at as int);
    proof {
        lemma_offset(s, at as int);
        lemma_byte_len_concat(a, b);
        lemma_boundary(a, b);
    }
    let parts = text.split_at(at);
    proof {
        assert(encode_utf8(s).subrange(0, at as int) =~= encode_utf8(a));
        assert(encode_utf8(s).subrange(at as int, encode_utf8(s).len() as int) =~= encode_utf8(b));
        encode_utf8_decode_utf8(a);
        encode_utf8_decode_utf8(b);
        encode_utf8_decode_utf8(parts.0@);
        encode_utf8_decode_utf8(parts.1@);
    }
    parts
}

proof fn lemma_boundary(a: Seq<char>, b: Seq<char>)
    ensures
        is_char_boundary(encode_utf8(a + b), encode_utf8(a).len() as int),
    decreases a.len(),
{
    encode_utf8_valid_utf8(a + b);
    if a.len() == 0 {
        assert(a + b =~= b);
    } else {
        let s = a + b;
        lemma_boundary(a.drop_first(), b);
        encode_utf8_first_scalar(s);
        assert(s.drop_first() =~= a.drop_first() + b);
        assert(s[0] == a[0]);
        assert(pop_first_scalar(encode_utf8(s)) =~= encode_utf8(s.drop_first()));
        lemma_byte_len_concat(a, b);
        assert(encode_utf8(a).len() == encode_scalar(a[0] as u32).len() + encode_utf8(
            a.drop_first(),
        ).len());
    }
}

/// The number of characters of `s` in front of the first `c`, or the length of `s`.
pub open spec fn run_until(s: Seq<char>, c: char) -> int
    decreases s.len(),
{
    if s.len() == 0 || s[0] == c {
        0
    } else {
        1 + run_until(s.drop_first(), c)
    }
}

pub proof fn lemma_run_until(s: Seq<char>, c: char, n: int)
    requires
        0 <= n <= s.len(),
        forall|i: int| 0 <= i < n ==> s[i] != c,
        n == s.len() || s[n] == c,
    ensures
        run_until(s, c) == n,
    decreases s.len(),
{
    if n > 0 {
        lemma_run_until(s.drop_first(), c, n - 1);
    }
}

/// The characters of a string.
pub fn characters(text: &str) -> (chars: Vec<char>)
    ensures
        chars@ == text@,
{
    let mut chars: Vec<char> = Vec::new();
    for c in it: text.chars()
        invariant
            it.seq() == text@,
            chars@ == text@.take(it.index() as int),
    {
        proof {
            assert(text@.take(it.index() + 1) =~= text@.take(it.index() as int).push(c));
        }
        chars.push(c);
    }
    assert(text@.take(text@.len() as int) =~= text@);
    chars
}

/// The number of bytes of one character.
pub fn bytes_in_char(c: char) -> (n: usize)
    ensures
        n == byte_len(seq![c]),
        1 <= n <= 4,
{
    proof {
        char_is_scalar(c);
        assert(seq![c].drop_first() =~= Seq::<char>::empty());
        reveal_with_fuel(encode_utf8, 2);
        assert(encode_utf8(seq![c]) =~= encode_scalar(c as u32));
    }
    let point: u32 = c as u32;
    if point <= 0x7f {
        1
    } else if point <= 0x7ff {
        2
    } else if point <= 0xffff {
        3
    } else {
        4
    }
}

/// The byte offset of the first `c`.
pub fn find_char(text: &str, c: char) -> (found: Option<usize>)
    ensures
        found is None <==> run_until(text@, c) == text@.len(),
        found matches Some(at) ==> {
            &&& 0 <= run_until(text@, c) < text@.len()
            &&& text@[run_until(text@, c)] == c
            &&& at == byte_len(text@.take(run_until(text@, c)))
        },
{
    let total: usize = bytes_in(text);
    let chars = characters(text);
    let mut i: usize = 0;
    let mut at: usize = 0;
    assert(text@.take(0) =~= Seq::<char>::empty());
    while i < chars.len()
        invariant
            chars@ == text@,
            total == byte_len(text@),
            i <= chars.len(),
            at == byte_len(text@.take(i as int)),
            forall|j: int| 0 <= j < i ==> text@[j] != c,
        decreases chars.len() - i,
    {
        if chars[i] == c {
            proof {
                lemma_run_until(text@, c, i as int);
            }
            return Some(at);
        }
        proof {
            lemma_byte_len_take(text@, i as int, i + 1);
            lemma_byte_len_take(text@, i + 1, text@.len() as int);
            assert(text@.subrange(i as int, i + 1) =~= seq![text@[i as int]]);
            assert(text@.take(text@.len() as int) =~= text@);
        }
        at = at + bytes_in_char(chars[i]);
        i = i + 1;
    }
    proof {
        lemma_run_until(text@, c, i as int);
    }
    None
}

pub proof fn lemma_joined_take(parts: Seq<Seq<char>>, n: int)
    requires
        0 <= n <= parts.len(),
    ensures
        joined(parts.take(n)).len() <= joined(parts).len(),
        joined(parts).take(joined(parts.take(n)).len() as int) == joined(parts.take(n)),
        joined(parts.take(n)) + joined(parts.skip(n)) == joined(parts),
    decreases parts.len() - n,
{
    if n == parts.len() {
        assert(parts.take(n) =~= parts);
        assert(parts.skip(n) =~= Seq::<Seq<char>>::empty());
        assert(joined(parts) + joined(parts.skip(n)) =~= joined(parts));
        assert(joined(parts).take(joined(parts).len() as int) =~= joined(parts));
    } else {
        lemma_joined_take(parts, n + 1);
        assert(parts.take(n + 1).drop_last() =~= parts.take(n));
        assert(joined(parts.take(n + 1)) == joined(parts.take(n)) + parts[n]);
        lemma_joined_first(parts.skip(n));
        assert(parts.skip(n).drop_first() =~= parts.skip(n + 1));
        assert(joined(parts.take(n)) + joined(parts.skip(n)) =~= joined(parts));
        assert(joined(parts).take(joined(parts.take(n)).len() as int) =~= joined(parts.take(n)));
    }
}

pub proof fn lemma_joined_first(parts: Seq<Seq<char>>)
    requires
        parts.len() > 0,
    ensures
        joined(parts) == parts[0] + joined(parts.drop_first()),
    decreases parts.len(),
{
    if parts.len() == 1 {
        assert(parts.drop_last() =~= Seq::<Seq<char>>::empty());
        assert(parts.drop_first() =~= Seq::<Seq<char>>::empty());
        assert(joined(parts) =~= parts[0] + joined(parts.drop_first()));
    } else {
        lemma_joined_first(parts.drop_last());
        assert(parts.drop_last().drop_first() =~= parts.drop_first().drop_last());
        assert(parts.drop_first().last() == parts.last());
        assert(joined(parts) =~= parts[0] + joined(parts.drop_first()));
    }
}

/// The number of bytes of the first `count` pieces.
pub fn bytes_in_first(parts: &Vec<&str>, count: usize) -> (n: usize)
    requires
        count <= parts@.len(),
        byte_len(joined(views(parts@))) <= usize::MAX,
    ensures
        n == byte_len(joined(views(parts@).take(count as int))),
{
    let mut n: usize = 0;
    let mut i: usize = 0;
    let ghost pieces = views(parts@);
    assert(pieces.take(0) =~= Seq::<Seq<char>>::empty());
    while i < count
        invariant
            pieces == views(parts@),
            i <= count <= parts@.len(),
            byte_len(joined(pieces)) <= usize::MAX,
            n == byte_len(joined(pieces.take(i as int))),
        decreases count - i,
    {
        proof {
            assert(pieces.take(i + 1).drop_last() =~= pieces.take(i as int));
            lemma_byte_len_concat(joined(pieces.take(i as int)), pieces[i as int]);
            lemma_joined_take(pieces, i + 1);
            lemma_byte_len_concat(joined(pieces.take(i + 1)), joined(pieces.skip(i + 1)));
        }
        n = n + bytes_in(parts[i]);
        i = i + 1;
    }
    n
}

/// The part of a string between two byte offsets.
pub fn slice(text: &str, from: usize, to: usize) -> (part: &str)
    requires
        is_offset(text@, from as int),
        is_offset(text@, to as int),
        from <= to,
    ensures
        part@ == between(text@, from as int, to as int),
        byte_len(part@) == to - from,
{
    let (head, _) = cut(text, to);
    proof {
        lemma_offset(text@, from as int);
        lemma_offset(text@, to as int);
        lemma_offset_order(text@, from as int, to as int);
        let k = char_index(text@, from as int);
        assert(head@.take(k) =~= text@.take(k));
        lemma_char_index(head@, k);
        assert(head@.skip(k) =~= between(text@, from as int, to as int));
    }
    let (_, part) = cut(head, from);
    part
}

/// The byte offset of a character.
pub fn offset_of(text: &str, index: usize) -> (at: usize)
    requires
        index <= text@.len(),
    ensures
        at == byte_len(text@.take(index as int)),
        is_offset(text@, at as int),
        char_index(text@, at as int) == index,
{
    let total: usize = bytes_in(text);
    let chars = characters(text);
    let mut i: usize = 0;
    let mut at: usize = 0;
    assert(text@.take(0) =~= Seq::<char>::empty());
    while i < index
        invariant
            chars@ == text@,
            total == byte_len(text@),
            i <= index <= text@.len(),
            at == byte_len(text@.take(i as int)),
        decreases index - i,
    {
        proof {
            lemma_byte_len_take(text@, i as int, i + 1);
            lemma_byte_len_take(text@, i + 1, text@.len() as int);
            assert(text@.subrange(i as int, i + 1) =~= seq![text@[i as int]]);
            assert(text@.take(text@.len() as int) =~= text@);
        }
        at = at + bytes_in_char(chars[i]);
        i = i + 1;
    }
    proof {
        lemma_char_index(text@, index as int);
    }
    at
}

/// The number of white-space characters at the start.
pub open spec fn blank_prefix(s: Seq<char>) -> int
    decreases s.len(),
{
    if s.len() == 0 || !is_white_space(s[0]) {
        0
    } else {
        1 + blank_prefix(s.drop_first())
    }
}

/// A string without the white space at its end.
pub open spec fn without_blank_end(s: Seq<char>) -> Seq<char>
    decreases s.len(),
{
    if s.len() > 0 && is_white_space(s.last()) {
        without_blank_end(s.drop_last())
    } else {
        s
    }
}

/// A string without the white space at its start and at its end.
pub open spec fn trimmed(s: Seq<char>) -> Seq<char> {
    without_blank_end(s.skip(blank_prefix(s)))
}

pub proof fn lemma_blank_prefix(s: Seq<char>, n: int)
    requires
        0 <= n <= s.len(),
        forall|i: int| 0 <= i < n ==> is_white_space(s[i]),
        n == s.len() || !is_white_space(s[n]),
    ensures
        blank_prefix(s) == n,
    decreases s.len(),
{
    if n > 0 {
        lemma_blank_prefix(s.drop_first(), n - 1);
    }
}

pub proof fn lemma_blank_end(s: Seq<char>, n: int)
    requires
        0 <= n <= s.len(),
        forall|i: int| n <= i < s.len() ==> is_white_space(s[i]),
        n == 0 || !is_white_space(s[n - 1]),
    ensures
        without_blank_end(s) == s.take(n),
    decreases s.len(),
{
    if n < s.len() {
        lemma_blank_end(s.drop_last(), n);
        assert(s.drop_last().take(n) =~= s.take(n));
    } else {
        assert(s.take(n) =~= s);
    }
}

/// The byte range that is left where white space at both ends is cut off.
pub fn trim_bounds(text: &str) -> (range: (usize, usize))
    ensures
        range.0 <= range.1,
        is_offset(text@, range.0 as int),
        is_offset(text@, range.1 as int),
        range.0 == byte_len(text@.take(blank_prefix(text@))),
        0 <= blank_prefix(text@) <= text@.len(),
        between(text@, range.0 as int, range.1 as int) == trimmed(text@),
        range.1 - range.0 == byte_len(trimmed(text@)),
{
    let chars = characters(text);
    let mut i: usize = 0;
    while i < chars.len() && white_space(chars[i])
        invariant
            chars@ == text@,
            i <= chars.len(),
            forall|k: int| 0 <= k < i ==> is_white_space(#[trigger] text@[k]),
        decreases chars.len() - i,
    {
        i = i + 1;
    }
    let mut j: usize = chars.len();
    while i < j && white_space(chars[j - 1])
        invariant
            chars@ == text@,
            i <= j <= chars.len(),
            forall|k: int| j <= k < text@.len() ==> is_white_space(#[trigger] text@[k]),
        decreases j - i,
    {
        j = j - 1;
    }
    proof {
        lemma_blank_prefix(text@, i as int);
        let rest = text@.skip(i as int);
        lemma_blank_end(rest, j - i);
        assert(rest.take(j - i) =~= text@.subrange(i as int, j as int));
        lemma_byte_len_take(text@, i as int, j as int);
    }
    (offset_of(text, i), offset_of(text, j))
}

/// A string without the white space at both ends.
pub fn trim(text: &str) -> (part: &str)
    ensures
        part@ == trimmed(text@),
{
    let (start, end) = trim_bounds(text);
    slice(text, start, end)
}

/// Whether a string begins with a character.
pub fn starts_with(text: &str, c: char) -> (yes: bool)
    ensures
        yes == (text@.len() > 0 && text@[0] == c),
{
    let chars = characters(text);
    chars.len() > 0 && chars[0] == c
}

/// A string without the leading run of a character.
pub open spec fn without_leading(s: Seq<char>, c: char) -> Seq<char>
    decreases s.len(),
{
    if s.len() > 0 && s[0] == c {
        without_leading(s.drop_first(), c)
    } else {
        s
    }
}

/// A string without the leading run of a character.
pub fn trim_leading(text: &str, c: char) -> (part: &str)
    ensures
        part@ == without_leading(text@, c),
{
    let chars = characters(text);
    let mut i: usize = 0;
    assert(text@.skip(0) =~= text@);
    while i < chars.len() && chars[i] == c
        invariant
            chars@ == text@,
            i <= chars.len(),
            without_leading(text@, c) == without_leading(text@.skip(i as int), c),
        decreases chars.len() - i,
    {
        proof {
            assert(text@.skip(i as int).drop_first() =~= text@.skip(i + 1));
        }
        i = i + 1;
    }
    let at: usize = offset_of(text, i);
    let (_, part) = cut(text, at);
    part
}

/// Replaces a part of a text; offsets in front of it stay, offsets behind it move along.
pub open spec fn spliced(s: Seq<char>, from: int, to: int, mid: Seq<char>) -> Seq<char> {
    before(s, from) + mid + after(s, to)
}

pub proof fn lemma_spliced(s: Seq<char>, from: int, to: int, mid: Seq<char>)
    requires
        is_offset(s, from),
        is_offset(s, to),
        from <= to,
    ensures
        byte_len(spliced(s, from, to, mid)) == byte_len(s) - (to - from) + byte_len(mid),
        forall|p: int|
            #![trigger is_offset(s, p)]
            is_offset(s, p) && p <= from ==> is_offset(spliced(s, from, to, mid), p),
        forall|p: int|
            #![trigger is_offset(s, p)]
            is_offset(s, p) && to <= p ==> is_offset(
                spliced(s, from, to, mid),
                p - (to - from) + byte_len(mid),
            ),
        is_offset(spliced(s, from, to, mid), from + byte_len(mid)),
        is_offset(spliced(s, from, to, mid), from),
{
    let t = spliced(s, from, to, mid);
    let a = before(s, from);
    let b = after(s, to);
    lemma_offset(s, from);
    lemma_offset(s, to);
    lemma_byte_len_concat(a, mid);
    lemma_byte_len_concat(a + mid, b);
    lemma_split(t, a + mid, b);
    assert(t =~= a + (mid + b));
    lemma_split(t, a, mid + b);
    assert forall|p: int| #![trigger is_offset(s, p)] is_offset(s, p) && p <= from implies is_offset(
        t,
        p,
    ) by {
        lemma_offset(s, p);
        lemma_offset_order(s, p, from);
        let k = char_index(s, p);
        assert(t.take(k) =~= s.take(k));
        lemma_char_index(t, k);
    }
    assert forall|p: int| #![trigger is_offset(s, p)] is_offset(s, p) && to <= p implies is_offset(
        t,
        p - (to - from) + byte_len(mid),
    ) by {
        lemma_offset(s, p);
        lemma_offset_order(s, to, p);
        let inner = between(s, to, p);
        let rest = after(s, p);
        assert(b =~= inner + rest);
        assert(t =~= (a + mid + inner) + rest);
        lemma_byte_len_concat(a + mid, inner);
        lemma_split(t, a + mid + inner, rest);
    }
}

/// Two strings joined.
pub fn concat(a: &str, b: &str) -> (text: String)
    ensures
        text@ == a@ + b@,
{
    let mut text: String = a.to_owned();
    text.push_str(b);
    text
}

/// Whether two strings are equal.
pub fn same(a: &str, b: &str) -> (yes: bool)
    ensures
        yes == (a@ == b@),
{
    let left = characters(a);
    let right = characters(b);
    if left.len() != right.len() {
        return false;
    }
    let mut i: usize = 0;
    while i < left.len()
        invariant
            left@ == a@,
            right@ == b@,
            left.len() == right.len(),
            i <= left.len(),
            forall|k: int| 0 <= k < i ==> a@[k] == b@[k],
        decreases left.len() - i,
    {
        if left[i] != right[i] {
            return false;
        }
        i = i + 1;
    }
    assert(a@ =~= b@);
    true
}

/// Whether a number is the offset of a character, or the length of the text.
pub fn offset_at(text: &str, at: usize) -> (yes: bool)
    ensures
        yes == is_offset(text@, at as int),
{
    let total: usize = bytes_in(text);
    let chars = characters(text);
    let mut i: usize = 0;
    let mut here: usize = 0;
    assert(text@.take(0) =~= Seq::<char>::empty());
    while i < chars.len() && here < at
        invariant
            chars@ == text@,
            total == byte_len(text@),
            i <= text@.len(),
            here == byte_len(text@.take(i as int)),
            forall|k: int| 0 <= k < i ==> byte_len(#[trigger] text@.take(k)) < at,
        decreases chars.len() - i,
    {
        proof {
            lemma_byte_len_take(text@, i as int, i + 1);
            lemma_byte_len_take(text@, i + 1, text@.len() as int);
            assert(text@.subrange(i as int, i + 1) =~= seq![text@[i as int]]);
            assert(text@.take(text@.len() as int) =~= text@);
        }
        here = here + bytes_in_char(chars[i]);
        i = i + 1;
    }
    proof {
        lemma_char_index(text@, i as int);
        if is_offset(text@, at as int) {
            let k = char_index(text@, at as int);
            lemma_offset(text@, at as int);
            assert(byte_len(text@.take(k)) == at);
            if k > i {
                lemma_byte_len_take(text@, i as int, k);
            }
        }
    }
    here == at
}

/// The part of a string in front of the first `c`, and the part behind it if there is one.
pub fn cut_at(text: &str, c: char) -> (parts: (&str, Option<&str>))
    ensures
        parts.0@ == text@.take(run_until(text@, c)),
        parts.1 is Some <==> run_until(text@, c) < text@.len(),
        parts.1 matches Some(rest) ==> rest@ == text@.skip(run_until(text@, c) + 1)
            && rest@.len() < text@.len(),
        0 <= run_until(text@, c) <= text@.len(),
{
    let ghost n = run_until(text@, c);
    match find_char(text, c) {
        None => {
            assert(text@.take(n) =~= text@);
            (text, None)
        },
        Some(at) => {
            proof {
                lemma_char_index(text@, n);
            }
            let (line, tail) = cut(text, at);
            proof {
                assert(tail@.take(1) =~= seq![c]);
                lemma_char_index(tail@, 1);
            }
            let (_, rest) = cut(tail, bytes_in_char(c));
            assert(rest@ =~= text@.skip(n + 1));
            (line, Some(rest))
        },
    }
}

/// The parts of a string between the characters `c`.
pub open spec fn split(s: Seq<char>, c: char) -> Seq<Seq<char>>
    decreases s.len(),
{
    let n = run_until(s, c);
    if n < 0 || n >= s.len() {
        seq![s]
    } else {
        seq![s.take(n)] + split(s.skip(n + 1), c)
    }
}

/// The parts of a string between the characters `c`.
pub fn split_at_all(text: &str, c: char) -> (parts: Vec<&str>)
    ensures
        views(parts@) == split(text@, c),
        parts@.len() > 0,
{
    let mut parts: Vec<&str> = Vec::new();
    let mut rest: &str = text;
    let mut more: bool = true;
    let ghost whole = split(text@, c);
    assert(views(parts@) + split(rest@, c) =~= whole);
    while more
        invariant
            more ==> views(parts@) + split(rest@, c) == whole,
            !more ==> views(parts@) == whole && parts@.len() > 0,
        decreases rest@.len(), if more { 1int } else { 0 },
    {
        let ghost sofar = views(parts@);
        let ghost before_step = rest@;
        let (line, tail) = cut_at(rest, c);
        parts.push(line);
        assert(views(parts@) =~= sofar.push(line@));
        match tail {
            Some(next) => {
                rest = next;
                assert(views(parts@) + split(rest@, c) =~= sofar + split(before_step, c));
            },
            None => {
                assert(line@ =~= before_step);
                assert(views(parts@) =~= sofar + split(before_step, c));
                more = false;
            },
        }
    }
    parts
}

/// Pieces with a separator between them.
pub open spec fn joined_with(parts: Seq<Seq<char>>, separator: Seq<char>) -> Seq<char>
    decreases parts.len(),
{
    if parts.len() == 0 {
        Seq::empty()
    } else if parts.len() == 1 {
        parts[0]
    } else {
        joined_with(parts.drop_last(), separator) + separator + parts.last()
    }
}

/// Pieces `from` to `to` of a list with a separator between them.
pub fn join_part(parts: &Vec<&str>, from: usize, to: usize, separator: &str) -> (text: String)
    requires
        from <= to <= parts@.len(),
    ensures
        text@ == joined_with(views(parts@).subrange(from as int, to as int), separator@),
{
    let mut text = String::new();
    let mut i: usize = from;
    let ghost all = views(parts@);
    assert(text@ =~= joined_with(all.subrange(from as int, from as int), separator@));
    while i < to
        invariant
            all == views(parts@),
            from <= i <= to <= parts@.len(),
            text@ == joined_with(all.subrange(from as int, i as int), separator@),
        decreases to - i,
    {
        let ghost sofar = text@;
        if i > from {
            text.push_str(separator);
        }
        text.push_str(parts[i]);
        assert(all.subrange(from as int, i + 1).drop_last() =~= all.subrange(
            from as int,
            i as int,
        ));
        assert(all.subrange(from as int, i + 1).last() == parts@[i as int]@);
        if i == from {
            assert(sofar =~= Seq::<char>::empty());
            assert(text@ =~= parts@[i as int]@);
        }
        i = i + 1;
    }
    text
}

/// A line without the carriage return at its end.
pub open spec fn without_return(s: Seq<char>) -> Seq<char> {
    if s.len() > 0 && s.last() == '\r' {
        s.drop_last()
    } else {
        s
    }
}

/// The lines of a text: a line break ends a line, and a carriage return in front of it is no part of
/// the line.
pub open spec fn lines_of(s: Seq<char>) -> Seq<Seq<char>>
    decreases s.len(),
{
    let n = run_until(s, '\n');
    if s.len() == 0 {
        Seq::empty()
    } else if n < 0 || n >= s.len() {
        seq![s]
    } else {
        seq![without_return(s.take(n))] + lines_of(s.skip(n + 1))
    }
}

fn strip_return(line: &str) -> (part: &str)
    ensures
        part@ == without_return(line@),
{
    let chars = characters(line);
    let n: usize = chars.len();
    if n > 0 && chars[n - 1] == '\r' {
        let at: usize = offset_of(line, n - 1);
        let (head, _) = cut(line, at);
        assert(head@ =~= line@.drop_last());
        head
    } else {
        line
    }
}

/// The lines of a text.
pub fn text_lines(text: &str) -> (parts: Vec<&str>)
    ensures
        views(parts@) == lines_of(text@),
{
    let mut parts: Vec<&str> = Vec::new();
    let mut rest: &str = text;
    let ghost whole = lines_of(text@);
    assert(views(parts@) + lines_of(rest@) =~= whole);
    while !rest.is_empty()
        invariant
            whole == lines_of(text@),
            views(parts@) + lines_of(rest@) == whole,
        decreases rest@.len(),
    {
        let ghost sofar = views(parts@);
        let ghost before_step = rest@;
        let (line, tail) = cut_at(rest, '\n');
        match tail {
            Some(next) => {
                let line: &str = strip_return(line);
                parts.push(line);
                assert(views(parts@) =~= sofar.push(line@));
                rest = next;
                assert(views(parts@) + lines_of(rest@) =~= sofar + lines_of(before_step));
            },
            None => {
                assert(line@ =~= before_step);
                parts.push(line);
                assert(views(parts@) =~= sofar + lines_of(before_step));
                return parts;
            },
        }
    }
    assert(views(parts@) + lines_of(rest@) =~= views(parts@));
    parts
}

/// A string starts with another one.
pub open spec fn begins(s: Seq<char>, prefix: Seq<char>) -> bool {
    prefix.len() <= s.len() && s.take(prefix.len() as int) == prefix
}

/// Whether `prefix` stands at position `at` of `chars`.
pub fn stands(chars: &Vec<char>, at: usize, prefix: &Vec<char>) -> (yes: bool)
    requires
        at <= chars@.len(),
    ensures
        yes == begins(chars@.skip(at as int), prefix@),
{
    if prefix.len() > chars.len() - at {
        return false;
    }
    let mut i: usize = 0;
    while i < prefix.len()
        invariant
            i <= prefix@.len() <= chars@.len() - at,
            at + prefix@.len() <= usize::MAX,
            forall|k: int| 0 <= k < i ==> chars@[at + k] == prefix@[k],
        decreases prefix@.len() - i,
    {
        if chars[at + i] != prefix[i] {
            assert(chars@.skip(at as int).take(prefix@.len() as int)[i as int] != prefix@[i as int]);
            return false;
        }
        i = i + 1;
    }
    assert(chars@.skip(at as int).take(prefix@.len() as int) =~= prefix@);
    true
}

/// Whether a string starts with another one.
pub fn has_prefix(text: &str, prefix: &str) -> (yes: bool)
    ensures
        yes == begins(text@, prefix@),
{
    let chars = characters(text);
    let wanted = characters(prefix);
    assert(chars@.skip(0) =~= text@);
    stands(&chars, 0, &wanted)
}

/// A string with every occurrence of a pattern replaced, from left to right.
pub open spec fn replaced_all(s: Seq<char>, pattern: Seq<char>, with: Seq<char>) -> Seq<char>
    decreases s.len(),
{
    if s.len() == 0 || pattern.len() == 0 {
        s
    } else if begins(s, pattern) {
        with + replaced_all(s.skip(pattern.len() as int), pattern, with)
    } else {
        seq![s[0]] + replaced_all(s.skip(1), pattern, with)
    }
}

/// Replaces every occurrence of a pattern.
pub fn replace_all(text: &str, pattern: &str, with: &str) -> (result: String)
    requires
        pattern@.len() > 0,
    ensures
        result@ == replaced_all(text@, pattern@, with@),
{
    let chars = characters(text);
    let wanted = characters(pattern);
    let mut result = String::new();
    let mut i: usize = 0;
    let ghost whole = replaced_all(text@, pattern@, with@);
    assert(chars@.skip(0) =~= text@);
    assert(result@ + replaced_all(chars@.skip(0), pattern@, with@) =~= whole);
    while i < chars.len()
        invariant
            chars@ == text@,
            wanted@ == pattern@,
            wanted@.len() > 0,
            i <= chars@.len(),
            result@ + replaced_all(chars@.skip(i as int), pattern@, with@) == whole,
        decreases chars@.len() - i,
    {
        let ghost sofar = result@;
        let ghost rest = chars@.skip(i as int);
        if stands(&chars, i, &wanted) {
            result.push_str(with);
            i = i + wanted.len();
            assert(chars@.skip(i as int) =~= rest.skip(pattern@.len() as int));
        } else {
            result.push(chars[i]);
            i = i + 1;
            assert(chars@.skip(i as int) =~= rest.skip(1));
        }
        assert(result@ + replaced_all(chars@.skip(i as int), pattern@, with@) =~= sofar
            + replaced_all(rest, pattern@, with@));
    }
    assert(result@ =~= whole);
    result
}

} // verus!
