//! What holds of texts, of their order and of the values in them.

use crate::format_laws::lemma_run;
use crate::json::{is_replaced, kept_fields, last_field, Field, Json};
use crate::layout::{blank, columns, filling, is_full, row_clusters, word_break};
use crate::order::at_most;
use crate::search::is_control;
use crate::text::{
    begins, joined_with, lemma_run_until, lines_of, run_until, split, without_leading,
    without_return,
};
use crate::wrap::sanitized;
use vstd::prelude::*;

verus! {

proof fn lemma_joined_first(first: Seq<char>, rest: Seq<Seq<char>>, separator: Seq<char>)
    requires
        rest.len() > 0,
    ensures
        joined_with(seq![first] + rest, separator) == first + separator + joined_with(
            rest,
            separator,
        ),
    decreases rest.len(),
{
    let all = seq![first] + rest;
    if rest.len() == 1 {
        assert(all.drop_last() =~= seq![first]);
        assert(joined_with(seq![first], separator) == first);
        assert(joined_with(rest, separator) == rest[0]);
        assert(all.last() == rest[0]);
    } else {
        lemma_joined_first(first, rest.drop_last(), separator);
        assert(all.drop_last() =~= seq![first] + rest.drop_last());
        assert(all.last() == rest.last());
        assert(first + separator + joined_with(rest.drop_last(), separator) + separator
            + rest.last() =~= first + separator + joined_with(rest, separator));
    }
}

/// The parts of a text between separators hold none of them, and joined by them are the text.
pub proof fn law_parts_are_joined_again(s: Seq<char>, c: char)
    ensures
        split(s, c).len() > 0,
        joined_with(split(s, c), seq![c]) == s,
        forall|i: int, j: int|
            0 <= i < split(s, c).len() && 0 <= j < split(s, c)[i].len()
                ==> #[trigger] split(s, c)[i][j] != c,
    decreases s.len(),
{
    let n = run_until(s, c);
    lemma_run(s, c);
    if n >= s.len() {
        assert(split(s, c) =~= seq![s]);
    } else {
        let rest = s.skip(n + 1);
        law_parts_are_joined_again(rest, c);
        lemma_joined_first(s.take(n), split(rest, c), seq![c]);
        assert(s.take(n) + seq![c] + rest =~= s);
        let all = split(s, c);
        assert(all == seq![s.take(n)] + split(rest, c));
        assert forall|i: int, j: int| 0 <= i < all.len() && 0 <= j < all[i].len() implies
            #[trigger] all[i][j] != c by {
            if i > 0 {
                assert(all[i] == split(rest, c)[i - 1]);
                assert(split(rest, c)[i - 1][j] != c);
            } else {
                assert(all[0][j] == s[j]);
            }
        }
    }
}

/// No line of a text holds a line break; a text without one is its only line, and a line break at
/// the end begins no further line.
pub proof fn law_lines_are_unbroken(s: Seq<char>)
    ensures
        s.len() == 0 ==> lines_of(s).len() == 0,
        s.len() > 0 ==> lines_of(s).len() > 0,
        forall|i: int, j: int|
            0 <= i < lines_of(s).len() && 0 <= j < lines_of(s)[i].len()
                ==> #[trigger] lines_of(s)[i][j] != '\n',
        s.len() > 0 && (forall|i: int| 0 <= i < s.len() ==> #[trigger] s[i] != '\n') ==> lines_of(s)
            == seq![s],
    decreases s.len(),
{
    let n = run_until(s, '\n');
    lemma_run(s, '\n');
    if s.len() > 0 && n < s.len() {
        let rest = s.skip(n + 1);
        law_lines_are_unbroken(rest);
        let all = lines_of(s);
        assert(all == seq![without_return(s.take(n))] + lines_of(rest));
        assert forall|i: int, j: int| 0 <= i < all.len() && 0 <= j < all[i].len() implies
            #[trigger] all[i][j] != '\n' by {
            if i > 0 {
                assert(all[i] == lines_of(rest)[i - 1]);
                assert(lines_of(rest)[i - 1][j] != '\n');
            } else {
                assert(all[0][j] == s[j]);
            }
        }
    }
}

/// The first line of a text stands in front of its first line break, and the other lines are those
/// of what stands behind it.
pub proof fn law_lines_follow_each_other(line: Seq<char>, rest: Seq<char>)
    requires
        forall|i: int| 0 <= i < line.len() ==> #[trigger] line[i] != '\n' && line[i] != '\r',
    ensures
        lines_of(line + seq!['\n'] + rest) == seq![line] + lines_of(rest),
{
    let whole = line + seq!['\n'] + rest;
    let n = line.len() as int;
    assert forall|i: int| 0 <= i < n implies whole[i] != '\n' by {
        assert(whole[i] == line[i]);
    }
    lemma_run_until(whole, '\n', n);
    assert(whole.take(n) =~= line);
    assert(whole.skip(n + 1) =~= rest);
}

/// The order of texts is that of a dictionary: every two can be compared, a text comes in front of
/// its own continuations, and no two different ones are alike.
pub proof fn law_texts_are_ordered(a: Seq<char>, b: Seq<char>)
    ensures
        at_most(a, a),
        at_most(a, b) || at_most(b, a),
        at_most(a, b) && at_most(b, a) ==> a == b,
        at_most(Seq::empty(), a),
    decreases a.len(),
{
    if a.len() > 0 {
        if b.len() > 0 {
            law_texts_are_ordered(a.drop_first(), b.drop_first());
            if a[0] == b[0] && a.drop_first() == b.drop_first() {
                assert(a =~= seq![a[0]] + a.drop_first());
                assert(b =~= seq![b[0]] + b.drop_first());
            }
        } else {
            law_texts_are_ordered(a.drop_first(), b);
        }
    } else if b.len() == 0 {
        assert(a =~= b);
    }
}

/// A text that comes in front of another comes in front of all that the other comes in front of.
pub proof fn law_the_order_is_transitive(a: Seq<char>, b: Seq<char>, c: Seq<char>)
    requires
        at_most(a, b),
        at_most(b, c),
    ensures
        at_most(a, c),
    decreases a.len(),
{
    if a.len() > 0 && b.len() > 0 && c.len() > 0 && a[0] == b[0] && b[0] == c[0] {
        law_the_order_is_transitive(a.drop_first(), b.drop_first(), c.drop_first());
    }
}

/// The first character in which two texts differ tells which comes first.
pub proof fn law_the_first_difference_tells(head: Seq<char>, a: Seq<char>, b: Seq<char>)
    requires
        a.len() > 0,
        b.len() > 0,
        a[0] != b[0],
    ensures
        at_most(head + a, head + b) <==> (a[0] as int) < (b[0] as int),
        at_most(head, head + b),
    decreases head.len(),
{
    if head.len() > 0 {
        law_the_first_difference_tells(head.drop_first(), a, b);
        assert((head + a).drop_first() =~= head.drop_first() + a);
        assert((head + b).drop_first() =~= head.drop_first() + b);
        assert((head + a)[0] == head[0] && (head + b)[0] == head[0]);
    } else {
        assert(head + a =~= a);
        assert(head + b =~= b);
    }
}

/// What is shown holds no control character; line breaks and tabs are blanks; a text without any of
/// them is shown as it is.
pub proof fn law_shown_text_is_clean(s: Seq<char>, n: int)
    requires
        0 <= n <= s.len(),
    ensures
        forall|i: int|
            0 <= i < sanitized(s, n).len() ==> !is_control(#[trigger] sanitized(s, n)[i]),
        (forall|i: int| 0 <= i < n ==> !is_control(#[trigger] s[i])) ==> sanitized(s, n) == s.take(
            n,
        ),
        (forall|i: int| 0 <= i < n ==> !is_control(#[trigger] s[i]) || s[i] == '\n' || s[i] == '\t')
            ==> sanitized(s, n).len() == n,
    decreases n,
{
    if n > 0 {
        law_shown_text_is_clean(s, n - 1);
        assert(s.take(n) =~= s.take(n - 1).push(s[n - 1]));
        assert(is_control('\n') && is_control('\t') && !is_control(' '));
        let rest = sanitized(s, n - 1);
        let all = sanitized(s, n);
        assert forall|i: int| 0 <= i < all.len() implies !is_control(#[trigger] all[i]) by {
            if i < rest.len() {
                assert(all[i] == rest[i]);
                assert(!is_control(rest[i]));
            }
        }
    } else {
        assert(s.take(0) =~= Seq::empty());
    }
}

/// Leading characters of one kind are left out, and nothing else.
pub proof fn law_leading_characters_are_left_out(s: Seq<char>, c: char)
    ensures
        without_leading(s, c).len() <= s.len(),
        without_leading(s, c) == s.skip(s.len() - without_leading(s, c).len()),
        without_leading(s, c).len() > 0 ==> without_leading(s, c)[0] != c,
        forall|i: int|
            0 <= i < s.len() - without_leading(s, c).len() ==> #[trigger] s[i] == c,
    decreases s.len(),
{
    if s.len() > 0 && s[0] == c {
        let rest = s.drop_first();
        law_leading_characters_are_left_out(rest, c);
        let part = without_leading(s, c);
        let k = s.len() - part.len();
        assert(s.skip(k) =~= rest.skip(k - 1));
        assert forall|i: int| 0 <= i < k implies #[trigger] s[i] == c by {
            if i > 0 {
                assert(rest[i - 1] == s[i]);
            }
        }
    } else {
        assert(s.skip(0) =~= s);
    }
}

/// Of several fields of one name the last one counts.
pub proof fn law_the_last_field_counts(fields: Seq<Field>, name: Seq<char>, n: int)
    requires
        0 <= n <= fields.len(),
    ensures
        last_field(fields, name, n) is None <==> forall|i: int|
            0 <= i < n ==> (#[trigger] fields[i]).name@ != name,
        last_field(fields, name, n) matches Some(value) ==> exists|i: int|
            0 <= i < n && (#[trigger] fields[i]).name@ == name && fields[i].value == value
                && forall|j: int| i < j < n ==> (#[trigger] fields[j]).name@ != name,
    decreases n,
{
    if n > 0 {
        law_the_last_field_counts(fields, name, n - 1);
        if fields[n - 1].name@ != name {
            if let Some(value) = last_field(fields, name, n - 1) {
                let i = choose|i: int|
                    0 <= i < n - 1 && (#[trigger] fields[i]).name@ == name && fields[i].value
                        == value && forall|j: int|
                        i < j < n - 1 ==> (#[trigger] fields[j]).name@ != name;
                assert(fields[i].name@ == name);
            }
        } else {
            assert(fields[n - 1].name@ == name);
        }
    }
}

/// A value of one kind is read as that kind and as no other.
pub proof fn law_values_have_one_kind(value: Json)
    ensures
        value.text() is Some <==> value is Text,
        value.list() is Some <==> value is List,
        value.text() matches Some(text) ==> value matches Json::Text(found) && found@ == text,
        value.signed() is Some ==> value is Number,
        value.unsigned() is Some ==> value is Number,
        !(value is Object) ==> value.field_count() == 0,
{
}

/// A number of fields is that of their names.
pub proof fn law_fields_are_counted_by_name(fields: Seq<Field>, n: int)
    requires
        0 <= n <= fields.len(),
        forall|i: int, j: int|
            0 <= i < j < fields.len() ==> (#[trigger] fields[i]).name@ != (#[trigger] fields[j]).name@,
    ensures
        kept_fields(fields, n) == n,
    decreases n,
{
    if n > 0 {
        law_fields_are_counted_by_name(fields, n - 1);
        assert(!is_replaced(fields, n - 1));
    }
}

proof fn lemma_all_fit(parts: Seq<Seq<char>>, width: int, n: int)
    requires
        1 <= n <= parts.len(),
        forall|k: int| 0 <= k <= parts.len() ==> #[trigger] columns(parts, k) < width,
    ensures
        filling(parts, width, n) == parts.len(),
    decreases parts.len() - n,
{
    if n < parts.len() {
        assert(columns(parts, n) < width);
        assert(columns(parts, n + 1) < width);
        lemma_all_fit(parts, width, n + 1);
    }
}

proof fn lemma_columns_order(parts: Seq<Seq<char>>, m: int, n: int)
    requires
        0 <= m <= n,
    ensures
        columns(parts, m) <= columns(parts, n),
    decreases n,
{
    if m < n {
        lemma_columns_order(parts, m, n - 1);
    }
}

/// A text that is narrower than the row stands in one row.
pub proof fn law_short_texts_are_not_wrapped(parts: Seq<Seq<char>>, width: int)
    requires
        parts.len() > 0,
        columns(parts, parts.len() as int) < width,
    ensures
        row_clusters(parts, width) == parts.len(),
{
    assert forall|k: int| 0 <= k <= parts.len() implies #[trigger] columns(parts, k) < width by {
        lemma_columns_order(parts, k, parts.len() as int);
    }
    lemma_all_fit(parts, width, 1);
}

proof fn lemma_filling_is_full(parts: Seq<Seq<char>>, width: int, n: int)
    requires
        n <= parts.len(),
    ensures
        n <= filling(parts, width, n) <= parts.len(),
        is_full(parts, width, filling(parts, width, n)),
    decreases parts.len() - n,
{
    if !is_full(parts, width, n) {
        lemma_filling_is_full(parts, width, n + 1);
    }
}

proof fn lemma_last_blank(parts: Seq<Seq<char>>, n: int)
    requires
        0 <= n <= parts.len(),
    ensures
        0 <= word_break(parts, n) <= n,
        word_break(parts, n) > 0 ==> blank(parts[word_break(parts, n) - 1]),
        forall|k: int| word_break(parts, n) <= k < n ==> !blank(#[trigger] parts[k]),
    decreases n,
{
    if n > 0 && !blank(parts[n - 1]) {
        lemma_last_blank(parts, n - 1);
    }
}

/// A row that is not the last takes in all that has room, but where it holds white space it ends
/// behind the last of it, so that no word is torn that would fit into the next row.
pub proof fn law_rows_break_between_words(parts: Seq<Seq<char>>, width: int)
    requires
        parts.len() > 0,
        row_clusters(parts, width) < parts.len(),
    ensures
        ({
            let m = row_clusters(parts, width);
            ||| blank(parts[m - 1]) && exists|n: int|
                m <= n < parts.len() && is_full(parts, width, n) && forall|k: int|
                    m <= k < n ==> !blank(#[trigger] parts[k])
            ||| is_full(parts, width, m) && forall|k: int|
                0 <= k < m ==> !blank(#[trigger] parts[k])
        }),
{
    let n = filling(parts, width, 1);
    let m = row_clusters(parts, width);
    lemma_filling_is_full(parts, width, 1);
    lemma_last_blank(parts, n);
    if word_break(parts, n) > 0 {
        assert(m <= n < parts.len() && is_full(parts, width, n));
    }
}

/// A text in which a pattern does not occur stays as it is; the pattern itself becomes what replaces
/// it, and what stands behind it is treated alike.
pub proof fn law_patterns_are_replaced(
    s: Seq<char>,
    pattern: Seq<char>,
    with: Seq<char>,
)
    requires
        pattern.len() > 0,
    ensures
        (forall|i: int| 0 <= i <= s.len() ==> !begins(#[trigger] s.skip(i), pattern))
            ==> crate::text::replaced_all(s, pattern, with) == s,
        crate::text::replaced_all(pattern + s, pattern, with) == with + crate::text::replaced_all(
            s,
            pattern,
            with,
        ),
        crate::text::replaced_all(s, pattern, pattern) == s,
    decreases s.len(),
{
    let whole = pattern + s;
    assert(whole.take(pattern.len() as int) =~= pattern);
    assert(whole.skip(pattern.len() as int) =~= s);
    assert(begins(whole, pattern));
    if s.len() > 0 {
        let rest = s.skip(1);
        law_patterns_are_replaced(rest, pattern, with);
        if forall|i: int| 0 <= i <= s.len() ==> !begins(#[trigger] s.skip(i), pattern) {
            assert(s.skip(0) =~= s);
            assert(!begins(s.skip(0), pattern));
            assert forall|i: int| 0 <= i <= rest.len() implies !begins(
                #[trigger] rest.skip(i),
                pattern,
            ) by {
                assert(rest.skip(i) =~= s.skip(i + 1));
                assert(!begins(s.skip(i + 1), pattern));
            }
            assert(seq![s[0]] + rest =~= s);
        }
        if begins(s, pattern) {
            let tail = s.skip(pattern.len() as int);
            law_patterns_are_replaced(tail, pattern, with);
            assert(pattern + tail =~= s);
        } else {
            assert(seq![s[0]] + rest =~= s);
        }
    }
}

} // verus!
