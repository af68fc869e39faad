//! What holds of the words for numbers, times and places.

use crate::format::{
    below, bytes_text, counted, duration_text, is_below, is_step, parts_of, shortened,
    step_indices, steps, tenths_of, tenths_text, tool_words, without_prefix,
};
use crate::numeral::decimal;
use crate::session::age_text;
use crate::text::{begins, lemma_run_until, replaced_all, run_until, split};
use vstd::prelude::*;

verus! {

/// Less than a second is given in whole milliseconds, rounded down; a second and more in tenths of a
/// second, rounded to the nearest one and up in between.
pub proof fn law_durations_are_rounded(nanoseconds: int, n: int)
    requires
        0 <= nanoseconds <= u64::MAX - 50_000_000,
    ensures
        nanoseconds < 1_000_000_000 && n * 1_000_000 <= nanoseconds < (n + 1) * 1_000_000
            ==> duration_text(nanoseconds) == decimal(n) + "ms"@,
        nanoseconds >= 1_000_000_000 && n * 100_000_000 - 50_000_000 <= nanoseconds < n
            * 100_000_000 + 50_000_000 ==> duration_text(nanoseconds) == decimal(n / 10) + "."@
            + decimal(n % 10) + "s"@,
{
}

/// A size is rounded to the nearest tenth of its unit; halfway between two, to the even one.
pub proof fn law_sizes_are_rounded(bytes: int, unit: int)
    requires
        bytes >= 0,
        unit > 0,
    ensures
        ({
            let off = tenths_of(bytes, unit) * unit - bytes * 10;
            &&& -unit <= 2 * off <= unit
            &&& (2 * off == unit || 2 * off == -unit) ==> tenths_of(bytes, unit) % 2 == 0
        }),
{
    let whole = bytes * 10 / unit;
    let rest = bytes * 10 % unit;
    vstd::arithmetic::div_mod::lemma_fundamental_div_mod(bytes * 10, unit);
    assert(unit * whole == whole * unit) by (nonlinear_arith);
    assert((whole + 1) * unit == whole * unit + unit) by (nonlinear_arith);
}

/// The unit of a size is the largest of bytes, kibibytes and mebibytes of which there is a whole
/// one.
pub proof fn law_sizes_have_units(bytes: int)
    requires
        bytes >= 0,
    ensures
        bytes < 1024 ==> bytes_text(bytes) == decimal(bytes) + " B"@,
        1024 <= bytes < 1024 * 1024 ==> bytes_text(bytes) == tenths_text(tenths_of(bytes, 1024))
            + " KiB"@,
        bytes >= 1024 * 1024 ==> bytes_text(bytes) == tenths_text(tenths_of(bytes, 1024 * 1024int))
            + " MiB"@,
        forall|n: int| 0 <= n ==> #[trigger] tenths_text(10 * n) == decimal(n) + "."@ + decimal(0),
{
}

/// One thing is named by the singular and any other number of things by the plural.
pub proof fn law_only_one_is_singular(count: int, singular: Seq<char>, plural: Seq<char>)
    ensures
        counted(1, singular, plural) == "1 "@ + singular,
        count != 1 ==> counted(count, singular, plural) == decimal(count) + " "@ + plural,
{
    reveal_strlit("1 ");
    reveal_strlit(" ");
    assert(decimal(1) =~= seq!['1']);
    assert(decimal(1) + " "@ =~= "1 "@);
}

/// An age is given in the largest unit of which a whole one has passed, rounded down.
pub proof fn law_ages_are_rounded_down(seconds: int, n: int)
    requires
        seconds >= 0,
    ensures
        seconds < 60 ==> age_text(seconds) == "now"@,
        60 <= seconds < 3600 && n * 60 <= seconds < (n + 1) * 60 ==> age_text(seconds) == decimal(n)
            + "m"@,
        3600 <= seconds < 24 * 3600 && n * 3600 <= seconds < (n + 1) * 3600 ==> age_text(seconds)
            == decimal(n) + "h"@,
        seconds >= 24 * 3600 && n * 24 * 3600 <= seconds < (n + 1) * 24 * 3600 ==> age_text(seconds)
            == decimal(n) + "d"@,
{
}

/// What is left does not begin with the prefix, and a text that does not is left as it is.
pub proof fn law_prefixes_are_cut(s: Seq<char>, prefix: Seq<char>)
    requires
        prefix.len() > 0,
    ensures
        !begins(without_prefix(s, prefix), prefix),
        !begins(s, prefix) ==> without_prefix(s, prefix) == s,
        begins(s, prefix) ==> without_prefix(s, prefix) == without_prefix(
            s.skip(prefix.len() as int),
            prefix,
        ),
    decreases s.len(),
{
    if begins(s, prefix) {
        law_prefixes_are_cut(s.skip(prefix.len() as int), prefix);
    }
}

proof fn lemma_none_left(s: Seq<char>, c: char, with: Seq<char>)
    requires
        forall|i: int| 0 <= i < with.len() ==> #[trigger] with[i] != c,
    ensures
        forall|i: int|
            0 <= i < replaced_all(s, seq![c], with).len() ==> #[trigger] replaced_all(
                s,
                seq![c],
                with,
            )[i] != c,
    decreases s.len(),
{
    if s.len() > 0 {
        let rest = replaced_all(s.skip(1), seq![c], with);
        lemma_none_left(s.skip(1), c, with);
        assert(s.take(1)[0] == s[0]);
        if s[0] == c {
            assert(s.take(1) =~= seq![c]);
            assert(replaced_all(s, seq![c], with) == with + rest);
        } else {
            assert(seq![c][0] == c);
            assert(replaced_all(s, seq![c], with) == seq![s[0]] + rest);
        }
    }
}

proof fn lemma_nothing_replaced(s: Seq<char>, pattern: Seq<char>, c: char, with: Seq<char>)
    requires
        pattern.len() > 0,
        pattern[0] == c,
        forall|i: int| 0 <= i < s.len() ==> #[trigger] s[i] != c,
    ensures
        replaced_all(s, pattern, with) == s,
        !begins(s, pattern),
    decreases s.len(),
{
    if begins(s, pattern) {
        assert(s.take(pattern.len() as int)[0] == s[0]);
    }
    if s.len() > 0 {
        lemma_nothing_replaced(s.skip(1), pattern, c, with);
        assert(seq![s[0]] + s.skip(1) =~= s);
    }
}

/// The words of a tool's name hold no underscore; a name without one is its own words.
pub proof fn law_tool_words_are_words(name: Seq<char>)
    ensures
        forall|i: int| 0 <= i < tool_words(name).len() ==> #[trigger] tool_words(name)[i] != '_',
        (forall|i: int| 0 <= i < name.len() ==> #[trigger] name[i] != '_') && (name.len() == 0
            || name[0] != 'm') ==> tool_words(name) == name,
{
    reveal_strlit("_");
    reveal_strlit(" ");
    reveal_strlit("__");
    reveal_strlit("mcp__");
    assert("_"@ =~= seq!['_']);
    let first = replaced_all(without_prefix(name, "mcp__"@), "__"@, " · "@);
    lemma_none_left(first, '_', " "@);
    if (forall|i: int| 0 <= i < name.len() ==> #[trigger] name[i] != '_') && (name.len() == 0
        || name[0] != 'm') {
        assert(!begins(name, "mcp__"@)) by {
            if begins(name, "mcp__"@) {
                assert(name.take(5)[0] == name[0]);
            }
        }
        law_prefixes_are_cut(name, "mcp__"@);
        lemma_nothing_replaced(name, "__"@, '_', " · "@);
        lemma_nothing_replaced(name, "_"@, '_', " "@);
    }
}

pub proof fn lemma_run_tail(s: Seq<char>, c: char, name: Seq<char>)
    requires
        run_until(s, c) == s.len(),
    ensures
        run_until(s + seq![c] + name, c) == s.len(),
    decreases s.len(),
{
    let t = s + seq![c] + name;
    if s.len() > 0 {
        lemma_run_tail(s.drop_first(), c, name);
        assert(t.drop_first() =~= s.drop_first() + seq![c] + name);
        assert(t[0] == s[0]);
    }
}

pub proof fn lemma_run(s: Seq<char>, c: char)
    ensures
        0 <= run_until(s, c) <= s.len(),
        run_until(s, c) < s.len() ==> s[run_until(s, c)] == c,
        forall|i: int| 0 <= i < run_until(s, c) ==> #[trigger] s[i] != c,
    decreases s.len(),
{
    if s.len() > 0 && s[0] != c {
        let rest = s.drop_first();
        lemma_run(rest, c);
        assert forall|i: int| 0 <= i < run_until(s, c) implies #[trigger] s[i] != c by {
            if i > 0 {
                assert(rest[i - 1] == s[i]);
            }
        }
    }
}

/// A part that is added behind a separator is the last part, and the others stay.
proof fn lemma_split_more(s: Seq<char>, c: char, name: Seq<char>)
    requires
        forall|i: int| 0 <= i < name.len() ==> #[trigger] name[i] != c,
    ensures
        split(s + seq![c] + name, c) == split(s, c).push(name),
        split(s, c).len() > 0,
    decreases s.len(),
{
    let t = s + seq![c] + name;
    let n = run_until(s, c);
    lemma_run(s, c);
    if n >= s.len() {
        lemma_run_tail(s, c, name);
        lemma_run_until(name, c, name.len() as int);
        assert(t.take(s.len() as int) =~= s);
        assert(t.skip(s.len() + 1int) =~= name);
        assert(split(name, c) =~= seq![name]);
        assert(seq![s] + seq![name] =~= seq![s].push(name));
    } else {
        assert forall|i: int| 0 <= i < n implies t[i] != c by {
            assert(t[i] == s[i]);
        }
        lemma_run_until(t, c, n);
        assert(t.take(n) =~= s.take(n));
        assert(t.skip(n + 1) =~= s.skip(n + 1) + seq![c] + name);
        lemma_split_more(s.skip(n + 1), c, name);
        assert(seq![s.take(n)] + split(s.skip(n + 1), c).push(name) =~= split(s, c).push(name));
    }
}

proof fn lemma_steps_more(parts: Seq<Seq<char>>, name: Seq<char>, n: int)
    requires
        0 <= n <= parts.len(),
    ensures
        step_indices(parts.push(name), n) == step_indices(parts, n),
        forall|k: int|
            0 <= k < step_indices(parts, n).len() ==> 0 <= #[trigger] step_indices(parts, n)[k] < n,
    decreases n,
{
    if n > 0 {
        lemma_steps_more(parts, name, n - 1);
        assert(parts.push(name)[n - 1] == parts[n - 1]);
        assert(is_step(parts.push(name), n - 1) == is_step(parts, n - 1));
    }
}

/// The home directory is a tilde, a file in it stands behind the tilde, and without a home every
/// path is given as it is.
pub proof fn law_home_is_a_tilde(home: Seq<char>, name: Seq<char>, path: Seq<char>)
    requires
        home.len() > 0,
        name.len() > 0,
        name != "."@,
        forall|i: int| 0 <= i < name.len() ==> #[trigger] name[i] != '/',
    ensures
        shortened(path, None) == path,
        shortened(home, Some(home)) == "~"@,
        shortened(home + seq!['/'] + name, Some(home)) == "~/"@ + name,
        shortened(path, Some(home)) != path ==> is_below(path, home),
{
    reveal(shortened);
    assert(steps(home).take(steps(home).len() as int) =~= steps(home));
    let whole = home + seq!['/'] + name;
    let parts = parts_of(home);
    let all = parts_of(whole);
    lemma_split_more(home, '/', name);
    let m = parts.len() as int;
    lemma_steps_more(parts, name, m);
    assert(all[m] == name);
    assert(is_step(all, m));
    let kept = step_indices(all, m + 1);
    let base = step_indices(parts, m);
    assert(kept == base.push(m));
    assert forall|k: int| 0 <= k < base.len() implies #[trigger] steps(whole)[k] == steps(home)[k] by {
        assert(all[base[k]] == parts[base[k]]);
    }
    assert(steps(whole).take(steps(home).len() as int) =~= steps(home));
    assert(whole[0] == home[0]);
    assert(all.subrange(m, m + 1) =~= seq![name]);
    assert(below(whole, base.len() as int) == name);
}

} // verus!
