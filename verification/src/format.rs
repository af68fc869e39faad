//! Durations, sizes, counts, tool names and paths as text.

use crate::actions::indices;
use crate::geometry::least;
use crate::numeral::{decimal, decimal_text, law_numbers_read_back};
use crate::text::{
    begins, concat, has_prefix, join_part, joined_with, replace_all, replaced_all, same, split,
    split_at_all, starts_with, views,
};
use vstd::prelude::*;

verus! {

/// The step in which a duration of `nanoseconds` is shown: milliseconds below a second, tenths of a
/// second above.
pub open spec fn display_tick(nanoseconds: int) -> int {
    if nanoseconds < 1_000_000_000 {
        nanoseconds / 1_000_000
    } else {
        1_000 + least(nanoseconds + 50_000_000, u64::MAX as int) / 100_000_000
    }
}

/// A duration as it is shown.
pub open spec fn duration_text(nanoseconds: int) -> Seq<char> {
    let tick = display_tick(nanoseconds);
    if nanoseconds >= 1_000_000_000 {
        decimal((tick - 1_000) / 10) + "."@ + decimal((tick - 1_000) % 10) + "s"@
    } else {
        decimal(tick) + "ms"@
    }
}

/// Writes a duration.
pub fn format_duration(nanoseconds: u64) -> (text: String)
    ensures
        text@ == duration_text(nanoseconds as int),
{
    let tick: u64 = duration_display_tick(nanoseconds);
    if nanoseconds >= 1_000_000_000 {
        let tenths: u64 = tick.saturating_sub(1_000);
        let mut text: String = decimal_text(tenths / 10);
        text.push_str(".");
        text.push_str(decimal_text(tenths % 10).as_str());
        text.push_str("s");
        return text;
    }
    let mut text: String = decimal_text(tick);
    text.push_str("ms");
    text
}

/// The step in which a duration is shown.
pub fn duration_display_tick(nanoseconds: u64) -> (tick: u64)
    ensures
        tick == display_tick(nanoseconds as int),
{
    if nanoseconds < 1_000_000_000 {
        return nanoseconds / 1_000_000;
    }
    1_000u64.saturating_add(nanoseconds.saturating_add(50_000_000) / 100_000_000)
}

/// Durations read the same exactly where they have the same tick, so a duration is redrawn exactly
/// when its text changes.
pub proof fn law_same_tick_same_text(a: u64, b: u64)
    ensures
        display_tick(a as int) == display_tick(b as int) <==> duration_text(a as int)
            == duration_text(b as int),
{
    if duration_text(a as int) == duration_text(b as int) {
        lemma_same_text_same_tick(a as int, b as int);
    }
}

proof fn lemma_same_text_same_tick(a: int, b: int)
    requires
        0 <= a <= u64::MAX,
        0 <= b <= u64::MAX,
        duration_text(a) == duration_text(b),
    ensures
        display_tick(a) == display_tick(b),
{
    reveal_strlit("ms");
    reveal_strlit("s");
    reveal_strlit(".");
    let (s, t) = (duration_text(a), duration_text(b));
    let n = s.len() as int;
    let (x, y) = (display_tick(a), display_tick(b));
    if a >= 1_000_000_000 && b >= 1_000_000_000 {
        let (u, v) = (x - 1_000, y - 1_000);
        assert(decimal(u % 10) =~= seq![crate::numeral::digit(u % 10)]);
        assert(decimal(v % 10) =~= seq![crate::numeral::digit(v % 10)]);
        assert(s[n - 2] == crate::numeral::digit(u % 10));
        assert(t[n - 2] == crate::numeral::digit(v % 10));
        assert(s.take(n - 3) =~= decimal(u / 10));
        assert(t.take(n - 3) =~= decimal(v / 10));
        law_numbers_read_back(u / 10, v / 10);
    } else if a < 1_000_000_000 && b < 1_000_000_000 {
        assert(s.take(n - 2) =~= decimal(x));
        assert(t.take(n - 2) =~= decimal(y));
        law_numbers_read_back(x, y);
    } else {
        let (u, v) = (x - 1_000, y - 1_000);
        if a >= 1_000_000_000 {
            assert(s[n - 2] == crate::numeral::digit(u % 10));
            assert(t[n - 2] == 'm');
        } else {
            assert(s[n - 2] == 'm');
            assert(t[n - 2] == crate::numeral::digit(v % 10));
        }
    }
}

/// A string without the prefix, taken off as often as it is there.
pub open spec fn without_prefix(s: Seq<char>, prefix: Seq<char>) -> Seq<char>
    decreases s.len(),
{
    if prefix.len() > 0 && begins(s, prefix) {
        without_prefix(s.skip(prefix.len() as int), prefix)
    } else {
        s
    }
}

/// A tool's name in words: `mcp__files__read_all` is `files · read all`.
pub open spec fn tool_words(name: Seq<char>) -> Seq<char> {
    replaced_all(
        replaced_all(without_prefix(name, "mcp__"@), "__"@, " · "@),
        "_"@,
        " "@,
    )
}

/// A tool's name in words.
pub fn humanize_tool(name: &str) -> (words: String)
    ensures
        words@ == tool_words(name@),
{
    let mut rest: &str = name;
    proof {
        reveal_strlit("mcp__");
        reveal_strlit("__");
        reveal_strlit("_");
    }
    while has_prefix(rest, "mcp__")
        invariant
            "mcp__"@.len() == 5,
            without_prefix(rest@, "mcp__"@) == without_prefix(name@, "mcp__"@),
        decreases rest@.len(),
    {
        let at: usize = crate::text::offset_of(rest, 5);
        let (_, tail) = crate::text::cut(rest, at);
        rest = tail;
    }
    let spaced: String = replace_all(rest, "__", " · ");
    replace_all(spaced.as_str(), "_", " ")
}

/// A number of bytes in tenths of a unit, rounded to the nearest, and to the even one of two.
pub open spec fn tenths_of(bytes: int, unit: int) -> int {
    let whole = bytes * 10 / unit;
    let rest = bytes * 10 % unit;
    if rest * 2 > unit || (rest * 2 == unit && whole % 2 == 1) {
        whole + 1
    } else {
        whole
    }
}

/// A number with one decimal.
pub open spec fn tenths_text(tenths: int) -> Seq<char> {
    decimal(tenths / 10) + "."@ + decimal(tenths % 10)
}

/// A size as it is shown.
pub open spec fn bytes_text(bytes: int) -> Seq<char> {
    if bytes >= 1_048_576 {
        tenths_text(tenths_of(bytes, 1_048_576)) + " MiB"@
    } else if bytes >= 1_024 {
        tenths_text(tenths_of(bytes, 1_024)) + " KiB"@
    } else {
        decimal(bytes) + " B"@
    }
}

fn rounded_tenths(bytes: usize, unit: u128) -> (tenths: u64)
    requires
        unit == 1_024 || unit == 1_048_576,
    ensures
        tenths == tenths_of(bytes as int, unit as int),
{
    let scaled: u128 = (bytes as u128) * 10;
    let whole: u128 = scaled / unit;
    let rest: u128 = scaled % unit;
    assert(whole <= scaled / 1_024) by (nonlinear_arith)
        requires
            unit >= 1_024,
            whole == scaled / unit,
    ;
    let up: u128 = if rest * 2 > unit || (rest * 2 == unit && whole % 2 == 1) {
        whole + 1
    } else {
        whole
    };
    up as u64
}

/// Writes a size.
pub fn format_bytes(bytes: usize) -> (text: String)
    ensures
        text@ == bytes_text(bytes as int),
{
    if bytes >= 1_024 {
        let large: bool = bytes >= 1_048_576;
        let unit: u128 = if large {
            1_048_576
        } else {
            1_024
        };
        let tenths: u64 = rounded_tenths(bytes, unit);
        let mut text: String = decimal_text(tenths / 10);
        text.push_str(".");
        text.push_str(decimal_text(tenths % 10).as_str());
        text.push_str(
            if large {
                " MiB"
            } else {
                " KiB"
            },
        );
        return text;
    }
    let mut text: String = decimal_text(bytes as u64);
    text.push_str(" B");
    text
}

/// A count with its noun.
pub open spec fn counted(count: int, singular: Seq<char>, plural: Seq<char>) -> Seq<char> {
    decimal(count) + " "@ + if count == 1 {
        singular
    } else {
        plural
    }
}

/// Writes a count with its noun.
pub fn count_label(count: usize, singular: &str, plural: &str) -> (label: String)
    ensures
        label@ == counted(count as int, singular@, plural@),
{
    let mut label: String = decimal_text(count as u64);
    label.push_str(" ");
    label.push_str(
        if count == 1 {
            singular
        } else {
            plural
        },
    );
    label
}

/// Part `i` of a path names a step; empty parts, and `.` but at the start, do not.
pub open spec fn is_step(parts: Seq<Seq<char>>, i: int) -> bool {
    parts[i].len() > 0 && (parts[i] != "."@ || i == 0)
}

/// The indices of the steps among the first `n` parts.
pub open spec fn step_indices(parts: Seq<Seq<char>>, n: int) -> Seq<int>
    decreases n,
{
    if n <= 0 {
        Seq::empty()
    } else if is_step(parts, n - 1) {
        step_indices(parts, n - 1).push(n - 1)
    } else {
        step_indices(parts, n - 1)
    }
}

/// The parts of a path between its slashes.
pub open spec fn parts_of(path: Seq<char>) -> Seq<Seq<char>> {
    split(path, '/')
}

/// The steps of a path.
pub open spec fn steps(path: Seq<char>) -> Seq<Seq<char>> {
    let parts = parts_of(path);
    step_indices(parts, parts.len() as int).map_values(|i: int| parts[i])
}

pub open spec fn is_rooted(path: Seq<char>) -> bool {
    path.len() > 0 && path[0] == '/'
}

/// The steps of `base` are the first ones of `path`.
pub open spec fn is_below(path: Seq<char>, base: Seq<char>) -> bool {
    &&& is_rooted(path) == is_rooted(base)
    &&& steps(base).len() <= steps(path).len()
    &&& steps(path).take(steps(base).len() as int) == steps(base)
}

/// What is left of a path behind its first `n` steps.
pub open spec fn below(path: Seq<char>, n: int) -> Seq<char> {
    let parts = parts_of(path);
    let kept = step_indices(parts, parts.len() as int);
    joined_with(parts.subrange(kept[n], kept.last() + 1), "/"@)
}

/// A path with the home directory written as `~`.
#[verifier::opaque]
pub open spec fn shortened(path: Seq<char>, home: Option<Seq<char>>) -> Seq<char> {
    match home {
        None => path,
        Some(base) => if !is_below(path, base) {
            path
        } else if steps(path).len() == steps(base).len() {
            "~"@
        } else {
            "~/"@ + below(path, steps(base).len() as int)
        },
    }
}

proof fn lemma_step_indices(parts: Seq<Seq<char>>, n: int)
    requires
        0 <= n <= parts.len(),
    ensures
        forall|k: int|
            0 <= k < step_indices(parts, n).len() ==> 0 <= #[trigger] step_indices(parts, n)[k] < n,
        forall|j: int, k: int|
            0 <= j <= k < step_indices(parts, n).len() ==> #[trigger] step_indices(parts, n)[j]
                <= #[trigger] step_indices(parts, n)[k],
    decreases n,
{
    if n > 0 {
        lemma_step_indices(parts, n - 1);
        let front = step_indices(parts, n - 1);
        let all = step_indices(parts, n);
        assert forall|k: int| 0 <= k < all.len() implies 0 <= #[trigger] all[k] < n by {
            if k < front.len() {
                assert(all[k] == front[k]);
            }
        }
        assert forall|j: int, k: int| 0 <= j <= k < all.len() implies #[trigger] all[j]
            <= #[trigger] all[k] by {
            if k < front.len() {
                assert(all[k] == front[k]);
                assert(all[j] == front[j]);
            } else if j < front.len() {
                assert(all[j] == front[j]);
            }
        }
    }
}

fn find_steps(parts: &Vec<&str>) -> (kept: Vec<usize>)
    ensures
        indices(kept@) == step_indices(views(parts@), parts@.len() as int),
{
    let mut kept: Vec<usize> = Vec::new();
    let mut i: usize = 0;
    assert(indices(kept@) =~= step_indices(views(parts@), 0));
    while i < parts.len()
        invariant
            i <= parts@.len(),
            indices(kept@) == step_indices(views(parts@), i as int),
        decreases parts@.len() - i,
    {
        let ghost sofar = indices(kept@);
        assert(views(parts@)[i as int] == parts@[i as int]@);
        if !parts[i].is_empty() && (i == 0 || !same(parts[i], ".")) {
            kept.push(i);
            assert(indices(kept@) =~= sofar.push(i as int));
        }
        i = i + 1;
    }
    kept
}

/// A path with the home directory written as `~`.
pub fn shorten_home(path: &str, home: Option<&str>) -> (text: String)
    ensures
        text@ == shortened(
            path@,
            match home {
                Some(base) => Some(base@),
                None => None,
            },
        ),
{
    proof {
        reveal(shortened);
    }
    let base: &str = match home {
        Some(base) => base,
        None => return path.to_owned(),
    };
    let parts = split_at_all(path, '/');
    let kept = find_steps(&parts);
    let base_parts = split_at_all(base, '/');
    let base_kept = find_steps(&base_parts);
    proof {
        lemma_step_indices(views(parts@), parts@.len() as int);
        lemma_step_indices(views(base_parts@), base_parts@.len() as int);
        assert(forall|k: int|
            0 <= k < kept@.len() ==> #[trigger] indices(kept@)[k] == kept@[k]);
        assert(forall|k: int|
            0 <= k < base_kept@.len() ==> #[trigger] indices(base_kept@)[k] == base_kept@[k]);
    }
    if starts_with(path, '/') != starts_with(base, '/') || base_kept.len() > kept.len() {
        return path.to_owned();
    }
    let mut i: usize = 0;
    while i < base_kept.len()
        invariant
            home matches Some(given) && given@ == base@,
            parts_of(path@) == views(parts@),
            parts_of(base@) == views(base_parts@),
            indices(kept@) == step_indices(views(parts@), parts@.len() as int),
            indices(base_kept@) == step_indices(views(base_parts@), base_parts@.len() as int),
            forall|k: int| 0 <= k < kept@.len() ==> #[trigger] indices(kept@)[k] == kept@[k],
            forall|k: int|
                0 <= k < base_kept@.len() ==> #[trigger] indices(base_kept@)[k] == base_kept@[k],
            forall|k: int| 0 <= k < kept@.len() ==> 0 <= #[trigger] indices(kept@)[k] < parts@.len(),
            forall|k: int|
                0 <= k < base_kept@.len() ==> 0 <= #[trigger] indices(base_kept@)[k]
                    < base_parts@.len(),
            i <= base_kept@.len() <= kept@.len(),
            forall|k: int| 0 <= k < i ==> #[trigger] steps(path@)[k] == steps(base@)[k],
        decreases base_kept@.len() - i,
    {
        proof {
            reveal(shortened);
        }
        assert(indices(kept@)[i as int] == kept@[i as int]);
        assert(indices(base_kept@)[i as int] == base_kept@[i as int]);
        assert(steps(path@)[i as int] == parts@[kept@[i as int] as int]@);
        assert(steps(base@)[i as int] == base_parts@[base_kept@[i as int] as int]@);
        if !same(parts[kept[i]], base_parts[base_kept[i]]) {
            assert(steps(path@).take(steps(base@).len() as int)[i as int] != steps(
                base@,
            )[i as int]);
            return path.to_owned();
        }
        i = i + 1;
    }
    assert(steps(path@).take(steps(base@).len() as int) =~= steps(base@));
    if kept.len() == base_kept.len() {
        return "~".to_owned();
    }
    let last: usize = kept[kept.len() - 1];
    let count: usize = parts.len();
    assert(indices(kept@)[kept@.len() - 1] < count);
    let first: usize = kept[base_kept.len()];
    assert(indices(kept@)[base_kept@.len() as int] == first);
    assert(indices(kept@)[kept@.len() - 1] == last);
    let rest: String = join_part(&parts, first, last + 1, "/");
    concat("~/", rest.as_str())
}

} // verus!
