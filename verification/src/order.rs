//! The order of strings by their characters, and sorting by it.

use crate::text::{characters, joined_with};
use vstd::prelude::*;

verus! {

/// `a` stands in front of `b` or is equal to it: characters are compared by their code points from
/// the first one on, and a beginning stands in front of what continues it.
pub open spec fn at_most(a: Seq<char>, b: Seq<char>) -> bool
    decreases a.len(),
{
    if a.len() == 0 {
        true
    } else if b.len() == 0 {
        false
    } else if a[0] != b[0] {
        (a[0] as int) < (b[0] as int)
    } else {
        at_most(a.drop_first(), b.drop_first())
    }
}

pub proof fn lemma_total(a: Seq<char>, b: Seq<char>)
    ensures
        at_most(a, b) || at_most(b, a),
        at_most(a, a),
    decreases a.len(),
{
    if a.len() > 0 {
        lemma_total(a.drop_first(), a.drop_first());
        if b.len() > 0 && a[0] == b[0] {
            lemma_total(a.drop_first(), b.drop_first());
        }
    }
}

pub proof fn lemma_antisymmetric(a: Seq<char>, b: Seq<char>)
    requires
        at_most(a, b),
        at_most(b, a),
    ensures
        a == b,
    decreases a.len(),
{
    if a.len() == 0 || b.len() == 0 {
        assert(a =~= b);
    } else {
        assert(a[0] == b[0]);
        lemma_antisymmetric(a.drop_first(), b.drop_first());
        assert(a =~= seq![a[0]] + a.drop_first());
        assert(b =~= seq![b[0]] + b.drop_first());
    }
}

pub proof fn lemma_transitive(a: Seq<char>, b: Seq<char>, c: Seq<char>)
    requires
        at_most(a, b),
        at_most(b, c),
    ensures
        at_most(a, c),
    decreases a.len(),
{
    if a.len() > 0 && a[0] == b[0] && b[0] == c[0] {
        lemma_transitive(a.drop_first(), b.drop_first(), c.drop_first());
    }
}

/// Whether a string stands in front of another one or is equal to it.
pub fn in_order(a: &str, b: &str) -> (yes: bool)
    ensures
        yes == at_most(a@, b@),
{
    let left = characters(a);
    let right = characters(b);
    let mut i: usize = 0;
    assert(a@.skip(0) =~= a@);
    assert(b@.skip(0) =~= b@);
    while i < left.len() && i < right.len()
        invariant
            left@ == a@,
            right@ == b@,
            i <= left.len(),
            i <= right.len(),
            at_most(a@, b@) == at_most(a@.skip(i as int), b@.skip(i as int)),
        decreases left.len() - i,
    {
        assert(a@.skip(i as int)[0] == left@[i as int]);
        assert(b@.skip(i as int)[0] == right@[i as int]);
        if left[i] != right[i] {
            return left[i] < right[i];
        }
        assert(a@.skip(i as int).drop_first() =~= a@.skip(i + 1));
        assert(b@.skip(i as int).drop_first() =~= b@.skip(i + 1));
        i = i + 1;
    }
    i == left.len()
}

/// The characters of every string of a list.
pub open spec fn texts(list: Seq<String>) -> Seq<Seq<char>> {
    list.map_values(|s: String| s@)
}

/// Every string stands in front of the ones behind it.
pub open spec fn is_sorted(list: Seq<Seq<char>>) -> bool {
    forall|i: int, j: int|
        #![trigger list[i], list[j]]
        0 <= i <= j < list.len() ==> at_most(list[i], list[j])
}

/// Puts a string into a sorted list.
pub fn insert_sorted(list: &mut Vec<String>, item: String)
    requires
        is_sorted(texts(old(list)@)),
    ensures
        is_sorted(texts(final(list)@)),
        texts(final(list)@).to_multiset() == texts(old(list)@).to_multiset().insert(item@),
{
    let ghost before = texts(list@);
    let mut at: usize = list.len();
    while at > 0 && !in_order(list[at - 1].as_str(), item.as_str())
        invariant
            at <= list.len(),
            before == texts(list@),
            is_sorted(before),
            forall|j: int| at <= j < before.len() ==> !at_most(#[trigger] before[j], item@),
        decreases at,
    {
        assert(before[at - 1] == list@[at - 1]@);
        at = at - 1;
    }
    proof {
        if at > 0 {
            assert(before[at - 1] == list@[at - 1]@);
        }
    }
    list.insert(at, item);
    proof {
        let now = texts(list@);
        let p = at as int;
        assert(now =~= before.insert(p, item@));
        vstd::seq_lib::to_multiset_insert(before, p, item@);
        assert forall|i: int, j: int|
            #![trigger now[i], now[j]]
            0 <= i <= j < now.len() implies at_most(now[i], now[j]) by {
            if i == p && j == p {
                lemma_total(item@, item@);
            } else if i == p {
                assert(now[j] == before[j - 1]);
                lemma_total(before[j - 1], item@);
            } else if j == p {
                assert(now[i] == before[i]);
                assert(at_most(before[p - 1], item@));
                assert(at_most(before[i], before[p - 1]));
                lemma_transitive(before[i], before[p - 1], item@);
            } else {
                let a = if i < p {
                    i
                } else {
                    i - 1
                };
                let b = if j < p {
                    j
                } else {
                    j - 1
                };
                assert(now[i] == before[a] && now[j] == before[b]);
            }
        }
    }
}

/// The strings of a list with a separator between them.
pub fn join_texts(parts: &Vec<String>, separator: &str) -> (text: String)
    ensures
        text@ == joined_with(texts(parts@), separator@),
{
    let mut text = String::new();
    let mut i: usize = 0;
    let ghost all = texts(parts@);
    assert(text@ =~= joined_with(all.take(0), separator@));
    while i < parts.len()
        invariant
            all == texts(parts@),
            i <= parts@.len(),
            text@ == joined_with(all.take(i as int), separator@),
        decreases parts@.len() - i,
    {
        let ghost sofar = text@;
        if i > 0 {
            text.push_str(separator);
        }
        text.push_str(parts[i].as_str());
        assert(all.take(i + 1).drop_last() =~= all.take(i as int));
        assert(all.take(i + 1).last() == parts@[i as int]@);
        if i == 0 {
            assert(sofar =~= Seq::<char>::empty());
            assert(text@ =~= parts@[0]@);
        }
        i = i + 1;
    }
    assert(all.take(i as int) =~= all);
    text
}

} // verus!
