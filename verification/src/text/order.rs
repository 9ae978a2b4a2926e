//! The order of texts, and sorting by it.

use vstd::prelude::*;

use crate::text::{chars_of, texts};

verus! {

/// Whether a text comes before another or equals it, character by character.
pub open spec fn text_le(left: Seq<char>, right: Seq<char>) -> bool
    decreases left.len(),
{
    if left.len() == 0 {
        true
    } else if right.len() == 0 {
        false
    } else if left[0] != right[0] {
        left[0] < right[0]
    } else {
        text_le(left.skip(1), right.skip(1))
    }
}

/// The order is total.
pub proof fn lemma_text_le_total(left: Seq<char>, right: Seq<char>)
    ensures
        text_le(left, right) || text_le(right, left),
    decreases left.len(),
{
    if left.len() > 0 && right.len() > 0 && left[0] == right[0] {
        lemma_text_le_total(left.skip(1), right.skip(1));
    }
}

/// Two texts that come before each other are the same.
pub proof fn lemma_text_le_antisymmetric(left: Seq<char>, right: Seq<char>)
    requires
        text_le(left, right),
        text_le(right, left),
    ensures
        left == right,
    decreases left.len(),
{
    if left.len() == 0 || right.len() == 0 {
        assert(left =~= right);
    } else {
        lemma_text_le_antisymmetric(left.skip(1), right.skip(1));
        assert(left =~= seq![left[0]] + left.skip(1));
        assert(right =~= seq![right[0]] + right.skip(1));
    }
}

/// The order is transitive.
pub proof fn lemma_text_le_transitive(a: Seq<char>, b: Seq<char>, c: Seq<char>)
    requires
        text_le(a, b),
        text_le(b, c),
    ensures
        text_le(a, c),
    decreases a.len(),
{
    if a.len() > 0 && b.len() > 0 && c.len() > 0 && a[0] == b[0] && b[0] == c[0] {
        lemma_text_le_transitive(a.skip(1), b.skip(1), c.skip(1));
    }
}

/// Whether a text comes before another or equals it.
pub fn comes_before(left: &str, right: &str) -> (r: bool)
    ensures
        r == text_le(left@, right@),
{
    let a = chars_of(left);
    let b = chars_of(right);
    let mut i: usize = 0;
    assert(left@.skip(0) =~= left@);
    assert(right@.skip(0) =~= right@);
    while i < a.len() && i < b.len()
        invariant
            a@ == left@,
            b@ == right@,
            i <= a@.len(),
            i <= b@.len(),
            text_le(left@.skip(i as int), right@.skip(i as int)) == text_le(left@, right@),
        decreases a@.len() - i,
    {
        if a[i] != b[i] {
            return a[i] < b[i];
        }
        proof {
            assert(left@.skip(i as int).skip(1) =~= left@.skip(i + 1));
            assert(right@.skip(i as int).skip(1) =~= right@.skip(i + 1));
        }
        i = i + 1;
    }
    i == a.len()
}

/// Whether each text of a list comes before, or equals, all that follow it.
pub open spec fn ascending(list: Seq<Seq<char>>) -> bool {
    forall|i: int, j: int| 0 <= i <= j < list.len() ==> text_le(#[trigger] list[i], #[trigger] list[j])
}

/// Whether a list is ascending and no text occurs twice.
pub open spec fn strictly_ascending(list: Seq<Seq<char>>) -> bool {
    forall|i: int, j: int|
        0 <= i < j < list.len() ==> text_le(#[trigger] list[i], #[trigger] list[j]) && list[i]
            != list[j]
}

/// Sorts a list of texts.
pub fn sort_texts(list: Vec<String>) -> (r: Vec<String>)
    ensures
        ascending(texts(r@)),
        texts(r@).to_multiset() == texts(list@).to_multiset(),
{
    broadcast use crate::text::lemma_texts_push;

    let mut out: Vec<String> = Vec::new();
    let mut i: usize = 0;
    assert(texts(list@).take(0) =~= texts(out@));
    while i < list.len()
        invariant
            i <= list@.len(),
            ascending(texts(out@)),
            texts(out@).to_multiset() == texts(list@).take(i as int).to_multiset(),
        decreases list@.len() - i,
    {
        let at = place(&out, list[i].as_str());
        let ghost before = texts(out@);
        out.insert(at, list[i].clone());
        proof {
            let item = list@[i as int]@;
            assert(texts(out@) =~= before.insert(at as int, item));
            lemma_insert_ascending(before, at as int, item);
            lemma_insert_multiset(before, at as int, item);
            assert(texts(list@).take(i + 1) =~= texts(list@).take(i as int).push(item));
            texts(list@).take(i as int).to_multiset_ensures();
        }
        i = i + 1;
    }
    assert(texts(list@).take(i as int) =~= texts(list@));
    out
}

/// Inserting adds one to the count of the item.
pub proof fn lemma_insert_multiset<A>(list: Seq<A>, at: int, item: A)
    requires
        0 <= at <= list.len(),
    ensures
        list.insert(at, item).to_multiset() == list.to_multiset().insert(item),
{
    let left = list.take(at);
    let right = list.skip(at);
    assert(list =~= left + right);
    assert(list.insert(at, item) =~= left.push(item) + right);
    vstd::seq_lib::lemma_multiset_commutative(left, right);
    vstd::seq_lib::lemma_multiset_commutative(left.push(item), right);
    left.to_multiset_ensures();
    assert(left.to_multiset().insert(item).add(right.to_multiset()) =~= left.to_multiset().add(
        right.to_multiset(),
    ).insert(item));
}

proof fn lemma_insert_ascending(list: Seq<Seq<char>>, at: int, item: Seq<char>)
    requires
        ascending(list),
        0 <= at <= list.len(),
        forall|j: int| 0 <= j < at ==> text_le(#[trigger] list[j], item),
        at < list.len() ==> text_le(item, list[at]),
    ensures
        ascending(list.insert(at, item)),
{
    let out = list.insert(at, item);
    assert forall|i: int, j: int| 0 <= i <= j < out.len() implies text_le(
        #[trigger] out[i],
        #[trigger] out[j],
    ) by {
        lemma_text_le_total(item, item);
        if i == at && j > at {
            lemma_text_le_transitive(item, list[at], list[j - 1]);
        }
    }
}

/// Where a text belongs in a sorted list: behind all that come before it or equal it.
fn place(list: &Vec<String>, item: &str) -> (r: usize)
    requires
        ascending(texts(list@)),
    ensures
        r <= list@.len(),
        forall|j: int| 0 <= j < r ==> text_le(#[trigger] texts(list@)[j], item@),
        r < list@.len() ==> text_le(item@, texts(list@)[r as int]),
{
    let mut i: usize = 0;
    while i < list.len()
        invariant
            i <= list@.len(),
            forall|j: int| 0 <= j < i ==> text_le(#[trigger] texts(list@)[j], item@),
        decreases list@.len() - i,
    {
        assert(texts(list@)[i as int] == list@[i as int]@);
        if !comes_before(list[i].as_str(), item) {
            proof {
                lemma_text_le_total(item@, list@[i as int]@);
            }
            return i;
        }
        i = i + 1;
    }
    i
}

/// Sorts a list of texts and keeps one of each.
pub fn sort_distinct(list: Vec<String>) -> (r: Vec<String>)
    ensures
        strictly_ascending(texts(r@)),
        texts(r@).to_set() == texts(list@).to_set(),
{
    broadcast use crate::text::lemma_texts_push;

    let ghost given = texts(list@);
    let sorted = sort_texts(list);
    let ghost all = texts(sorted@);
    let mut out: Vec<String> = Vec::new();
    let mut i: usize = 0;
    while i < sorted.len()
        invariant
            all == texts(sorted@),
            ascending(all),
            i <= sorted@.len(),
            strictly_ascending(texts(out@)),
            forall|t: Seq<char>| texts(out@).contains(t) <==> all.take(i as int).contains(t),
            i > 0 ==> out@.len() > 0 && texts(out@).last() == all[i - 1],
            i == 0 ==> out@.len() == 0,
        decreases sorted@.len() - i,
    {
        let ghost before = texts(out@);
        let ghost item = all[i as int];
        assert(item == sorted@[i as int]@);
        assert(all.take(i + 1) =~= all.take(i as int).push(item));
        proof {
            lemma_push_contains(all.take(i as int), item);
            lemma_push_contains(before, item);
        }
        let repeated = i > 0 && same_as_last(&out, sorted[i].as_str());
        if !repeated {
            out.push(sorted[i].clone());
            assert(texts(out@) =~= before.push(item));
            proof {
                lemma_push_strict(before, item, all, i as int);
            }
        } else {
            assert(before[before.len() - 1] == item);
            assert(before.contains(item));
        }
        assert forall|t: Seq<char>| texts(out@).contains(t) <==> all.take(i + 1).contains(t) by {
            assert(before.contains(t) <==> all.take(i as int).contains(t));
        }
        i = i + 1;
    }
    assert(all.take(i as int) =~= all);
    proof {
        lemma_same_multiset_same_set(all, given);
        assert(texts(out@).to_set() =~= all.to_set());
    }
    out
}

fn same_as_last(list: &Vec<String>, item: &str) -> (r: bool)
    requires
        list@.len() > 0,
    ensures
        r == (texts(list@).last() == item@),
{
    crate::text::same_text(list[list.len() - 1].as_str(), item)
}

/// The members of a list with one more item.
pub proof fn lemma_push_contains<A>(list: Seq<A>, item: A)
    ensures
        forall|t: A| list.push(item).contains(t) <==> list.contains(t) || t == item,
{
    assert forall|t: A| list.push(item).contains(t) <==> list.contains(t) || t == item by {
        if list.contains(t) {
            let j = choose|j: int| 0 <= j < list.len() && list[j] == t;
            assert(list.push(item)[j] == t);
        }
        if t == item {
            assert(list.push(item)[list.len() as int] == t);
        }
        if list.push(item).contains(t) && t != item {
            let j = choose|j: int| 0 <= j < list.push(item).len() && list.push(item)[j] == t;
            assert(list[j] == t);
        }
    }
}

proof fn lemma_push_strict(before: Seq<Seq<char>>, item: Seq<char>, all: Seq<Seq<char>>, at: int)
    requires
        strictly_ascending(before),
        ascending(all),
        0 <= at < all.len(),
        item == all[at],
        forall|t: Seq<char>| before.contains(t) <==> all.take(at).contains(t),
        at > 0 ==> before.len() > 0 && before.last() == all[at - 1] && before.last() != item,
        at == 0 ==> before.len() == 0,
    ensures
        strictly_ascending(before.push(item)),
{
    let out = before.push(item);
    assert forall|i: int, j: int| 0 <= i < j < out.len() implies text_le(
        #[trigger] out[i],
        #[trigger] out[j],
    ) && out[i] != out[j] by {
        if j == before.len() {
            assert(before.contains(before[i]));
            let k = choose|k: int| 0 <= k < all.take(at).len() && all.take(at)[k] == before[i];
            assert(all[k] == before[i]);
            assert(text_le(all[k], all[at]));
            if i < before.len() - 1 {
                assert(text_le(before[i], before[before.len() - 1]));
                if before[i] == item {
                    assert(text_le(all[at - 1], all[at]));
                    lemma_text_le_antisymmetric(before[i], before.last());
                }
            }
        }
    }
}

/// Lists with the same items, counted, have the same members.
pub proof fn lemma_same_multiset_same_set<A>(left: Seq<A>, right: Seq<A>)
    requires
        left.to_multiset() == right.to_multiset(),
    ensures
        left.to_set() == right.to_set(),
{
    left.to_multiset_ensures();
    right.to_multiset_ensures();
    assert forall|a: A| left.to_set().contains(a) <==> right.to_set().contains(a) by {
        assert(left.contains(a) <==> left.to_multiset().count(a) > 0);
        assert(right.contains(a) <==> right.to_multiset().count(a) > 0);
    }
    assert(left.to_set() =~= right.to_set());
}

} // verus!
