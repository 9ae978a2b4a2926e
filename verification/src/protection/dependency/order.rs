//! Sorting packages by name, version and source.

use vstd::prelude::*;

use crate::text::order::{
    comes_before, lemma_text_le_antisymmetric, lemma_text_le_total, lemma_text_le_transitive,
    text_le,
};

verus! {

/// What packages are sorted by.
pub struct PackageKey {
    pub name: Seq<char>,
    pub version: Seq<char>,
    pub source: Seq<char>,
}

/// Whether a key comes before another or equals it: by name, of one name by version, and of one
/// version by source.
pub open spec fn key_le(left: PackageKey, right: PackageKey) -> bool {
    if left.name != right.name {
        text_le(left.name, right.name)
    } else if left.version != right.version {
        text_le(left.version, right.version)
    } else {
        text_le(left.source, right.source)
    }
}

/// What has a package key.
pub trait HasKey: Sized {
    /// The key.
    spec fn key(self) -> PackageKey;
}

/// What tells its package key.
pub trait Keyed: HasKey {
    /// Name, version and source.
    fn key_texts(&self) -> (r: (&str, &str, &str))
        ensures
            r.0@ == self.key().name,
            r.1@ == self.key().version,
            r.2@ == self.key().source,
    ;
}

/// Whether an item comes before another or has the same key.
pub fn key_before<T: Keyed>(left: &T, right: &T) -> (r: bool)
    ensures
        r == key_le(left.key(), right.key()),
{
    let (a, b, c) = left.key_texts();
    let (x, y, z) = right.key_texts();
    if !crate::text::same_text(a, x) {
        comes_before(a, x)
    } else if !crate::text::same_text(b, y) {
        comes_before(b, y)
    } else {
        comes_before(c, z)
    }
}

/// The order of keys is total.
pub proof fn lemma_key_le_total(left: PackageKey, right: PackageKey)
    ensures
        key_le(left, right) || key_le(right, left),
{
    lemma_text_le_total(left.name, right.name);
    lemma_text_le_total(left.version, right.version);
    lemma_text_le_total(left.source, right.source);
}

/// The order of keys is transitive.
pub proof fn lemma_key_le_transitive(a: PackageKey, b: PackageKey, c: PackageKey)
    requires
        key_le(a, b),
        key_le(b, c),
    ensures
        key_le(a, c),
{
    if a.name == b.name && b.name == c.name {
        if a.version == b.version && b.version == c.version {
            lemma_text_le_transitive(a.source, b.source, c.source);
        } else if a.version != b.version && b.version != c.version {
            lemma_text_le_transitive(a.version, b.version, c.version);
            if a.version == c.version {
                lemma_text_le_antisymmetric(a.version, b.version);
            }
        }
    } else if a.name != b.name && b.name != c.name {
        lemma_text_le_transitive(a.name, b.name, c.name);
        if a.name == c.name {
            lemma_text_le_antisymmetric(a.name, b.name);
        }
    }
}

/// Where an item goes into a list: behind everything at the end that does not come after it.
pub open spec fn place_of<T: HasKey>(list: Seq<T>, item: T) -> int
    decreases list.len(),
{
    if list.len() == 0 || key_le(list.last().key(), item.key()) {
        list.len() as int
    } else {
        place_of(list.drop_last(), item)
    }
}

/// The list sorted by key; items with one key stay in the order that they had.
pub open spec fn sorted<T: HasKey>(list: Seq<T>) -> Seq<T>
    decreases list.len(),
{
    if list.len() == 0 {
        Seq::empty()
    } else {
        let before = sorted(list.drop_last());
        before.insert(place_of(before, list.last()), list.last())
    }
}

/// Whether each item of a list comes before all that follow it, or has the same key.
pub open spec fn ascending_keys<T: HasKey>(list: Seq<T>) -> bool {
    forall|i: int, j: int|
        0 <= i <= j < list.len() ==> key_le((#[trigger] list[i]).key(), (#[trigger] list[j]).key())
}

proof fn lemma_place_of<T: HasKey>(list: Seq<T>, item: T)
    ensures
        0 <= place_of(list, item) <= list.len(),
        place_of(list, item) > 0 ==> key_le(list[place_of(list, item) - 1].key(), item.key()),
        forall|j: int|
            place_of(list, item) <= j < list.len() ==> !key_le(
                (#[trigger] list[j]).key(),
                item.key(),
            ),
    decreases list.len(),
{
    if !(list.len() == 0 || key_le(list.last().key(), item.key())) {
        lemma_place_of(list.drop_last(), item);
        let at = place_of(list, item);
        assert forall|j: int| at <= j < list.len() implies !key_le(
            (#[trigger] list[j]).key(),
            item.key(),
        ) by {
            if j < list.len() - 1 {
                assert(list.drop_last()[j] == list[j]);
            }
        }
    }
}

/// Sorting gives an ascending list of the same items.
pub proof fn lemma_sorted<T: HasKey>(list: Seq<T>)
    ensures
        ascending_keys(sorted(list)),
        sorted(list).to_multiset() == list.to_multiset(),
        sorted(list).len() == list.len(),
    decreases list.len(),
{
    if list.len() == 0 {
        assert(sorted(list) =~= list);
    } else {
        lemma_sorted(list.drop_last());
        let before = sorted(list.drop_last());
        let item = list.last();
        let at = place_of(before, item);
        lemma_place_of(before, item);
        let out = before.insert(at, item);
        assert forall|i: int, j: int| 0 <= i <= j < out.len() implies key_le(
            (#[trigger] out[i]).key(),
            (#[trigger] out[j]).key(),
        ) by {
            lemma_key_le_total(item.key(), item.key());
            if i < at && j == at {
                lemma_key_le_transitive(before[i].key(), before[at - 1].key(), item.key());
            } else if i == at && j > at {
                lemma_key_le_total(item.key(), before[j - 1].key());
            }
        }
        crate::text::order::lemma_insert_multiset(before, at, item);
        assert(list =~= list.drop_last().push(item));
        list.drop_last().to_multiset_ensures();
    }
}

/// Sorting keeps what the items stand for, counted.
pub proof fn lemma_sorted_map<T: HasKey, U>(list: Seq<T>, f: spec_fn(T) -> U)
    ensures
        sorted(list).map_values(f).to_multiset() == list.map_values(f).to_multiset(),
    decreases list.len(),
{
    if list.len() == 0 {
        assert(sorted(list) =~= list);
    } else {
        lemma_sorted_map(list.drop_last(), f);
        let before = sorted(list.drop_last());
        let item = list.last();
        let at = place_of(before, item);
        lemma_place_of(before, item);
        assert(before.insert(at, item).map_values(f) =~= before.map_values(f).insert(at, f(item)));
        crate::text::order::lemma_insert_multiset(before.map_values(f), at, f(item));
        assert(list.map_values(f) =~= list.drop_last().map_values(f).push(f(item)));
        list.drop_last().map_values(f).to_multiset_ensures();
    }
}

/// Sorting goes by the key alone, so it commutes with what keeps the key.
pub proof fn lemma_sorted_commutes<T: HasKey, U: HasKey>(list: Seq<T>, f: spec_fn(T) -> U)
    requires
        forall|item: T| (#[trigger] f(item)).key() == item.key(),
    ensures
        sorted(list.map_values(f)) == sorted(list).map_values(f),
    decreases list.len(),
{
    if list.len() == 0 {
        assert(sorted(list.map_values(f)) =~= sorted(list).map_values(f));
    } else {
        let before = sorted(list.drop_last());
        let item = list.last();
        lemma_sorted_commutes(list.drop_last(), f);
        assert(list.map_values(f).drop_last() =~= list.drop_last().map_values(f));
        assert(list.map_values(f).last() == f(item));
        lemma_place_of(before, item);
        lemma_place_commutes(before, item, f);
        assert(before.insert(place_of(before, item), item).map_values(f) =~= before.map_values(
            f,
        ).insert(place_of(before, item), f(item)));
    }
}

proof fn lemma_place_commutes<T: HasKey, U: HasKey>(list: Seq<T>, item: T, f: spec_fn(T) -> U)
    requires
        forall|item: T| (#[trigger] f(item)).key() == item.key(),
    ensures
        place_of(list.map_values(f), f(item)) == place_of(list, item),
    decreases list.len(),
{
    if list.len() > 0 {
        assert(list.map_values(f).last() == f(list.last()));
        assert(list.map_values(f).drop_last() =~= list.drop_last().map_values(f));
        lemma_place_commutes(list.drop_last(), item, f);
    }
}

fn find_place<T: Keyed>(list: &Vec<T>, item: &T) -> (r: usize)
    ensures
        r == place_of(list@, *item),
        r <= list@.len(),
{
    let mut at: usize = list.len();
    assert(list@.take(at as int) =~= list@);
    while at > 0 && !key_before(&list[at - 1], item)
        invariant
            at <= list@.len(),
            place_of(list@.take(at as int), *item) == place_of(list@, *item),
        decreases at,
    {
        assert(list@.take(at as int).drop_last() =~= list@.take(at - 1));
        at = at - 1;
    }
    at
}

/// Sorts packages.
pub fn sort<T: Keyed>(list: Vec<T>) -> (r: Vec<T>)
    ensures
        r@ == sorted(list@),
{
    let ghost all = list@;
    let mut rest = list;
    let mut out: Vec<T> = Vec::new();
    assert(all.take(0) =~= Seq::<T>::empty());
    let ghost mut done: int = 0;
    while rest.len() > 0
        invariant
            0 <= done <= all.len(),
            rest@ == all.skip(done),
            out@ == sorted(all.take(done)),
        decreases rest@.len(),
    {
        let item = rest.remove(0);
        assert(item == all[done]);
        assert(rest@ =~= all.skip(done + 1));
        assert(all.take(done + 1).drop_last() =~= all.take(done));
        let at = find_place(&out, &item);
        out.insert(at, item);
        proof {
            done = done + 1;
        }
    }
    assert(all.take(done) =~= all);
    out
}

} // verus!
