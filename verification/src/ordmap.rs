//! A map from text to values that is walked in the order of its keys.

use crate::text;
use vstd::prelude::*;

verus! {

/// A map keyed by text. No key occurs twice, and the entries stand in the order
/// of their keys, so whatever is listed from it reads the same on every run.
#[derive(Debug)]
pub struct OrdMap<V> {
    entries: Vec<(String, V)>,
}

/// Whether the keys of `items` are strictly increasing.
pub open spec fn increasing<V>(items: Seq<(Seq<char>, V)>) -> bool {
    forall|i: int, j: int|
        0 <= i < j < items.len() ==> text::less(#[trigger] items[i].0, #[trigger] items[j].0)
}

/// Whether `k` is the key of the entry at `i`.
pub open spec fn key_at<V>(items: Seq<(Seq<char>, V)>, k: Seq<char>, i: int) -> bool {
    0 <= i < items.len() && items[i].0 == k
}

/// The map that holds exactly the entries of `items`.
pub open spec fn as_map<V>(items: Seq<(Seq<char>, V)>) -> Map<Seq<char>, V> {
    Map::new(
        |k: Seq<char>| exists|i: int| key_at(items, k, i),
        |k: Seq<char>| items[choose|i: int| key_at(items, k, i)].1,
    )
}

/// The keys of `items`, in order.
pub open spec fn keys_of<V>(items: Seq<(Seq<char>, V)>) -> Seq<Seq<char>> {
    items.map_values(|e: (Seq<char>, V)| e.0)
}

proof fn keys_differ<V>(items: Seq<(Seq<char>, V)>, i: int, j: int)
    requires
        increasing(items),
        0 <= i < items.len(),
        0 <= j < items.len(),
        items[i].0 == items[j].0,
    ensures
        i == j,
{
    text::less_is_irreflexive(items[i].0);
    if i < j {
        assert(text::less(items[i].0, items[j].0));
    }
    if j < i {
        assert(text::less(items[j].0, items[i].0));
    }
}

/// Each entry is what the map holds under its key.
pub proof fn entry_in_map<V>(items: Seq<(Seq<char>, V)>, i: int)
    requires
        increasing(items),
        0 <= i < items.len(),
    ensures
        as_map(items).contains_key(items[i].0),
        as_map(items)[items[i].0] == items[i].1,
{
    assert(key_at(items, items[i].0, i));
    let j = choose|j: int| key_at(items, items[i].0, j);
    keys_differ(items, i, j);
}

/// An entry put behind the others, in their order, is one more in the map.
pub proof fn as_map_grows<V>(items: Seq<(Seq<char>, V)>, k: Seq<char>, v: V)
    requires
        increasing(items.push((k, v))),
    ensures
        as_map(items.push((k, v))) == as_map(items).insert(k, v),
{
    let more = items.push((k, v));
    let n = items.len() as int;
    assert(items.insert(n, (k, v)) =~= more);
    assert forall|i: int, j: int| 0 <= i < j < items.len() implies text::less(
        #[trigger] items[i].0,
        #[trigger] items[j].0,
    ) by {
        assert(text::less(more[i].0, more[j].0));
    }
    assert forall|i: int| 0 <= i < n implies text::less(#[trigger] items[i].0, k) by {
        assert(text::less(more[i].0, more[n].0));
    }
    insert_keeps_order(items, n, k, v);
}

impl<V> OrdMap<V> {
    #[verifier::type_invariant]
    closed spec fn ordered(self) -> bool {
        increasing(self.items())
    }

    /// The entries in the order of their keys.
    pub closed spec fn items(self) -> Seq<(Seq<char>, V)> {
        self.entries@.map_values(|e: (String, V)| (e.0@, e.1))
    }

    /// The keys in order.
    pub open spec fn keys(self) -> Seq<Seq<char>> {
        keys_of(self.items())
    }

    /// The entries as a map.
    pub open spec fn view(&self) -> Map<Seq<char>, V> {
        as_map(self.items())
    }

    /// A map without entries.
    pub fn new() -> (r: OrdMap<V>)
        ensures
            r.items() == Seq::<(Seq<char>, V)>::empty(),
            r@ == Map::<Seq<char>, V>::empty(),
    {
        let r = OrdMap { entries: Vec::new() };
        assert(r.items() =~= Seq::<(Seq<char>, V)>::empty());
        assert(r@ =~= Map::<Seq<char>, V>::empty());
        r
    }

    /// The map with these entries, which stand in the order of their keys.
    pub fn from_sorted(entries: Vec<(String, V)>) -> (r: OrdMap<V>)
        requires
            increasing(entries@.map_values(|e: (String, V)| (e.0@, e.1))),
        ensures
            r.items() == entries@.map_values(|e: (String, V)| (e.0@, e.1)),
    {
        OrdMap { entries }
    }

    /// How many entries there are. Their keys are in order.
    pub fn len(&self) -> (n: usize)
        ensures
            n == self.items().len(),
            increasing(self.items()),
    {
        proof {
            use_type_invariant(self);
        }
        self.entries.len()
    }

    /// Whether there are no entries.
    pub fn is_empty(&self) -> (r: bool)
        ensures
            r == (self.items().len() == 0),
    {
        self.entries.len() == 0
    }

    /// The key of the entry at `i`.
    pub fn key(&self, i: usize) -> (k: &str)
        requires
            i < self.items().len(),
        ensures
            k@ == self.items()[i as int].0,
    {
        self.entries[i].0.as_str()
    }

    /// The value of the entry at `i`.
    pub fn value(&self, i: usize) -> (v: &V)
        requires
            i < self.items().len(),
        ensures
            *v == self.items()[i as int].1,
    {
        &self.entries[i].1
    }

    /// The value under `key`, where there is one.
    pub fn get(&self, key: &str) -> (r: Option<&V>)
        ensures
            match r {
                Some(v) => self@.contains_key(key@) && self@[key@] == *v,
                None => !self@.contains_key(key@),
            },
    {
        proof {
            use_type_invariant(self);
        }
        let mut i: usize = 0;
        while i < self.entries.len()
            invariant
                i <= self.entries@.len(),
                increasing(self.items()),
                forall|j: int| 0 <= j < i ==> !#[trigger] key_at(self.items(), key@, j),
            decreases self.entries@.len() - i,
        {
            if text::same(self.entries[i].0.as_str(), key) {
                proof {
                    entry_in_map(self.items(), i as int);
                }
                return Some(&self.entries[i].1);
            }
            i = i + 1;
        }
        assert(forall|j: int| !key_at(self.items(), key@, j));
        None
    }

    /// Puts `value` under `key`, in place of what was there.
    pub fn insert(&mut self, key: String, value: V)
        ensures
            final(self)@ == old(self)@.insert(key@, value),
    {
        proof {
            use_type_invariant(&*self);
        }
        let ghost before = self.items();
        let mut taken: OrdMap<V> = OrdMap::new();
        std::mem::swap(self, &mut taken);
        let mut entries: Vec<(String, V)> = taken.entries;
        let mut i: usize = 0;
        while i < entries.len() && text::precedes(entries[i].0.as_str(), key.as_str())
            invariant
                i <= entries@.len(),
                entries@.map_values(|e: (String, V)| (e.0@, e.1)) == before,
                increasing(before),
                forall|j: int| 0 <= j < i ==> text::less(#[trigger] before[j].0, key@),
            decreases entries@.len() - i,
        {
            i = i + 1;
        }
        let ghost item = (key@, value);
        if i < entries.len() && text::same(entries[i].0.as_str(), key.as_str()) {
            let ghost after = before.update(i as int, item);
            proof {
                assert(increasing(after)) by {
                    assert forall|a: int, b: int| 0 <= a < b < after.len() implies text::less(
                        #[trigger] after[a].0,
                        #[trigger] after[b].0,
                    ) by {
                        assert(before[a].0 == after[a].0 && before[b].0 == after[b].0);
                    }
                }
                assert(as_map(after) =~= as_map(before).insert(key@, value)) by {
                    update_keeps_map(before, i as int, key@, value);
                }
                assert(before.update(i as int, item) =~= entries@.update(
                    i as int,
                    (key, value),
                ).map_values(|e: (String, V)| (e.0@, e.1)));
            }
            entries.set(i, (key, value));
            assert(entries@.map_values(|e: (String, V)| (e.0@, e.1)) =~= after);
            *self = OrdMap { entries };
        } else {
            let ghost after = before.insert(i as int, item);
            proof {
                assert(forall|j: int|
                    i <= j < before.len() ==> text::less(key@, #[trigger] before[j].0)) by {
                    assert forall|j: int| i <= j < before.len() implies text::less(
                        key@,
                        #[trigger] before[j].0,
                    ) by {
                        text::less_is_total(before[i as int].0, key@);
                        if i < j {
                            assert(text::less(before[i as int].0, before[j].0));
                            text::less_is_transitive(key@, before[i as int].0, before[j].0);
                        }
                    }
                }
                insert_keeps_order(before, i as int, key@, value);
                assert(after =~= entries@.insert(i as int, (key, value)).map_values(
                    |e: (String, V)| (e.0@, e.1),
                ));
            }
            entries.insert(i, (key, value));
            assert(entries@.map_values(|e: (String, V)| (e.0@, e.1)) =~= after);
            *self = OrdMap { entries };
        }
    }
}

proof fn update_keeps_map<V>(items: Seq<(Seq<char>, V)>, i: int, key: Seq<char>, value: V)
    requires
        increasing(items),
        0 <= i < items.len(),
        items[i].0 == key,
        increasing(items.update(i, (key, value))),
    ensures
        as_map(items.update(i, (key, value))) =~= as_map(items).insert(key, value),
{
    let after = items.update(i, (key, value));
    assert forall|k: Seq<char>| as_map(after).contains_key(k) == as_map(items).insert(
        key,
        value,
    ).contains_key(k) by {
        if as_map(after).contains_key(k) {
            let j = choose|j: int| key_at(after, k, j);
            assert(key_at(items, k, j));
        }
        if as_map(items).contains_key(k) {
            let j = choose|j: int| key_at(items, k, j);
            assert(key_at(after, k, j));
        }
        assert(key_at(after, key, i));
    }
    assert forall|k: Seq<char>| as_map(after).contains_key(k) implies as_map(after)[k] == as_map(
        items,
    ).insert(key, value)[k] by {
        let j = choose|j: int| key_at(after, k, j);
        entry_in_map(after, j);
        entry_in_map(items, j);
        if k == key {
            keys_differ(after, i, j);
        } else {
            assert(j != i);
        }
    }
}

proof fn insert_keeps_order<V>(items: Seq<(Seq<char>, V)>, i: int, key: Seq<char>, value: V)
    requires
        increasing(items),
        0 <= i <= items.len(),
        forall|j: int| 0 <= j < i ==> text::less(#[trigger] items[j].0, key),
        forall|j: int| i <= j < items.len() ==> text::less(key, #[trigger] items[j].0),
    ensures
        increasing(items.insert(i, (key, value))),
        as_map(items.insert(i, (key, value))) =~= as_map(items).insert(key, value),
{
    let after = items.insert(i, (key, value));
    assert(forall|j: int| 0 <= j < i ==> after[j] == items[j]);
    assert(forall|j: int| i < j < after.len() ==> after[j] == items[j - 1]);
    assert(after[i] == (key, value));
    assert forall|a: int, b: int| 0 <= a < b < after.len() implies text::less(
        #[trigger] after[a].0,
        #[trigger] after[b].0,
    ) by {
        if a < i && b < i {
            assert(text::less(items[a].0, items[b].0));
        } else if a < i && b == i {
            assert(text::less(items[a].0, key));
        } else if a < i {
            assert(text::less(items[a].0, items[b - 1].0));
        } else if a == i {
            assert(text::less(key, items[b - 1].0));
        } else {
            assert(text::less(items[a - 1].0, items[b - 1].0));
        }
    }
    assert forall|k: Seq<char>| as_map(after).contains_key(k) == as_map(items).insert(
        key,
        value,
    ).contains_key(k) by {
        if as_map(after).contains_key(k) {
            let j = choose|j: int| key_at(after, k, j);
            if j < i {
                assert(key_at(items, k, j));
            } else if j > i {
                assert(key_at(items, k, j - 1));
            }
        }
        if as_map(items).contains_key(k) {
            let j = choose|j: int| key_at(items, k, j);
            if j < i {
                assert(key_at(after, k, j));
            } else {
                assert(key_at(after, k, j + 1));
            }
        }
        assert(key_at(after, key, i));
    }
    assert forall|k: Seq<char>| as_map(after).contains_key(k) implies as_map(after)[k] == as_map(
        items,
    ).insert(key, value)[k] by {
        let j = choose|j: int| key_at(after, k, j);
        entry_in_map(after, j);
        if j < i {
            text::less_is_irreflexive(key);
            entry_in_map(items, j);
        } else if j > i {
            text::less_is_irreflexive(key);
            entry_in_map(items, j - 1);
        }
    }
}

} // verus!
