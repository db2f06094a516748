//! A map keyed by text that lists its entries in dictionary order.

use crate::text::{
    text_before, text_before_irreflexive, text_before_transitive, text_order, TextOrder,
};
use vstd::prelude::*;

verus! {

/// Entries sorted by key, each key once.
#[derive(Clone, Debug, PartialEq, Eq)]
pub struct TextMap<V> {
    entries: Vec<(String, V)>,
}

/// The keys come in strict dictionary order.
pub open spec fn keys_in_order<V>(entries: Seq<(String, V)>) -> bool {
    forall|i: int, j: int|
        #![trigger entries[i], entries[j]]
        0 <= i < j < entries.len() ==> text_before(entries[i].0@, entries[j].0@)
}

/// Entry `i` carries `key`.
pub open spec fn key_at<V>(entries: Seq<(String, V)>, key: Seq<char>, i: int) -> bool {
    0 <= i < entries.len() && entries[i].0@ == key
}

/// Some entry carries `key`.
pub open spec fn has_key<V>(entries: Seq<(String, V)>, key: Seq<char>) -> bool {
    exists|i: int| key_at(entries, key, i)
}

/// The map that a list of entries stands for.
pub open spec fn entries_map<V>(entries: Seq<(String, V)>) -> Map<Seq<char>, V> {
    Map::new(
        |key: Seq<char>| has_key(entries, key),
        |key: Seq<char>| entries[choose|i: int| key_at(entries, key, i)].1,
    )
}

/// In ordered entries a key stands at one position only.
proof fn key_stands_once<V>(entries: Seq<(String, V)>, key: Seq<char>, i: int, j: int)
    requires
        keys_in_order(entries),
        key_at(entries, key, i),
        key_at(entries, key, j),
    ensures
        i == j,
{
    text_before_irreflexive(key);
    if i < j {
        assert(text_before(entries[i].0@, entries[j].0@));
    }
    if j < i {
        assert(text_before(entries[j].0@, entries[i].0@));
    }
}

/// In ordered entries the map gives each entry's value at its key.
pub proof fn entries_map_at<V>(entries: Seq<(String, V)>, i: int)
    requires
        keys_in_order(entries),
        0 <= i < entries.len(),
    ensures
        entries_map(entries).contains_key(entries[i].0@),
        entries_map(entries)[entries[i].0@] == entries[i].1,
{
    let key = entries[i].0@;
    assert(key_at(entries, key, i));
    key_stands_once(entries, key, i, choose|k: int| key_at(entries, key, k));
}

impl<V> View for TextMap<V> {
    type V = Map<Seq<char>, V>;

    closed spec fn view(&self) -> Map<Seq<char>, V> {
        entries_map(self.entries@)
    }
}

impl<V> TextMap<V> {
    /// The entries come in strict dictionary order of their keys.
    pub closed spec fn wf(&self) -> bool {
        keys_in_order(self.entries@)
    }

    /// A map without entries.
    pub fn new() -> (r: Self)
        ensures
            r.wf(),
            r@ == Map::<Seq<char>, V>::empty(),
    {
        let r = TextMap { entries: Vec::new() };
        assert(r@ =~= Map::<Seq<char>, V>::empty());
        r
    }

    /// The entries in dictionary order of their keys.
    pub fn entries(&self) -> (r: &Vec<(String, V)>)
        requires
            self.wf(),
        ensures
            keys_in_order(r@),
            self@ == entries_map(r@),
    {
        &self.entries
    }

    /// Number of entries.
    pub fn len(&self) -> (r: usize)
        requires
            self.wf(),
        ensures
            self@.dom().finite(),
            r == self@.dom().len(),
    {
        proof {
            entries_count(self.entries@);
        }
        self.entries.len()
    }

    /// Whether there are no entries.
    pub fn is_empty(&self) -> (r: bool)
        requires
            self.wf(),
        ensures
            r == (self@ =~= Map::<Seq<char>, V>::empty()),
    {
        proof {
            if self.entries@.len() > 0 {
                entries_map_at(self.entries@, 0);
            } else {
                assert(self@ =~= Map::<Seq<char>, V>::empty());
            }
        }
        self.entries.len() == 0
    }

    /// Position of the first entry whose key does not come before `key`.
    fn position(&self, key: &str) -> (r: usize)
        requires
            self.wf(),
        ensures
            r <= self.entries@.len(),
            forall|j: int| 0 <= j < r ==> text_before(#[trigger] self.entries@[j].0@, key@),
            r < self.entries@.len() ==> !text_before(self.entries@[r as int].0@, key@),
    {
        let mut i: usize = 0;
        while i < self.entries.len()
            invariant
                i <= self.entries@.len(),
                forall|j: int| 0 <= j < i ==> text_before(#[trigger] self.entries@[j].0@, key@),
            decreases self.entries@.len() - i,
        {
            match text_order(self.entries[i].0.as_str(), key) {
                TextOrder::Before => {
                    i += 1;
                },
                _ => {
                    return i;
                },
            }
        }
        i
    }

    /// Bind `key` to `value`, replacing an earlier binding.
    pub fn insert(&mut self, key: &str, value: V)
        requires
            old(self).wf(),
        ensures
            final(self).wf(),
            final(self)@ == old(self)@.insert(key@, value),
    {
        let i: usize = self.position(key);
        let ghost before = self.entries@;
        let replace: bool = if i < self.entries.len() {
            match text_order(self.entries[i].0.as_str(), key) {
                TextOrder::Same => true,
                _ => false,
            }
        } else {
            false
        };
        let owned: String = key.to_owned();
        if replace {
            self.entries.set(i, (owned, value));
            proof {
                let after = self.entries@;
                assert(after =~= before.update(i as int, after[i as int]));
                assert(after[i as int].0@ == before[i as int].0@);
                assert forall|a: int, b: int|
                    #![trigger after[a], after[b]]
                    0 <= a < b < after.len() implies text_before(after[a].0@, after[b].0@) by {
                    assert(text_before(before[a].0@, before[b].0@));
                }
                replaced_map(before, after, i as int, key@, value);
            }
        } else {
            self.entries.insert(i, (owned, value));
            proof {
                let after = self.entries@;
                inserted_in_order(before, after, i as int, key@);
                inserted_map(before, after, i as int, key@, value);
            }
        }
    }

    /// The value bound to `key`.
    pub fn get(&self, key: &str) -> (r: Option<&V>)
        requires
            self.wf(),
        ensures
            match r {
                Some(value) => self@.contains_key(key@) && *value == self@[key@],
                None => !self@.contains_key(key@),
            },
    {
        let i: usize = self.position(key);
        if i < self.entries.len() {
            match text_order(self.entries[i].0.as_str(), key) {
                TextOrder::Same => {
                    proof {
                        entries_map_at(self.entries@, i as int);
                    }
                    return Some(&self.entries[i].1);
                },
                _ => {},
            }
        }
        proof {
            if has_key(self.entries@, key@) {
                let k = choose|k: int| key_at(self.entries@, key@, k);
                text_before_irreflexive(key@);
                if k < i {
                    assert(text_before(self.entries@[k].0@, key@));
                } else if k > i {
                    assert(text_before(self.entries@[i as int].0@, self.entries@[k].0@));
                }
            }
        }
        None
    }
}

impl TextMap<u32> {
    /// A copy of the map.
    pub fn copy(&self) -> (r: Self)
        requires
            self.wf(),
        ensures
            r.wf(),
            r@ == self@,
    {
        let mut entries: Vec<(String, u32)> = Vec::new();
        let mut i: usize = 0;
        while i < self.entries.len()
            invariant
                i <= self.entries@.len(),
                entries@ == self.entries@.take(i as int),
            decreases self.entries@.len() - i,
        {
            entries.push((self.entries[i].0.clone(), self.entries[i].1));
            i += 1;
            assert(entries@ =~= self.entries@.take(i as int));
        }
        assert(entries@ =~= self.entries@);
        TextMap { entries }
    }
}

/// Ordered entries have as many keys as entries.
proof fn entries_count<V>(entries: Seq<(String, V)>)
    requires
        keys_in_order(entries),
    ensures
        entries_map(entries).dom().finite(),
        entries_map(entries).dom().len() == entries.len(),
    decreases entries.len(),
{
    if entries.len() == 0 {
        assert(entries_map(entries).dom() =~= Set::<Seq<char>>::empty());
    } else {
        let front = entries.drop_last();
        let last = entries.last().0@;
        assert(keys_in_order(front)) by {
            assert forall|i: int, j: int|
                #![trigger front[i], front[j]]
                0 <= i < j < front.len() implies text_before(front[i].0@, front[j].0@) by {
                assert(text_before(entries[i].0@, entries[j].0@));
            }
        }
        entries_count(front);
        assert(!has_key(front, last)) by {
            if has_key(front, last) {
                let k = choose|k: int| key_at(front, last, k);
                key_stands_once(entries, last, k, entries.len() - 1);
            }
        }
        assert(entries_map(entries).dom() =~= entries_map(front).dom().insert(last)) by {
            assert forall|key: Seq<char>|
                entries_map(entries).dom().contains(key) <==> entries_map(front).dom().insert(
                    last,
                ).contains(key) by {
                if has_key(entries, key) {
                    let k = choose|k: int| key_at(entries, key, k);
                    if k < front.len() {
                        assert(key_at(front, key, k));
                    }
                }
                if has_key(front, key) {
                    let k = choose|k: int| key_at(front, key, k);
                    assert(key_at(entries, key, k));
                }
                assert(key_at(entries, last, entries.len() - 1));
            }
        }
    }
}

proof fn replaced_map<V>(
    before: Seq<(String, V)>,
    after: Seq<(String, V)>,
    i: int,
    key: Seq<char>,
    value: V,
)
    requires
        keys_in_order(before),
        keys_in_order(after),
        0 <= i < before.len(),
        after == before.update(i, after[i]),
        before[i].0@ == key,
        after[i].0@ == key,
        after[i].1 == value,
    ensures
        entries_map(after) == entries_map(before).insert(key, value),
{
    let old_map = entries_map(before).insert(key, value);
    let new_map = entries_map(after);
    assert forall|k: Seq<char>| new_map.contains_key(k) <==> old_map.contains_key(k) by {
        if has_key(after, k) {
            let a = choose|a: int| key_at(after, k, a);
            assert(key_at(before, k, a));
        }
        if has_key(before, k) {
            let a = choose|a: int| key_at(before, k, a);
            assert(key_at(after, k, a));
        }
        assert(key_at(after, key, i));
    }
    assert forall|k: Seq<char>| new_map.contains_key(k) implies #[trigger] new_map[k]
        == old_map[k] by {
        let a = choose|a: int| key_at(after, k, a);
        entries_map_at(after, a);
        entries_map_at(before, a);
        if a != i && k == key {
            key_stands_once(after, key, a, i);
        }
    }
    assert(new_map =~= old_map);
}

proof fn inserted_in_order<V>(
    before: Seq<(String, V)>,
    after: Seq<(String, V)>,
    i: int,
    key: Seq<char>,
)
    requires
        keys_in_order(before),
        0 <= i <= before.len(),
        after == before.insert(i, after[i]),
        after[i].0@ == key,
        forall|j: int| 0 <= j < i ==> text_before(#[trigger] before[j].0@, key),
        i < before.len() ==> text_before(key, before[i].0@),
    ensures
        keys_in_order(after),
{
    assert forall|a: int, b: int|
        #![trigger after[a], after[b]]
        0 <= a < b < after.len() implies text_before(after[a].0@, after[b].0@) by {
        if b < i {
            assert(after[a] == before[a] && after[b] == before[b]);
        } else if b == i {
            assert(after[a] == before[a]);
        } else if a < i {
            assert(after[a] == before[a] && after[b] == before[b - 1]);
            if b - 1 > a {
                assert(text_before(before[a].0@, before[b - 1].0@));
            }
        } else if a == i {
            assert(after[b] == before[b - 1]);
            if b - 1 > i {
                assert(text_before(before[i].0@, before[b - 1].0@));
                text_before_transitive(key, before[i].0@, before[b - 1].0@);
            }
        } else {
            assert(after[a] == before[a - 1] && after[b] == before[b - 1]);
            assert(text_before(before[a - 1].0@, before[b - 1].0@));
        }
    }
}

proof fn inserted_map<V>(
    before: Seq<(String, V)>,
    after: Seq<(String, V)>,
    i: int,
    key: Seq<char>,
    value: V,
)
    requires
        keys_in_order(before),
        keys_in_order(after),
        0 <= i <= before.len(),
        after == before.insert(i, after[i]),
        after[i].0@ == key,
        after[i].1 == value,
    ensures
        entries_map(after) == entries_map(before).insert(key, value),
{
    let old_map = entries_map(before).insert(key, value);
    let new_map = entries_map(after);
    assert forall|k: Seq<char>| new_map.contains_key(k) <==> old_map.contains_key(k) by {
        if has_key(after, k) {
            let a = choose|a: int| key_at(after, k, a);
            if a < i {
                assert(key_at(before, k, a));
            } else if a > i {
                assert(key_at(before, k, a - 1));
            }
        }
        if has_key(before, k) {
            let a = choose|a: int| key_at(before, k, a);
            if a < i {
                assert(key_at(after, k, a));
            } else {
                assert(key_at(after, k, a + 1));
            }
        }
        assert(key_at(after, key, i));
    }
    assert forall|k: Seq<char>| new_map.contains_key(k) implies #[trigger] new_map[k]
        == old_map[k] by {
        let a = choose|a: int| key_at(after, k, a);
        entries_map_at(after, a);
        if a < i {
            entries_map_at(before, a);
        } else if a > i {
            entries_map_at(before, a - 1);
        }
        if a != i && k == key {
            key_stands_once(after, key, a, i);
        }
    }
    assert(new_map =~= old_map);
}

} // verus!
