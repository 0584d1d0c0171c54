//! A map with string keys that remembers the order in which its keys first came.
use vstd::prelude::*;

use crate::text::same_text;

verus! {

/// A value that can be compared and copied by its mathematical value.
pub trait MapValue: View + Sized {
    /// Whether two values are the same.
    fn same_value(&self, other: &Self) -> (r: bool)
        ensures
            r == (self@ == other@),
    ;

    /// A copy of the value.
    fn copy_value(&self) -> (r: Self)
        ensures
            r@ == self@,
    ;
}

impl MapValue for String {
    fn same_value(&self, other: &String) -> (r: bool) {
        *self == *other
    }

    fn copy_value(&self) -> (r: String) {
        self.clone()
    }
}

/// A map with string keys. Every key occurs once; the keys keep the order in which they were
/// first inserted.
#[derive(Debug)]
pub struct StringMap<V> {
    entries: Vec<(String, V)>,
}

/// The keys of a list of entries.
pub open spec fn entry_keys<V>(entries: Seq<(String, V)>) -> Seq<Seq<char>> {
    Seq::new(entries.len(), |i: int| entries[i].0@)
}

/// The map that a list of entries without repeated keys stands for.
pub open spec fn entry_map<V: View>(entries: Seq<(String, V)>) -> Map<Seq<char>, V::V>
    decreases entries.len(),
{
    if entries.len() == 0 {
        Map::empty()
    } else {
        entry_map(entries.drop_last()).insert(entries.last().0@, entries.last().1@)
    }
}

/// A map lists exactly the keys of its entries, and gives each entry's value for its key.
proof fn lemma_entry_map<V: View>(entries: Seq<(String, V)>)
    requires
        entry_keys(entries).no_duplicates(),
    ensures
        forall|i: int|
            0 <= i < entries.len() ==> #[trigger] entry_map(entries).dom().contains(
                entries[i].0@,
            ) && entry_map(entries)[entries[i].0@] == entries[i].1@,
        forall|k: Seq<char>|
            entry_map(entries).dom().contains(k) ==> exists|i: int|
                0 <= i < entries.len() && entries[i].0@ == k,
    decreases entries.len(),
{
    if entries.len() > 0 {
        let front = entries.drop_last();
        assert(entry_keys(front) =~= entry_keys(entries).drop_last());
        lemma_entry_map(front);
        let n = entries.len() - 1;
        assert forall|i: int| 0 <= i < entries.len() implies #[trigger] entry_map(
            entries,
        ).dom().contains(entries[i].0@) && entry_map(entries)[entries[i].0@] == entries[i].1@ by {
            if i < n {
                assert(entry_keys(entries)[i] != entry_keys(entries)[n]);
                assert(front[i] == entries[i]);
                assert(entry_map(front).dom().contains(front[i].0@));
            }
        }
        assert forall|k: Seq<char>| entry_map(entries).dom().contains(k) implies exists|i: int|
            0 <= i < entries.len() && entries[i].0@ == k by {
            if k != entries.last().0@ {
                assert(entry_map(front).dom().contains(k));
                let i = choose|i: int| 0 <= i < front.len() && front[i].0@ == k;
                assert(entries[i].0@ == k);
            } else {
                assert(entries[n].0@ == k);
            }
        }
    }
}

impl<V: View> View for StringMap<V> {
    type V = Map<Seq<char>, V::V>;

    closed spec fn view(&self) -> Map<Seq<char>, V::V> {
        entry_map(self.entries@)
    }
}

impl<V> StringMap<V> {
    /// No key occurs twice.
    #[verifier::type_invariant]
    spec fn keys_are_distinct(self) -> bool {
        entry_keys(self.entries@).no_duplicates()
    }
}

impl<V: View> StringMap<V> {
    /// The keys in order of first insertion.
    pub closed spec fn keys(&self) -> Seq<Seq<char>> {
        entry_keys(self.entries@)
    }

    /// An empty map.
    pub fn new() -> (r: StringMap<V>)
        ensures
            r@ == Map::<Seq<char>, V::V>::empty(),
            r.keys() == Seq::<Seq<char>>::empty(),
    {
        let entries: Vec<(String, V)> = Vec::new();
        assert(entry_keys(entries@) =~= Seq::<Seq<char>>::empty());
        StringMap { entries }
    }

    /// How many keys there are. The keys are those of the map, each once.
    pub fn len(&self) -> (r: usize)
        ensures
            r == self.keys().len(),
            self.keys().no_duplicates(),
            forall|k: Seq<char>| self.keys().contains(k) <==> self@.dom().contains(k),
    {
        proof {
            use_type_invariant(self);
            lemma_entry_map(self.entries@);
            assert forall|k: Seq<char>| self.keys().contains(k) implies self@.dom().contains(
                k,
            ) by {
                let i = choose|i: int| 0 <= i < self.keys().len() && self.keys()[i] == k;
                assert(self@.dom().contains(self.entries@[i].0@));
            }
            assert forall|k: Seq<char>| self@.dom().contains(k) implies self.keys().contains(
                k,
            ) by {
                let i = choose|i: int| 0 <= i < self.entries@.len() && self.entries@[i].0@ == k;
                assert(self.keys()[i] == k);
            }
        }
        self.entries.len()
    }

    /// Whether there is no key.
    pub fn is_empty(&self) -> (r: bool)
        ensures
            r == (self.keys().len() == 0),
            r == (self@ == Map::<Seq<char>, V::V>::empty()),
    {
        proof {
            use_type_invariant(self);
            lemma_entry_map(self.entries@);
            if self.entries@.len() > 0 {
                assert(self@.dom().contains(self.entries@[0].0@));
            }
        }
        self.entries.len() == 0
    }

    /// Where a key stands among the keys.
    fn position(&self, key: &str) -> (r: Option<usize>)
        ensures
            r matches Some(i) ==> i < self.entries@.len() && self.entries@[i as int].0@ == key@,
            r is None ==> forall|i: int|
                0 <= i < self.entries@.len() ==> self.entries@[i].0@ != key@,
    {
        let mut i: usize = 0;
        while i < self.entries.len()
            invariant
                i <= self.entries@.len(),
                forall|j: int| 0 <= j < i ==> self.entries@[j].0@ != key@,
            decreases self.entries.len() - i,
        {
            if same_text(self.entries[i].0.as_str(), key) {
                return Some(i);
            }
            i += 1;
        }
        None
    }

    /// The value of a key.
    pub fn get(&self, key: &str) -> (r: Option<&V>)
        ensures
            self@.dom().contains(key@) ==> (r matches Some(v) && v@ == self@[key@]),
            !self@.dom().contains(key@) ==> r is None,
    {
        proof {
            use_type_invariant(self);
            lemma_entry_map(self.entries@);
        }
        match self.position(key) {
            Some(i) => {
                assert(self@.dom().contains(self.entries@[i as int].0@));
                Some(&self.entries[i].1)
            },
            None => None,
        }
    }

    /// Whether a key is present.
    pub fn contains_key(&self, key: &str) -> (r: bool)
        ensures
            r == self@.dom().contains(key@),
    {
        self.get(key).is_some()
    }

    /// The key at a position of the insertion order.
    pub fn key_at(&self, i: usize) -> (r: &String)
        requires
            i < self.keys().len(),
        ensures
            r@ == self.keys()[i as int],
            self@.dom().contains(r@),
    {
        proof {
            use_type_invariant(self);
            lemma_entry_map(self.entries@);
            assert(self@.dom().contains(self.entries@[i as int].0@));
        }
        &self.entries[i].0
    }

    /// The value at a position of the insertion order.
    pub fn value_at(&self, i: usize) -> (r: &V)
        requires
            i < self.keys().len(),
        ensures
            self@.dom().contains(self.keys()[i as int]),
            r@ == self@[self.keys()[i as int]],
    {
        proof {
            use_type_invariant(self);
            lemma_entry_map(self.entries@);
            assert(self@.dom().contains(self.entries@[i as int].0@));
        }
        &self.entries[i].1
    }

    /// Sets the value of a key. An earlier value is overwritten and keeps its place in the order;
    /// a new key comes last.
    pub fn insert(&mut self, key: String, value: V)
        ensures
            final(self)@ == old(self)@.insert(key@, value@),
            old(self)@.dom().contains(key@) ==> final(self).keys() == old(self).keys(),
            !old(self)@.dom().contains(key@) ==> final(self).keys() == old(self).keys().push(key@),
    {
        proof {
            use_type_invariant(&*self);
            lemma_entry_map(self.entries@);
        }
        let found = self.position(key.as_str());
        let mut entries: Vec<(String, V)> = Vec::new();
        std::mem::swap(&mut entries, &mut self.entries);
        let ghost before = entries@;
        match found {
            Some(i) => {
                assert(old(self)@.dom().contains(before[i as int].0@));
                entries[i] = (key, value);
                proof {
                    assert(entry_keys(entries@) =~= entry_keys(before));
                    lemma_update(before, i as int, entries@[i as int]);
                    assert(entries@ =~= before.update(i as int, entries@[i as int]));
                }
            },
            None => {
                entries.push((key, value));
                proof {
                    assert(entry_keys(entries@) =~= entry_keys(before).push(key@));
                    assert(entries@.drop_last() =~= before);
                    let keys = entry_keys(entries@);
                    assert forall|i: int, j: int| 0 <= i < j < keys.len() implies keys[i]
                        != keys[j] by {
                        if j < before.len() {
                            assert(entry_keys(before)[i] != entry_keys(before)[j]);
                        }
                    }
                }
            },
        }
        self.entries = entries;
    }
}

/// Overwriting one value of a list of entries overwrites it in the map.
proof fn lemma_update<V: View>(entries: Seq<(String, V)>, i: int, e: (String, V))
    requires
        entry_keys(entries).no_duplicates(),
        0 <= i < entries.len(),
        e.0@ == entries[i].0@,
    ensures
        entry_map(entries.update(i, e)) == entry_map(entries).insert(e.0@, e.1@),
    decreases entries.len(),
{
    let after = entries.update(i, e);
    let front = entries.drop_last();
    if i == entries.len() - 1 {
        assert(after.drop_last() =~= front);
        assert(entry_map(after) =~= entry_map(entries).insert(e.0@, e.1@));
    } else {
        assert(entry_keys(front) =~= entry_keys(entries).drop_last());
        lemma_update(front, i, e);
        assert(after.drop_last() =~= front.update(i, e));
        assert(entry_keys(entries)[i] != entry_keys(entries)[entries.len() - 1]);
        assert(entry_map(after) =~= entry_map(entries).insert(e.0@, e.1@));
    }
}

/// Whether every entry of one map is an entry of another.
fn is_submap<V: MapValue>(a: &StringMap<V>, b: &StringMap<V>) -> (r: bool)
    ensures
        r == (a@.submap_of(b@)),
{
    let mut i: usize = 0;
    let n: usize = a.len();
    while i < n
        invariant
            i <= n == a.keys().len(),
            forall|k: Seq<char>| a.keys().contains(k) <==> a@.dom().contains(k),
            forall|j: int|
                0 <= j < i ==> #[trigger] b@.dom().contains(a.keys()[j]) && a@[a.keys()[j]]
                    == b@[a.keys()[j]],
        decreases n - i,
    {
        let key = a.key_at(i);
        let value = a.value_at(i);
        match b.get(key.as_str()) {
            Some(other) => {
                if !other.same_value(value) {
                    return false;
                }
                assert(a@[a.keys()[i as int]] == b@[a.keys()[i as int]]);
            },
            None => {
                return false;
            },
        }
        i += 1;
    }
    assert forall|k: Seq<char>| #[trigger] a@.dom().contains(k) implies b@.dom().contains(k)
        && a@[k] == b@[k] by {
        assert(a.keys().contains(k));
        let j = a.keys().index_of(k);
        assert(b@.dom().contains(a.keys()[j]));
    }
    true
}

impl<V: MapValue> PartialEq for StringMap<V> {
    /// Two maps are equal when they hold the same values for the same keys, in whatever order.
    fn eq(&self, other: &StringMap<V>) -> (r: bool) {
        let r: bool = is_submap(self, other) && is_submap(other, self);
        assert(r == (self@ =~= other@)) by {
            if r {
                assert forall|k: Seq<char>| #[trigger] self@.dom().contains(k) == other@.dom().contains(
                    k,
                ) by {}
            }
        }
        r
    }
}

impl<V: MapValue> vstd::std_specs::cmp::PartialEqSpecImpl for StringMap<V> {
    open spec fn obeys_eq_spec() -> bool {
        true
    }

    open spec fn eq_spec(&self, other: &StringMap<V>) -> bool {
        self@ == other@
    }
}

impl<V: MapValue> Eq for StringMap<V> {

}

impl<V: MapValue> Clone for StringMap<V> {
    fn clone(&self) -> (r: StringMap<V>)
        ensures
            r@ == self@,
            r.keys() == self.keys(),
    {
        let mut r: StringMap<V> = StringMap::new();
        let n: usize = self.len();
        let mut i: usize = 0;
        while i < n
            invariant
                i <= n == self.keys().len(),
                self.keys().no_duplicates(),
                forall|k: Seq<char>| self.keys().contains(k) <==> self@.dom().contains(k),
                r.keys() == self.keys().take(i as int),
                forall|k: Seq<char>| #[trigger]
                    r@.dom().contains(k) <==> self.keys().take(i as int).contains(k),
                forall|k: Seq<char>| #[trigger] r@.dom().contains(k) ==> r@[k] == self@[k],
            decreases n - i,
        {
            let ghost before = self.keys().take(i as int);
            let ghost after = self.keys().take(i + 1);
            let key = self.key_at(i);
            let value = self.value_at(i);
            proof {
                if before.contains(key@) {
                    let j = before.index_of(key@);
                    assert(self.keys()[j] == key@);
                }
                assert(after =~= before.push(key@));
                assert forall|k: Seq<char>| after.contains(k) <==> (before.contains(k) || k
                    == key@) by {
                    if before.contains(k) {
                        assert(after[before.index_of(k)] == k);
                    }
                    assert(after[i as int] == key@);
                }
            }
            r.insert(key.clone(), value.copy_value());
            i += 1;
        }
        proof {
            assert(self.keys().take(n as int) =~= self.keys());
            assert(r@ =~= self@) by {
                assert forall|k: Seq<char>| #[trigger] r@.dom().contains(k) == self@.dom().contains(
                    k,
                ) by {}
            }
        }
        r
    }
}

} // verus!
