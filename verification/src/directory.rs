//! Maps from names, or from paths of names, to values.

use vstd::prelude::*;

use crate::text::{copy_texts, same_text, texts};

verus! {

/// What a directory can be keyed by.
pub trait Key: Sized {
    /// What tells one key from another.
    type Name;

    spec fn name(&self) -> Self::Name;

    /// Whether two keys are the same.
    fn same(&self, other: &Self) -> (r: bool)
        ensures
            r == (self.name() == other.name()),
    ;

    /// Another key of the same name.
    fn duplicate(&self) -> (r: Self)
        ensures
            r.name() == self.name(),
    ;
}

impl Key for String {
    type Name = Seq<char>;

    open spec fn name(&self) -> Seq<char> {
        self@
    }

    fn same(&self, other: &Self) -> (r: bool) {
        *self == *other
    }

    fn duplicate(&self) -> (r: Self) {
        self.clone()
    }
}

impl Key for Vec<String> {
    type Name = Seq<Seq<char>>;

    open spec fn name(&self) -> Seq<Seq<char>> {
        texts(self@)
    }

    fn same(&self, other: &Self) -> (r: bool) {
        if self.len() != other.len() {
            assert(texts(self@).len() != texts(other@).len());
            return false;
        }
        let mut i: usize = 0;
        while i < self.len()
            invariant
                i <= self.len(),
                self.len() == other.len(),
                forall|j: int| 0 <= j < i ==> (#[trigger] self[j])@ == other[j]@,
            decreases self.len() - i,
        {
            if !same_text(self[i].as_str(), other[i].as_str()) {
                assert(texts(self@)[i as int] != texts(other@)[i as int]);
                return false;
            }
            i = i + 1;
        }
        assert(texts(self@) =~= texts(other@));
        true
    }

    fn duplicate(&self) -> (r: Self) {
        copy_texts(self)
    }
}

/// Number under which a task is known.
#[derive(Clone, Copy, Debug, PartialEq, Eq, Structural)]
pub struct TaskNumber(pub u64);

impl Key for TaskNumber {
    type Name = nat;

    open spec fn name(&self) -> nat {
        self.0 as nat
    }

    fn same(&self, other: &Self) -> (r: bool) {
        self.0 == other.0
    }

    fn duplicate(&self) -> (r: Self) {
        *self
    }
}

/// The names of the entries, in order.
pub open spec fn entry_names<K: Key, V>(entries: Seq<(K, V)>) -> Seq<K::Name> {
    entries.map_values(|entry: (K, V)| entry.0.name())
}

/// The map that a list of entries with distinct names stands for.
pub open spec fn entry_map<K: Key, V>(entries: Seq<(K, V)>) -> Map<K::Name, V> {
    Map::new(
        |name: K::Name| entry_names(entries).contains(name),
        |name: K::Name| entries[entry_names(entries).index_of(name)].1,
    )
}

/// A map whose entries keep the order in which their names were first added.
///
/// The view is the map from names to values.
#[derive(Debug)]
pub struct Directory<K: Key, V> {
    entries: Vec<(K, V)>,
}

impl<K: Key, V> View for Directory<K, V> {
    type V = Map<K::Name, V>;

    closed spec fn view(&self) -> Map<K::Name, V> {
        entry_map(self.entries@)
    }
}

impl<K: Key, V> Directory<K, V> {
    #[verifier::type_invariant]
    spec fn well_formed(self) -> bool {
        entry_names(self.entries@).no_duplicates()
    }

    /// The names in the order in which they were added.
    pub closed spec fn names(&self) -> Seq<K::Name> {
        entry_names(self.entries@)
    }

    /// Names are listed once each, and exactly those that have an entry.
    pub open spec fn lists_names(&self) -> bool {
        self.names().no_duplicates() && self.names().to_set() == self@.dom()
    }

    /// Counts the names, which are listed as they should be.
    pub fn check_names(&self) -> (count: usize)
        ensures
            self.lists_names(),
            count == self.names().len(),
    {
        proof {
            use_type_invariant(self);
            assert(self.names().to_set() =~= self@.dom());
        }
        self.entries.len()
    }

    /// An empty directory.
    pub fn new() -> (r: Self)
        ensures
            r@ == Map::<K::Name, V>::empty(),
            r.names() == Seq::<K::Name>::empty(),
            r.lists_names(),
    {
        let r = Directory { entries: Vec::new() };
        assert(r@ =~= Map::<K::Name, V>::empty());
        assert(r.names() =~= Seq::<K::Name>::empty());
        assert(r.names().to_set() =~= r@.dom());
        r
    }

    /// The number of entries.
    pub fn len(&self) -> (r: usize)
        ensures
            r == self.names().len(),
            r == self@.dom().len(),
            self@.dom().finite(),
    {
        let count: usize = self.check_names();
        proof {
            self.names().unique_seq_to_set();
        }
        count
    }

    fn position(&self, key: &K) -> (r: Option<usize>)
        ensures
            match r {
                Some(i) => i < self.entries.len() && self.entries[i as int].0.name() == key.name(),
                None => !self.names().contains(key.name()),
            },
    {
        let mut i: usize = 0;
        while i < self.entries.len()
            invariant
                i <= self.entries.len(),
                forall|j: int| 0 <= j < i ==> (#[trigger] self.entries[j]).0.name() != key.name(),
            decreases self.entries.len() - i,
        {
            if self.entries[i].0.same(key) {
                return Some(i);
            }
            i = i + 1;
        }
        None
    }

    /// Whether there is an entry under `key`.
    pub fn contains(&self, key: &K) -> (r: bool)
        ensures
            r == self@.contains_key(key.name()),
    {
        let at = self.position(key);
        proof {
            if let Some(i) = at {
                assert(self.names()[i as int] == key.name());
            }
        }
        at.is_some()
    }

    /// The value under `key`.
    pub fn get(&self, key: &K) -> (r: Option<&V>)
        ensures
            match r {
                Some(value) => self@.contains_key(key.name()) && *value == self@[key.name()],
                None => !self@.contains_key(key.name()),
            },
    {
        match self.position(key) {
            Some(i) => {
                proof {
                    use_type_invariant(self);
                    assert(self.names()[i as int] == key.name());
                }
                Some(&self.entries[i].1)
            },
            None => None,
        }
    }

    /// The key of the entry that was added as number `i`.
    pub fn key_at(&self, i: usize) -> (r: &K)
        requires
            i < self.names().len(),
        ensures
            r.name() == self.names()[i as int],
            self@.contains_key(r.name()),
    {
        assert(self.names().contains(self.names()[i as int]));
        &self.entries[i].0
    }

    /// The value of the entry that was added as number `i`.
    pub fn value_at(&self, i: usize) -> (r: &V)
        requires
            i < self.names().len(),
        ensures
            *r == self@[self.names()[i as int]],
            self@.contains_key(self.names()[i as int]),
    {
        proof {
            use_type_invariant(self);
            assert(self.names().contains(self.names()[i as int]));
        }
        &self.entries[i].1
    }

    /// Puts `value` under `key`, in place of what was there, which is returned.
    pub fn insert(&mut self, key: K, value: V) -> (r: Option<V>)
        ensures
            final(self)@ == old(self)@.insert(key.name(), value),
            final(self).names() == if old(self)@.contains_key(key.name()) {
                old(self).names()
            } else {
                old(self).names().push(key.name())
            },
            final(self).lists_names(),
            match r {
                Some(former) => old(self)@.contains_key(key.name()) && former
                    == old(self)@[key.name()],
                None => !old(self)@.contains_key(key.name()),
            },
    {
        proof {
            use_type_invariant(&*self);
        }
        let ghost before = self.entries@;
        let ghost name = key.name();
        let at = self.position(&key);
        let mut entries: Vec<(K, V)> = Vec::new();
        std::mem::swap(&mut entries, &mut self.entries);
        match at {
            Some(i) => {
                let mut entry: (K, V) = (key, value);
                entries.push(entry);
                entry = entries.swap_remove(i);
                proof {
                    let after = entries@;
                    assert(after =~= before.update(i as int, (key, value)));
                    assert(entry_names(after) =~= entry_names(before));
                    assert(entry_names(before)[i as int] == name);
                    assert(entry_map(after) =~= entry_map(before).insert(name, value)) by {
                        assert forall|n: K::Name| entry_map(after).contains_key(n) implies
                            #[trigger] entry_map(after)[n] == entry_map(before).insert(name, value)[n] by {
                            let k = entry_names(after).index_of(n);
                            assert(entry_names(after)[k] == n);
                        }
                    }
                }
                self.entries = entries;
                assert(self.names().to_set() =~= self@.dom());
                Some(entry.1)
            },
            None => {
                entries.push((key, value));
                proof {
                    let after = entries@;
                    assert(entry_names(after) =~= entry_names(before).push(name));
                    assert(entry_names(after)[before.len() as int] == name);
                    assert(entry_map(after) =~= entry_map(before).insert(name, value)) by {
                        assert forall|n: K::Name|
                            entry_names(after).contains(n) == (entry_names(before).contains(n) || n
                                == name) by {
                            if entry_names(before).contains(n) {
                                let k = entry_names(before).index_of(n);
                                assert(entry_names(after)[k] == n);
                            }
                        }
                        assert forall|n: K::Name| entry_map(after).contains_key(n) implies
                            #[trigger] entry_map(after)[n] == entry_map(before).insert(name, value)[n] by {
                            let k = entry_names(after).index_of(n);
                            assert(entry_names(after)[k] == n);
                            if n != name {
                                assert(entry_names(before)[k] == n);
                                let m = entry_names(before).index_of(n);
                                assert(entry_names(before)[m] == n);
                            }
                        }
                    }
                }
                self.entries = entries;
                assert(self.names().to_set() =~= self@.dom());
                None
            },
        }
    }

    /// Takes the entry under `key` out.
    pub fn remove(&mut self, key: &K) -> (r: Option<V>)
        ensures
            final(self)@ == old(self)@.remove(key.name()),
            final(self).lists_names(),
            match r {
                Some(value) => {
                    &&& old(self)@.contains_key(key.name()) && value == old(self)@[key.name()]
                    &&& final(self).names() == old(self).names().remove(
                        old(self).names().index_of(key.name()),
                    )
                },
                None => !old(self)@.contains_key(key.name()) && final(self).names()
                    == old(self).names(),
            },
    {
        proof {
            use_type_invariant(&*self);
        }
        let ghost before = self.entries@;
        let ghost name = key.name();
        let at = self.position(key);
        match at {
            Some(i) => {
                let mut entries: Vec<(K, V)> = Vec::new();
                std::mem::swap(&mut entries, &mut self.entries);
                let entry = entries.remove(i);
                proof {
                    let after = entries@;
                    let names = entry_names(before);
                    assert(names[i as int] == name);
                    assert(entry_names(after) =~= names.remove(i as int));
                    assert(names.index_of(name) == i);
                    assert forall|n: K::Name|
                        entry_names(after).contains(n) == (names.contains(n) && n != name) by {
                        if names.contains(n) && n != name {
                            let k = names.index_of(n);
                            if k < i {
                                assert(entry_names(after)[k] == n);
                            } else {
                                assert(entry_names(after)[k - 1] == n);
                            }
                        }
                        if entry_names(after).contains(n) {
                            let k = entry_names(after).index_of(n);
                            if k < i {
                                assert(names[k] == n);
                            } else {
                                assert(names[k + 1] == n);
                            }
                        }
                    }
                    assert(entry_map(after) =~= entry_map(before).remove(name)) by {
                        assert forall|n: K::Name| entry_map(after).contains_key(n) implies
                            #[trigger] entry_map(after)[n] == entry_map(before).remove(name)[n] by {
                            let k = entry_names(after).index_of(n);
                            let old_k = if k < i { k } else { k + 1 };
                            assert(names[old_k] == n);
                            assert(names[names.index_of(n)] == n);
                        }
                    }
                }
                self.entries = entries;
                assert(self.names().to_set() =~= self@.dom());
                Some(entry.1)
            },
            None => {
                assert(entry_map(before) =~= entry_map(before).remove(name));
                assert(self.names().to_set() =~= self@.dom());
                None
            },
        }
    }

    /// A directory with the same names in the same order, and a clone of each
    /// value.
    pub fn duplicate(&self) -> (r: Self) where V: Clone
        ensures
            r.names() == self.names(),
            r@.dom() == self@.dom(),
            forall|n: K::Name| #[trigger] r@.contains_key(n) ==> cloned(self@[n], r@[n]),
    {
        proof {
            use_type_invariant(self);
        }
        let mut r: Directory<K, V> = Directory::new();
        let total: usize = self.check_names();
        let mut i: usize = 0;
        while i < total
            invariant
                i <= total,
                total == self.names().len(),
                self.names().no_duplicates(),
                self.names().to_set() == self@.dom(),
                r.names() == self.names().take(i as int),
                r.names().to_set() == r@.dom(),
                forall|n: K::Name| #[trigger] r@.contains_key(n) ==> cloned(self@[n], r@[n]),
            decreases total - i,
        {
            let key = self.key_at(i).duplicate();
            let value = self.value_at(i).clone();
            proof {
                let n = self.names()[i as int];
                assert(!self.names().take(i as int).contains(n));
                assert(!r@.contains_key(n)) by {
                    if r@.contains_key(n) {
                        assert(r.names().to_set().contains(n));
                    }
                }
                assert(self.names().take(i as int + 1) =~= self.names().take(i as int).push(n));
            }
            let _ = r.insert(key, value);
            let _ = r.check_names();
            i = i + 1;
        }
        assert(self.names().take(i as int) =~= self.names());
        r
    }

    /// Takes every value out, in the order in which the names were added.
    pub fn take_all(&mut self) -> (r: Vec<V>)
        ensures
            final(self)@ == Map::<K::Name, V>::empty(),
            final(self).names() == Seq::<K::Name>::empty(),
            final(self).lists_names(),
            r@.len() == old(self).names().len(),
            forall|i: int|
                0 <= i < r@.len() ==> #[trigger] r@[i] == old(self)@[old(self).names()[i]],
    {
        proof {
            use_type_invariant(&*self);
        }
        let ghost before = self.entries@;
        let mut entries: Vec<(K, V)> = Vec::new();
        std::mem::swap(&mut entries, &mut self.entries);
        assert(self@ =~= Map::<K::Name, V>::empty());
        assert(self.names() =~= Seq::<K::Name>::empty());
        assert(self.names().to_set() =~= self@.dom());
        let mut values: Vec<V> = Vec::new();
        let ghost all = entries@;
        while entries.len() > 0
            invariant
                entries@ == all.take(entries@.len() as int),
                entries@.len() <= all.len(),
                values@.len() == all.len() - entries@.len(),
                forall|i: int|
                    0 <= i < values@.len() ==> #[trigger] values@[i] == all[all.len() - 1 - i].1,
            decreases entries.len(),
        {
            let last = entries.pop();
            if let Some(entry) = last {
                values.push(entry.1);
            }
        }
        let mut r: Vec<V> = Vec::new();
        while values.len() > 0
            invariant
                values@.len() <= all.len(),
                r@.len() == all.len() - values@.len(),
                forall|i: int|
                    0 <= i < values@.len() ==> #[trigger] values@[i] == all[all.len() - 1 - i].1,
                forall|i: int| 0 <= i < r@.len() ==> #[trigger] r@[i] == all[i].1,
            decreases values.len(),
        {
            let last = values.pop();
            if let Some(value) = last {
                r.push(value);
            }
        }
        proof {
            assert forall|i: int| 0 <= i < r@.len() implies #[trigger] r@[i] == entry_map(before)[entry_names(
                before,
            )[i]] by {
                let n = entry_names(before)[i];
                assert(entry_names(before).contains(n));
                assert(entry_names(before).index_of(n) == i);
            }
        }
        r
    }
}

/// Taking one more element adds it to the set of those taken.
pub proof fn lemma_take_one_more<T>(all: Seq<T>, i: int)
    requires
        0 <= i < all.len(),
    ensures
        all.take(i + 1) == all.take(i).push(all[i]),
        all.take(i + 1).to_set() == all.take(i).to_set().insert(all[i]),
{
    let before = all.take(i);
    let after = all.take(i + 1);
    assert(after =~= before.push(all[i]));
    assert forall|x: T| #[trigger] after.contains(x) == (before.contains(x) || x == all[i]) by {
        if before.contains(x) {
            let k = before.index_of(x);
            assert(after[k] == x);
        }
        assert(after[i] == all[i]);
    }
    assert(after.to_set() =~= before.to_set().insert(all[i]));
}

} // verus!
