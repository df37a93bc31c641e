//! A map from strings to values, backed by a vector of pairs whose keys
//! are pairwise distinct.  The abstract contents are a `Map` from the
//! key's character sequence to the stored value.

use vstd::prelude::*;

use crate::strutil::string_eq_str;

verus! {

/// True when no two entries share a key.
spec fn keys_distinct<V>(entries: Seq<(String, V)>) -> bool {
    forall|i: int, j: int| 0 <= i < j < entries.len() ==> entries[i].0@ != entries[j].0@
}

/// The map described by a sequence of key/value pairs; later entries win.
spec fn assoc_view<V>(entries: Seq<(String, V)>) -> Map<Seq<char>, V>
    decreases entries.len(),
{
    if entries.len() == 0 {
        Map::empty()
    } else {
        assoc_view(entries.drop_last()).insert(entries.last().0@, entries.last().1)
    }
}

proof fn lemma_view_index<V>(entries: Seq<(String, V)>, i: int)
    requires
        keys_distinct(entries),
        0 <= i < entries.len(),
    ensures
        assoc_view(entries).contains_key(entries[i].0@),
        assoc_view(entries)[entries[i].0@] == entries[i].1,
    decreases entries.len(),
{
    if i < entries.len() - 1 {
        lemma_view_index(entries.drop_last(), i);
        assert(entries.drop_last()[i] == entries[i]);
    }
}

proof fn lemma_view_contains<V>(entries: Seq<(String, V)>, k: Seq<char>)
    ensures
        assoc_view(entries).contains_key(k) <==> exists|i: int|
            0 <= i < entries.len() && entries[i].0@ == k,
    decreases entries.len(),
{
    if entries.len() > 0 {
        lemma_view_contains(entries.drop_last(), k);
        if entries.last().0@ == k {
            assert(entries[entries.len() - 1].0@ == k);
        } else if assoc_view(entries).contains_key(k) {
            let i = choose|i: int| 0 <= i < entries.drop_last().len() && entries.drop_last()[i].0@
                == k;
            assert(entries[i].0@ == k);
        } else if exists|i: int| 0 <= i < entries.len() && entries[i].0@ == k {
            let i = choose|i: int| 0 <= i < entries.len() && entries[i].0@ == k;
            assert(entries.drop_last()[i].0@ == k);
        }
    }
}

proof fn lemma_view_len<V>(entries: Seq<(String, V)>)
    ensures
        assoc_view(entries).dom().finite(),
        keys_distinct(entries) ==> assoc_view(entries).dom().len() == entries.len(),
    decreases entries.len(),
{
    if entries.len() > 0 {
        lemma_view_len(entries.drop_last());
        if keys_distinct(entries) {
            assert(keys_distinct(entries.drop_last())) by {
                assert(forall|i: int, j: int|
                    0 <= i < j < entries.drop_last().len() ==> entries.drop_last()[i]
                        == entries[i] && entries.drop_last()[j] == entries[j]);
            }
            lemma_view_contains(entries.drop_last(), entries.last().0@);
            if assoc_view(entries.drop_last()).contains_key(entries.last().0@) {
                let i = choose|i: int|
                    0 <= i < entries.drop_last().len() && entries.drop_last()[i].0@
                        == entries.last().0@;
                assert(entries[i].0@ == entries[entries.len() - 1].0@);
            }
        }
    }
}

proof fn lemma_view_remove_absent<V>(entries: Seq<(String, V)>, k: Seq<char>)
    requires
        forall|i: int| 0 <= i < entries.len() ==> entries[i].0@ != k,
    ensures
        assoc_view(entries).remove(k) == assoc_view(entries),
{
    lemma_view_contains(entries, k);
    assert(assoc_view(entries).remove(k) =~= assoc_view(entries));
}

proof fn lemma_view_remove<V>(entries: Seq<(String, V)>, i: int)
    requires
        keys_distinct(entries),
        0 <= i < entries.len(),
    ensures
        assoc_view(entries.remove(i)) == assoc_view(entries).remove(entries[i].0@),
        keys_distinct(entries.remove(i)),
    decreases entries.len(),
{
    let k = entries[i].0@;
    assert(keys_distinct(entries.remove(i))) by {
        assert(forall|a: int|
            0 <= a < entries.remove(i).len() ==> entries.remove(i)[a] == if a < i {
                entries[a]
            } else {
                entries[a + 1]
            });
    }
    if i == entries.len() - 1 {
        assert(entries.remove(i) =~= entries.drop_last());
        lemma_view_contains(entries.drop_last(), k);
        if assoc_view(entries.drop_last()).contains_key(k) {
            let j = choose|j: int|
                0 <= j < entries.drop_last().len() && entries.drop_last()[j].0@ == k;
            assert(entries[j].0@ == entries[i].0@);
        }
        assert(assoc_view(entries.drop_last()).remove(k) =~= assoc_view(entries.drop_last()));
        assert(assoc_view(entries).remove(k) =~= assoc_view(entries.drop_last()));
    } else {
        lemma_view_remove(entries.drop_last(), i);
        assert(entries.remove(i).drop_last() =~= entries.drop_last().remove(i));
        assert(entries.remove(i).last() == entries.last());
        assert(assoc_view(entries.remove(i)) == assoc_view(entries.drop_last().remove(i)).insert(
            entries.last().0@,
            entries.last().1,
        ));
        assert(entries.drop_last()[i] == entries[i]);
        assert(assoc_view(entries).remove(k) =~= assoc_view(entries.drop_last()).remove(k).insert(
            entries.last().0@,
            entries.last().1,
        ));
    }
}

/// A map from strings to values of type `V`.
pub struct StrMap<V> {
    entries: Vec<(String, V)>,
}

impl<V> View for StrMap<V> {
    type V = Map<Seq<char>, V>;

    closed spec fn view(&self) -> Map<Seq<char>, V> {
        assoc_view(self.entries@)
    }
}

impl<V> StrMap<V> {
    #[verifier::type_invariant]
    spec fn wf(self) -> bool {
        keys_distinct(self.entries@)
    }

    /// The keys of the map, in storage order.
    pub closed spec fn spec_keys(&self) -> Seq<Seq<char>> {
        self.entries@.map_values(|p: (String, V)| p.0@)
    }

    /// Creates an empty map.
    pub fn new() -> (r: Self)
        ensures
            r@ == Map::<Seq<char>, V>::empty(),
    {
        StrMap { entries: Vec::new() }
    }

    /// The index of the entry holding `key`, if any.
    fn position(&self, key: &str) -> (r: Option<usize>)
        ensures
            match r {
                Some(i) => i < self.entries@.len() && self.entries@[i as int].0@ == key@,
                None => forall|i: int| 0 <= i < self.entries@.len() ==> self.entries@[i].0@ != key@,
            },
    {
        let n = self.entries.len();
        let mut idx: usize = 0;
        while idx < n
            invariant
                n == self.entries@.len(),
                0 <= idx <= n,
                forall|j: int| 0 <= j < idx ==> self.entries@[j].0@ != key@,
            decreases n - idx,
        {
            let entry = &self.entries[idx];
            if string_eq_str(&entry.0, key) {
                return Some(idx);
            }
            idx += 1;
        }
        None
    }

    /// Looks a key up.
    pub fn get(&self, key: &str) -> (r: Option<&V>)
        ensures
            match r {
                Some(v) => self@.contains_key(key@) && *v == self@[key@],
                None => !self@.contains_key(key@),
            },
            r is Some <==> self@.contains_key(key@),
    {
        proof {
            use_type_invariant(self);
            lemma_view_contains(self.entries@, key@);
        }
        match self.position(key) {
            Some(i) => {
                proof {
                    lemma_view_index(self.entries@, i as int);
                }
                Some(&self.entries[i].1)
            },
            None => None,
        }
    }

    /// True when the map holds the key.
    pub fn contains_key(&self, key: &str) -> (r: bool)
        ensures
            r == self@.contains_key(key@),
    {
        self.get(key).is_some()
    }

    /// Adds a binding, replacing any previous binding of the same key.
    pub fn insert(self, key: String, value: V) -> (r: Self)
        ensures
            r@ == self@.insert(key@, value),
    {
        let removed = self.remove(key.as_str());
        proof {
            use_type_invariant(&removed);
            lemma_view_contains(removed.entries@, key@);
            if removed@.contains_key(key@) {
                let i = choose|i: int|
                    0 <= i < removed.entries@.len() && removed.entries@[i].0@ == key@;
                assert(!removed@.contains_key(key@));
            }
        }
        let mut entries = removed.entries;
        let ghost old_entries = entries@;
        entries.push((key, value));
        proof {
            assert(entries@.drop_last() =~= old_entries);
            assert(assoc_view(entries@) =~= self@.insert(entries@.last().0@, value));
            assert(keys_distinct(entries@)) by {
                lemma_view_contains(old_entries, entries@.last().0@);
            }
        }
        StrMap { entries }
    }

    /// Removes a binding if it is present.
    pub fn remove(self, key: &str) -> (r: Self)
        ensures
            r@ == self@.remove(key@),
    {
        proof {
            use_type_invariant(&self);
        }
        let pos = self.position(key);
        let mut entries = self.entries;
        match pos {
            Some(i) => {
                let ghost before = entries@;
                proof {
                    lemma_view_remove(before, i as int);
                }
                entries.remove(i);
                StrMap { entries }
            },
            None => {
                proof {
                    lemma_view_remove_absent(entries@, key@);
                }
                StrMap { entries }
            },
        }
    }

    /// The number of bindings.
    pub fn len(&self) -> (r: usize)
        ensures
            r == self@.dom().len(),
    {
        proof {
            use_type_invariant(self);
            lemma_view_len(self.entries@);
        }
        self.entries.len()
    }

    /// The keys of the map, in storage order.
    pub fn keys(&self) -> (r: Vec<String>)
        ensures
            r@.map_values(|s: String| s@) == self.spec_keys(),
            self.spec_keys().no_duplicates(),
    {
        proof {
            use_type_invariant(self);
        }
        let n = self.entries.len();
        let mut out: Vec<String> = Vec::new();
        let mut idx: usize = 0;
        while idx < n
            invariant
                n == self.entries@.len(),
                0 <= idx <= n,
                out@.len() == idx,
                forall|j: int| 0 <= j < idx ==> out@[j]@ == self.entries@[j].0@,
            decreases n - idx,
        {
            let entry = &self.entries[idx];
            out.push(entry.0.clone());
            idx += 1;
        }
        proof {
            assert(out@.map_values(|s: String| s@) =~= self.spec_keys());
        }
        out
    }

    /// Law: the sequence of keys covers exactly the abstract map's domain,
    /// which is finite.
    pub proof fn lemma_keys(&self)
        ensures
            forall|k: Seq<char>| #[trigger] self.spec_keys().contains(k) <==> self@.contains_key(k),
            self@.dom().finite(),
    {
        lemma_view_len(self.entries@);
        assert forall|k: Seq<char>| #[trigger] self.spec_keys().contains(k) implies self@.contains_key(k) by {
            lemma_view_contains(self.entries@, k);
            let i = choose|i: int| 0 <= i < self.spec_keys().len() && self.spec_keys()[i] == k;
            assert(self.entries@[i].0@ == k);
        }
        assert forall|k: Seq<char>| self@.contains_key(k) implies #[trigger] self.spec_keys().contains(k) by {
            lemma_view_contains(self.entries@, k);
            let i = choose|i: int| 0 <= i < self.entries@.len() && self.entries@[i].0@ == k;
            assert(self.spec_keys()[i] == k);
        }
    }
}

} // verus!
