//! The named scene registry.
//!
//! A scene that is animated keeps its geometry under string names, so a
//! per-frame transformer can find the object it moves. The registry models an
//! unordered mapping from names to objects; mutation is by explicit lookup
//! and replace (`take`, then `add`), never through a long-lived mutable
//! reference into the collection, and the intersection scan walks the entry
//! list directly.

use vstd::prelude::*;

verus! {

broadcast use vstd::seq_lib::seq_to_set_is_finite;

/// No two entries hold the same name.
pub open spec fn distinct_keys<T>(s: Seq<(String, T)>) -> bool {
    forall|i: int, j: int| 0 <= i < j < s.len() ==> (#[trigger] s[i]).0@ != (#[trigger] s[j]).0@
}

/// Some entry holds the name.
pub open spec fn has_key<T>(s: Seq<(String, T)>, k: Seq<char>) -> bool {
    exists|i: int| 0 <= i < s.len() && (#[trigger] s[i]).0@ == k
}

/// The object an entry list associates with a name it holds.
spec fn entry_for<T>(s: Seq<(String, T)>, k: Seq<char>) -> T {
    s[choose|i: int| 0 <= i < s.len() && (#[trigger] s[i]).0@ == k].1
}

/// The mapping an entry list denotes.
spec fn entries_map<T>(s: Seq<(String, T)>) -> Map<Seq<char>, T> {
    Map::new(|k: Seq<char>| has_key(s, k), |k: Seq<char>| entry_for(s, k))
}

/// An unordered mapping from string identifiers to scene objects.
pub struct Registry<T> {
    entries: Vec<(String, T)>,
}

impl<T> View for Registry<T> {
    type V = Map<Seq<char>, T>;

    closed spec fn view(&self) -> Map<Seq<char>, T> {
        entries_map(self.entries@)
    }
}

impl<T> Registry<T> {
    #[verifier::type_invariant]
    spec fn wf(self) -> bool {
        distinct_keys(self.entries@)
    }

    /// An empty registry.
    pub fn new() -> (reg: Registry<T>)
        ensures
            reg@ == Map::<Seq<char>, T>::empty(),
    {
        let reg = Registry { entries: Vec::new() };
        proof {
            assert(reg@ =~= Map::<Seq<char>, T>::empty());
        }
        reg
    }

    /// A registry holding a single named object.
    pub fn from(name: String, object: T) -> (reg: Registry<T>)
        ensures
            reg@ == Map::<Seq<char>, T>::empty().insert(name@, object),
    {
        let mut reg = Registry::new();
        reg.add(name, object);
        reg
    }

    /// Store an object under a name, replacing any object that held the name.
    pub fn add(&mut self, name: String, object: T)
        ensures
            final(self)@ == old(self)@.insert(name@, object),
    {
        proof {
            use_type_invariant(&*self);
        }
        let mut entries: Vec<(String, T)> = Vec::new();
        std::mem::swap(&mut entries, &mut self.entries);
        let ghost s = entries@;
        let n: usize = entries.len();
        let mut i: usize = 0;
        while i < n
            invariant
                i <= n,
                n == entries@.len(),
                entries@ == s,
                s == old(self).entries@,
                distinct_keys(s),
                forall|k: int| 0 <= k < i ==> (#[trigger] s[k]).0@ != name@,
            decreases n - i,
        {
            if entries[i].0 == name {
                proof {
                    lemma_update_entry(s, i as int, name, object);
                }
                entries[i] = (name, object);
                self.entries = entries;
                return ;
            }
            i = i + 1;
        }
        proof {
            lemma_push_entry(s, name, object);
        }
        entries.push((name, object));
        self.entries = entries;
    }

    /// The object stored under a name, if any.
    pub fn get(&self, name: &String) -> (r: Option<&T>)
        ensures
            match r {
                Some(object) => self@.contains_key(name@) && *object == self@[name@],
                None => !self@.contains_key(name@),
            },
    {
        proof {
            use_type_invariant(&*self);
        }
        let n: usize = self.entries.len();
        let mut i: usize = 0;
        while i < n
            invariant
                i <= n,
                n == self.entries@.len(),
                distinct_keys(self.entries@),
                forall|k: int| 0 <= k < i ==> (#[trigger] self.entries@[k]).0@ != name@,
            decreases n - i,
        {
            let entry = &self.entries[i];
            if entry.0 == *name {
                proof {
                    lemma_entry_lookup(self.entries@, i as int);
                }
                return Some(&entry.1);
            }
            i = i + 1;
        }
        None
    }

    /// Whether any object holds the name.
    pub fn contains_key(&self, name: &String) -> (r: bool)
        ensures
            r == self@.contains_key(name@),
    {
        self.get(name).is_some()
    }

    /// Remove and return the object stored under a name, if any; the rest of
    /// the registry is untouched.
    pub fn take(&mut self, name: &String) -> (r: Option<T>)
        ensures
            match r {
                Some(object) => old(self)@.contains_key(name@) && object == old(self)@[name@]
                    && final(self)@ == old(self)@.remove(name@),
                None => !old(self)@.contains_key(name@) && final(self)@ == old(self)@,
            },
    {
        proof {
            use_type_invariant(&*self);
        }
        let mut entries: Vec<(String, T)> = Vec::new();
        std::mem::swap(&mut entries, &mut self.entries);
        let ghost s = entries@;
        let n: usize = entries.len();
        let mut i: usize = 0;
        while i < n
            invariant
                i <= n,
                n == entries@.len(),
                entries@ == s,
                s == old(self).entries@,
                distinct_keys(s),
                forall|k: int| 0 <= k < i ==> (#[trigger] s[k]).0@ != name@,
            decreases n - i,
        {
            if entries[i].0 == *name {
                proof {
                    lemma_entry_lookup(s, i as int);
                    lemma_remove_entry(s, i as int);
                }
                let entry = entries.remove(i);
                self.entries = entries;
                return Some(entry.1);
            }
            i = i + 1;
        }
        self.entries = entries;
        None
    }

    /// How many objects the registry holds.
    pub fn len(&self) -> (n: usize)
        ensures
            n == self@.dom().len(),
    {
        proof {
            use_type_invariant(&*self);
            lemma_dom_len(self.entries@);
        }
        self.entries.len()
    }

    /// The entries themselves, for a scan over every object: each name is
    /// held once, and the list holds exactly the contents of the registry.
    pub fn as_entries(&self) -> (r: &Vec<(String, T)>)
        ensures
            distinct_keys(r@),
            r@.len() == self@.dom().len(),
            forall|i: int|
                0 <= i < r@.len() ==> self@.contains_key((#[trigger] r@[i]).0@) && self@[r@[i].0@]
                    == r@[i].1,
            forall|k: Seq<char>| self@.contains_key(k) ==> has_key(r@, k),
    {
        proof {
            use_type_invariant(&*self);
            lemma_dom_len(self.entries@);
            assert forall|i: int| 0 <= i < self.entries@.len() implies self@.contains_key(
                (#[trigger] self.entries@[i]).0@,
            ) && self@[self.entries@[i].0@] == self.entries@[i].1 by {
                lemma_entry_lookup(self.entries@, i);
            }
        }
        &self.entries
    }
}

/// The entry at a distinct-keyed index is what the mapping associates with
/// its name.
proof fn lemma_entry_lookup<T>(s: Seq<(String, T)>, i: int)
    requires
        distinct_keys(s),
        0 <= i < s.len(),
    ensures
        has_key(s, s[i].0@),
        entry_for(s, s[i].0@) == s[i].1,
        entries_map(s).contains_key(s[i].0@),
        entries_map(s)[s[i].0@] == s[i].1,
{
    let k = s[i].0@;
    assert(0 <= i < s.len() && s[i].0@ == k);
    let j = choose|j: int| 0 <= j < s.len() && (#[trigger] s[j]).0@ == k;
    if j != i {
        assert(s[i].0@ != s[j].0@);
    }
}

/// Replacing the entry that holds a name updates the mapping at that name.
proof fn lemma_update_entry<T>(s: Seq<(String, T)>, i: int, name: String, object: T)
    requires
        distinct_keys(s),
        0 <= i < s.len(),
        s[i].0@ == name@,
    ensures
        distinct_keys(s.update(i, (name, object))),
        entries_map(s.update(i, (name, object))) == entries_map(s).insert(name@, object),
{
    let s2 = s.update(i, (name, object));
    assert forall|p: int, q: int| 0 <= p < q < s2.len() implies (#[trigger] s2[p]).0@
        != (#[trigger] s2[q]).0@ by {
        assert(s2[p].0@ == s[p].0@);
        assert(s2[q].0@ == s[q].0@);
        assert(s[p].0@ != s[q].0@);
    }
    assert forall|k: Seq<char>| has_key(s2, k) implies has_key(s, k) by {
        let j = choose|j: int| 0 <= j < s2.len() && (#[trigger] s2[j]).0@ == k;
        assert(s[j].0@ == s2[j].0@);
    }
    assert forall|k: Seq<char>| has_key(s, k) implies has_key(s2, k) by {
        let j = choose|j: int| 0 <= j < s.len() && (#[trigger] s[j]).0@ == k;
        assert(s2[j].0@ == s[j].0@);
    }
    assert forall|k: Seq<char>| has_key(s2, k) implies entry_for(s2, k) == (if k == name@ {
        object
    } else {
        entry_for(s, k)
    }) by {
        lemma_entry_lookup(s2, i);
        let j = choose|j: int| 0 <= j < s2.len() && (#[trigger] s2[j]).0@ == k;
        lemma_entry_lookup(s2, j);
        if k == name@ {
            assert(entry_for(s2, k) == s2[i].1);
        } else {
            assert(j != i);
            assert(s2[j] == s[j]);
            lemma_entry_lookup(s, j);
        }
    }
    assert(entries_map(s2) =~= entries_map(s).insert(name@, object));
}

/// Appending an entry under a fresh name inserts it into the mapping.
proof fn lemma_push_entry<T>(s: Seq<(String, T)>, name: String, object: T)
    requires
        distinct_keys(s),
        !has_key(s, name@),
    ensures
        distinct_keys(s.push((name, object))),
        entries_map(s.push((name, object))) == entries_map(s).insert(name@, object),
{
    let s2 = s.push((name, object));
    assert forall|p: int, q: int| 0 <= p < q < s2.len() implies (#[trigger] s2[p]).0@
        != (#[trigger] s2[q]).0@ by {
        if q == s.len() {
            assert(s2[p].0@ == s[p].0@);
            assert(!(0 <= p < s.len() && (#[trigger] s[p]).0@ == name@));
        } else {
            assert(s2[p].0@ == s[p].0@);
            assert(s2[q].0@ == s[q].0@);
            assert(s[p].0@ != s[q].0@);
        }
    }
    assert(s2[s.len() as int].0@ == name@);
    assert forall|k: Seq<char>| has_key(s2, k) implies (has_key(s, k) || k == name@) by {
        let j = choose|j: int| 0 <= j < s2.len() && (#[trigger] s2[j]).0@ == k;
        if j < s.len() {
            assert(s[j].0@ == s2[j].0@);
        }
    }
    assert forall|k: Seq<char>| has_key(s, k) implies has_key(s2, k) by {
        let j = choose|j: int| 0 <= j < s.len() && (#[trigger] s[j]).0@ == k;
        assert(s2[j].0@ == s[j].0@);
    }
    assert forall|k: Seq<char>| has_key(s2, k) implies entry_for(s2, k) == (if k == name@ {
        object
    } else {
        entry_for(s, k)
    }) by {
        lemma_entry_lookup(s2, s.len() as int);
        let j = choose|j: int| 0 <= j < s2.len() && (#[trigger] s2[j]).0@ == k;
        lemma_entry_lookup(s2, j);
        if k == name@ {
            assert(entry_for(s2, k) == s2[s.len() as int].1);
        } else {
            assert(j != s.len());
            assert(s2[j] == s[j]);
            lemma_entry_lookup(s, j);
        }
    }
    assert(entries_map(s2) =~= entries_map(s).insert(name@, object));
}

/// Removing the entry that holds a name removes that name from the mapping.
proof fn lemma_remove_entry<T>(s: Seq<(String, T)>, i: int)
    requires
        distinct_keys(s),
        0 <= i < s.len(),
    ensures
        distinct_keys(s.remove(i)),
        entries_map(s.remove(i)) == entries_map(s).remove(s[i].0@),
{
    let k0 = s[i].0@;
    let s2 = s.remove(i);
    assert forall|p: int, q: int| 0 <= p < q < s2.len() implies (#[trigger] s2[p]).0@
        != (#[trigger] s2[q]).0@ by {
        let p1 = if p < i {
            p
        } else {
            p + 1
        };
        let q1 = if q < i {
            q
        } else {
            q + 1
        };
        assert(s2[p].0@ == s[p1].0@);
        assert(s2[q].0@ == s[q1].0@);
        assert(s[p1].0@ != s[q1].0@);
    }
    assert forall|k: Seq<char>| has_key(s2, k) implies (has_key(s, k) && k != k0) by {
        let j = choose|j: int| 0 <= j < s2.len() && (#[trigger] s2[j]).0@ == k;
        let j1 = if j < i {
            j
        } else {
            j + 1
        };
        assert(s[j1].0@ == s2[j].0@);
        if k == k0 {
            assert(s[j1].0@ == s[i].0@ && j1 != i);
            if j1 < i {
                assert(s[j1].0@ != s[i].0@);
            } else {
                assert(s[i].0@ != s[j1].0@);
            }
        }
    }
    assert forall|k: Seq<char>| has_key(s, k) && k != k0 implies has_key(s2, k) by {
        let j = choose|j: int| 0 <= j < s.len() && (#[trigger] s[j]).0@ == k;
        assert(j != i);
        let j2 = if j < i {
            j
        } else {
            j - 1
        };
        assert(s2[j2].0@ == s[j].0@);
    }
    assert forall|k: Seq<char>| has_key(s2, k) implies entry_for(s2, k) == entry_for(s, k) by {
        let j = choose|j: int| 0 <= j < s2.len() && (#[trigger] s2[j]).0@ == k;
        lemma_entry_lookup(s2, j);
        let j1 = if j < i {
            j
        } else {
            j + 1
        };
        assert(s2[j] == s[j1]);
        lemma_entry_lookup(s, j1);
    }
    assert(entries_map(s2) =~= entries_map(s).remove(k0));
}

/// With distinct names, the mapping holds exactly one name per entry.
proof fn lemma_dom_len<T>(s: Seq<(String, T)>)
    requires
        distinct_keys(s),
    ensures
        entries_map(s).dom().finite(),
        entries_map(s).dom().len() == s.len(),
{
    let keys = s.map_values(|p: (String, T)| p.0@);
    assert forall|p: int, q: int| 0 <= p < q < keys.len() implies keys[p] != keys[q] by {
        assert(keys[p] == (#[trigger] s[p]).0@);
        assert(keys[q] == (#[trigger] s[q]).0@);
    }
    assert(keys.no_duplicates());
    keys.unique_seq_to_set();
    assert forall|k: Seq<char>| keys.to_set().contains(k) implies has_key(s, k) by {
        let j = choose|j: int| 0 <= j < keys.len() && keys[j] == k;
        assert((#[trigger] s[j]).0@ == k);
    }
    assert forall|k: Seq<char>| has_key(s, k) implies keys.to_set().contains(k) by {
        let j = choose|j: int| 0 <= j < s.len() && (#[trigger] s[j]).0@ == k;
        assert(keys[j] == k);
    }
    assert(entries_map(s).dom() =~= keys.to_set());
}

} // verus!
