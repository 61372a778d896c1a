//! A typed record store keyed by id.
//!
//! Persisted objects are kept per type, keyed by their id string. The store
//! is a vector of `(id, value)` entries with unique ids, viewed as a
//! `Map<Seq<char>, V>`; adding, reading, updating and deleting are verified
//! against that view.

use vstd::prelude::*;
use crate::strutil::str_eq;

verus! {

/// The map described by a sequence of `(id, value)` entries; a later entry
/// wins, though the store keeps ids unique.
pub open spec fn map_of<V>(s: Seq<(String, V)>) -> Map<Seq<char>, V>
    decreases s.len(),
{
    if s.len() == 0 {
        Map::empty()
    } else {
        map_of(s.drop_last()).insert(s.last().0@, s.last().1)
    }
}

/// Whether the ids of `s` are pairwise distinct.
pub open spec fn unique_ids<V>(s: Seq<(String, V)>) -> bool {
    forall|i: int, j: int| 0 <= i < j < s.len() ==> s[i].0@ != s[j].0@
}

/// `map_of` contains exactly the ids of the entries.
proof fn lemma_map_of_domain<V>(s: Seq<(String, V)>, k: Seq<char>)
    ensures
        map_of(s).contains_key(k) <==> exists|i: int| 0 <= i < s.len() && s[i].0@ == k,
    decreases s.len(),
{
    if s.len() > 0 {
        lemma_map_of_domain(s.drop_last(), k);
        if map_of(s).contains_key(k) {
            if s.last().0@ != k {
                let i = choose|i: int| 0 <= i < s.len() - 1 && s.drop_last()[i].0@ == k;
                assert(s[i].0@ == k);
            }
        }
        if exists|i: int| 0 <= i < s.len() && s[i].0@ == k {
            let i = choose|i: int| 0 <= i < s.len() && s[i].0@ == k;
            if i < s.len() - 1 {
                assert(s.drop_last()[i].0@ == k);
            }
        }
    }
}

/// In a store with unique ids, the entry at `i` gives the map's value at its
/// id.
proof fn lemma_map_of_index<V>(s: Seq<(String, V)>, i: int)
    requires
        unique_ids(s),
        0 <= i < s.len(),
    ensures
        map_of(s).contains_key(s[i].0@),
        map_of(s)[s[i].0@] == s[i].1,
    decreases s.len(),
{
    if i == s.len() - 1 {
    } else {
        assert(s.drop_last()[i] == s[i]);
        lemma_map_of_index(s.drop_last(), i);
        assert(s[i].0@ != s.last().0@);
    }
}

/// Updating the entry at `i` updates the map at its id alone.
proof fn lemma_map_of_update<V>(s: Seq<(String, V)>, i: int, e: (String, V))
    requires
        unique_ids(s),
        0 <= i < s.len(),
        e.0@ == s[i].0@,
    ensures
        map_of(s.update(i, e)) == map_of(s).insert(e.0@, e.1),
    decreases s.len(),
{
    let t = s.update(i, e);
    if i == s.len() - 1 {
        assert(t.drop_last() =~= s.drop_last());
        assert(map_of(t) == map_of(s.drop_last()).insert(e.0@, e.1));
        assert(map_of(s).insert(e.0@, e.1) =~= map_of(s.drop_last()).insert(e.0@, e.1));
    } else {
        assert(t.drop_last() =~= s.drop_last().update(i, e));
        assert(s.drop_last()[i] == s[i]);
        lemma_map_of_update(s.drop_last(), i, e);
        assert(t.last() == s.last());
        assert(map_of(t) == map_of(s.drop_last()).insert(e.0@, e.1).insert(s.last().0@, s.last().1));
        assert(s.last().0@ != e.0@);
        assert(map_of(s.drop_last()).insert(e.0@, e.1).insert(s.last().0@, s.last().1) =~= map_of(
            s.drop_last(),
        ).insert(s.last().0@, s.last().1).insert(e.0@, e.1));
    }
}

/// Removing the entry at `i` removes its id from the map alone.
proof fn lemma_map_of_remove<V>(s: Seq<(String, V)>, i: int)
    requires
        unique_ids(s),
        0 <= i < s.len(),
    ensures
        map_of(s.remove(i)) == map_of(s).remove(s[i].0@),
    decreases s.len(),
{
    let t = s.remove(i);
    if i == s.len() - 1 {
        assert(t =~= s.drop_last());
        lemma_map_of_domain(s.drop_last(), s[i].0@);
        assert forall|j: int| 0 <= j < s.len() - 1 implies s[j].0@ != s[i].0@ by {}
        assert(!map_of(s.drop_last()).contains_key(s[i].0@));
        assert(map_of(s).remove(s[i].0@) =~= map_of(s.drop_last()));
    } else {
        assert(t.drop_last() =~= s.drop_last().remove(i));
        assert(s.drop_last()[i] == s[i]);
        lemma_map_of_remove(s.drop_last(), i);
        assert(t.last() == s.last());
        assert(map_of(t) == map_of(s.drop_last()).remove(s[i].0@).insert(s.last().0@, s.last().1));
        assert(s.last().0@ != s[i].0@);
        assert(map_of(s.drop_last()).remove(s[i].0@).insert(s.last().0@, s.last().1) =~= map_of(
            s.drop_last(),
        ).insert(s.last().0@, s.last().1).remove(s[i].0@));
    }
}

/// A store of records of one type, keyed by id.
pub struct RecordMap<V> {
    entries: Vec<(String, V)>,
}

impl<V> View for RecordMap<V> {
    type V = Map<Seq<char>, V>;

    closed spec fn view(&self) -> Map<Seq<char>, V> {
        map_of(self.entries@)
    }
}

impl<V> RecordMap<V> {
    #[verifier::type_invariant]
    closed spec fn inv(self) -> bool {
        unique_ids(self.entries@)
    }

    /// An empty store.
    pub fn new() -> (r: RecordMap<V>)
        ensures
            r@ == Map::<Seq<char>, V>::empty(),
    {
        RecordMap { entries: Vec::new() }
    }

    /// The position of the entry with id `id`, if one exists.
    fn position(&self, id: &str) -> (r: Option<usize>)
        ensures
            match r {
                Some(i) => i < self.entries@.len() && self.entries@[i as int].0@ == id@,
                None => forall|i: int|
                    0 <= i < self.entries@.len() ==> (#[trigger] self.entries@[i]).0@ != id@,
            },
    {
        let n = self.entries.len();
        let mut i: usize = 0;
        while i < n
            invariant
                0 <= i <= n == self.entries@.len(),
                forall|k: int| 0 <= k < i ==> (#[trigger] self.entries@[k]).0@ != id@,
            decreases n - i,
        {
            if str_eq(self.entries[i].0.as_str(), id) {
                return Some(i);
            }
            i = i + 1;
        }
        None
    }

    /// Whether a record with id `id` exists.
    pub fn contains(&self, id: &str) -> (r: bool)
        ensures
            r == self@.contains_key(id@),
    {
        proof {
            use_type_invariant(&*self);
            lemma_map_of_domain(self.entries@, id@);
        }
        match self.position(id) {
            Some(_) => true,
            None => false,
        }
    }

    /// The record with id `id`, if one exists.
    pub fn get(&self, id: &str) -> (r: Option<&V>)
        ensures
            match r {
                Some(v) => self@.contains_key(id@) && *v == self@[id@],
                None => !self@.contains_key(id@),
            },
    {
        proof {
            use_type_invariant(&*self);
            lemma_map_of_domain(self.entries@, id@);
        }
        match self.position(id) {
            Some(i) => {
                proof {
                    lemma_map_of_index(self.entries@, i as int);
                }
                Some(&self.entries[i].1)
            },
            None => None,
        }
    }

    /// Adds a record under a fresh id; reports whether the id was fresh, and
    /// changes nothing if it was not.
    pub fn add(&mut self, id: &str, v: V) -> (r: bool)
        ensures
            r == !old(self)@.contains_key(id@),
            final(self)@ == if r {
                old(self)@.insert(id@, v)
            } else {
                old(self)@
            },
    {
        proof {
            use_type_invariant(&*self);
            lemma_map_of_domain(self.entries@, id@);
        }
        match self.position(id) {
            Some(_) => false,
            None => {
                let ghost s0 = self.entries@;
                let mut entries: Vec<(String, V)> = Vec::new();
                std::mem::swap(&mut self.entries, &mut entries);
                entries.push((id.to_owned(), v));
                proof {
                    let s1 = entries@;
                    assert(s1.drop_last() =~= s0);
                    assert(unique_ids(s1));
                }
                self.entries = entries;
                true
            },
        }
    }

    /// Replaces the record under an existing id; reports whether the id was
    /// present, and changes nothing if it was not.
    pub fn update(&mut self, id: &str, v: V) -> (r: bool)
        ensures
            r == old(self)@.contains_key(id@),
            final(self)@ == if r {
                old(self)@.insert(id@, v)
            } else {
                old(self)@
            },
    {
        proof {
            use_type_invariant(&*self);
            lemma_map_of_domain(self.entries@, id@);
        }
        match self.position(id) {
            Some(i) => {
                let ghost s0 = self.entries@;
                let mut entries: Vec<(String, V)> = Vec::new();
                std::mem::swap(&mut self.entries, &mut entries);
                entries.set(i, (id.to_owned(), v));
                proof {
                    let e = entries@[i as int];
                    assert(entries@ =~= s0.update(i as int, e));
                    lemma_map_of_update(s0, i as int, e);
                    assert forall|a: int, b: int|
                        0 <= a < b < entries@.len() implies entries@[a].0@ != entries@[b].0@ by {
                        if a != i && b != i {
                            assert(s0[a].0@ != s0[b].0@);
                        }
                    }
                }
                self.entries = entries;
                true
            },
            None => false,
        }
    }

    /// Stores a record under an id, replacing any record already there.
    pub fn set(&mut self, id: &str, v: V)
        ensures
            final(self)@ == old(self)@.insert(id@, v),
    {
        proof {
            use_type_invariant(&*self);
            lemma_map_of_domain(self.entries@, id@);
        }
        if self.contains(id) {
            self.update(id, v);
        } else {
            self.add(id, v);
        }
    }

    /// Deletes the record under an id; reports whether it was present.
    pub fn delete(&mut self, id: &str) -> (r: bool)
        ensures
            r == old(self)@.contains_key(id@),
            final(self)@ == if r {
                old(self)@.remove(id@)
            } else {
                old(self)@
            },
    {
        proof {
            use_type_invariant(&*self);
            lemma_map_of_domain(self.entries@, id@);
        }
        match self.position(id) {
            Some(i) => {
                let ghost s0 = self.entries@;
                let mut entries: Vec<(String, V)> = Vec::new();
                std::mem::swap(&mut self.entries, &mut entries);
                entries.remove(i);
                proof {
                    assert(entries@ =~= s0.remove(i as int));
                    lemma_map_of_remove(s0, i as int);
                    assert forall|a: int, b: int|
                        0 <= a < b < entries@.len() implies entries@[a].0@ != entries@[b].0@ by {
                        let a0 = if a < i {
                            a
                        } else {
                            a + 1
                        };
                        let b0 = if b < i {
                            b
                        } else {
                            b + 1
                        };
                        assert(entries@[a] == s0[a0] && entries@[b] == s0[b0]);
                        assert(s0[a0].0@ != s0[b0].0@);
                    }
                }
                self.entries = entries;
                true
            },
            None => false,
        }
    }
}

} // verus!
