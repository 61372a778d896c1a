//! A set of revocation indices.
//!
//! The per-registry bookkeeping (`used_ids`) and the issued/revoked parts of
//! a delta are sets of indices. This container keeps them as a strictly
//! increasing vector, so membership, insertion and removal are verified
//! against a `Set<u32>` view and iteration order is canonical.

use vstd::prelude::*;

verus! {

/// Whether `s` is strictly increasing.
pub open spec fn strictly_increasing(s: Seq<u32>) -> bool {
    forall|i: int, j: int| 0 <= i < j < s.len() ==> s[i] < s[j]
}

/// A finite set of `u32` indices, stored in strictly increasing order.
#[derive(Debug)]
pub struct IndexSet {
    items: Vec<u32>,
}

impl View for IndexSet {
    type V = Set<u32>;

    closed spec fn view(&self) -> Set<u32> {
        self.items@.to_set()
    }
}

impl IndexSet {
    #[verifier::type_invariant]
    closed spec fn inv(self) -> bool {
        strictly_increasing(self.items@)
    }

    /// The underlying strictly increasing sequence.
    pub closed spec fn seq(&self) -> Seq<u32> {
        self.items@
    }

    /// The empty set.
    pub fn new() -> (r: IndexSet)
        ensures
            r@ == Set::<u32>::empty(),
            r.seq() == Seq::<u32>::empty(),
    {
        let r = IndexSet { items: Vec::new() };
        proof {
            assert(r@ =~= Set::<u32>::empty());
        }
        r
    }

    /// The number of indices in the set.
    pub fn len(&self) -> (r: usize)
        ensures
            r == self@.len(),
            r == self.seq().len(),
    {
        proof {
            use_type_invariant(&*self);
            self.items@.unique_seq_to_set();
        }
        self.items.len()
    }

    /// Whether the set is empty.
    pub fn is_empty(&self) -> (r: bool)
        ensures
            r == (self@ =~= Set::<u32>::empty()),
    {
        proof {
            use_type_invariant(&*self);
            self.items@.unique_seq_to_set();
            if self.items@.len() > 0 {
                assert(self@.contains(self.items@[0]));
            }
        }
        self.items.len() == 0
    }

    /// Whether `x` is in the set.
    pub fn contains(&self, x: u32) -> (r: bool)
        ensures
            r == self@.contains(x),
    {
        let mut i: usize = 0;
        let n = self.items.len();
        while i < n
            invariant
                0 <= i <= n == self.items@.len(),
                forall|k: int| 0 <= k < i ==> self.items@[k] != x,
            decreases n - i,
        {
            if self.items[i] == x {
                return true;
            }
            i = i + 1;
        }
        false
    }

    /// The position of the first element that is not below `x`.
    fn lower_bound(&self, x: u32) -> (p: usize)
        ensures
            p <= self.items@.len(),
            forall|k: int| 0 <= k < p ==> self.items@[k] < x,
            p < self.items@.len() ==> self.items@[p as int] >= x,
    {
        let mut p: usize = 0;
        let n = self.items.len();
        while p < n
            invariant
                0 <= p <= n == self.items@.len(),
                forall|k: int| 0 <= k < p ==> self.items@[k] < x,
            decreases n - p,
        {
            if self.items[p] >= x {
                return p;
            }
            p = p + 1;
        }
        p
    }

    /// Adds `x`; reports whether it was newly added.
    pub fn insert(&mut self, x: u32) -> (r: bool)
        ensures
            final(self)@ == old(self)@.insert(x),
            r == !old(self)@.contains(x),
    {
        proof {
            use_type_invariant(&*self);
        }
        let ghost s0 = self.items@;
        let p = self.lower_bound(x);
        if p < self.items.len() && self.items[p] == x {
            proof {
                assert(s0.contains(x));
                assert(self@.insert(x) =~= self@);
            }
            return false;
        }
        proof {
            assert forall|k: int| p <= k < s0.len() implies s0[k] > x by {
                if k > p {
                    assert(s0[p as int] < s0[k]);
                }
            }
            assert(!s0.contains(x));
        }
        let mut items: Vec<u32> = Vec::new();
        std::mem::swap(&mut self.items, &mut items);
        items.insert(p, x);
        proof {
            s0.insert_ensures(p as int, x);
            let s1 = items@;
            assert forall|i: int, j: int| 0 <= i < j < s1.len() implies s1[i] < s1[j] by {
                if j < p {
                } else if i < p && j == p {
                } else if i == p {
                    assert(s1[j] == s0[j - 1]);
                } else if i > p {
                    assert(s1[i] == s0[i - 1] && s1[j] == s0[j - 1]);
                } else {
                    assert(s1[j] == s0[j - 1]);
                    assert(s0[i] <= s0[j - 1]);
                }
            }
            assert(strictly_increasing(s1));
            assert forall|a: u32| s1.contains(a) implies (s0.contains(a) || a == x) by {
                let i = choose|i: int| 0 <= i < s1.len() && s1[i] == a;
                if i < p {
                    assert(s0[i] == a);
                } else if i > p {
                    assert(s0[i - 1] == a);
                }
            }
            assert forall|a: u32| s0.contains(a) implies s1.contains(a) by {
                let i = choose|i: int| 0 <= i < s0.len() && s0[i] == a;
                if i < p {
                    assert(s1[i] == a);
                } else {
                    assert(s1[i + 1] == a);
                }
            }
            assert(s1.contains(x));
            assert(s1.to_set() =~= s0.to_set().insert(x));
        }
        self.items = items;
        true
    }

    /// Removes `x`; reports whether it was present.
    pub fn remove(&mut self, x: u32) -> (r: bool)
        ensures
            final(self)@ == old(self)@.remove(x),
            r == old(self)@.contains(x),
    {
        proof {
            use_type_invariant(&*self);
        }
        let ghost s0 = self.items@;
        let p = self.lower_bound(x);
        if p == self.items.len() || self.items[p] != x {
            proof {
                assert forall|k: int| 0 <= k < s0.len() implies s0[k] != x by {
                    if k >= p {
                        if k > p {
                            assert(s0[p as int] < s0[k]);
                        }
                    }
                }
                assert(!s0.contains(x));
                assert(self@.remove(x) =~= self@);
            }
            return false;
        }
        let mut items: Vec<u32> = Vec::new();
        std::mem::swap(&mut self.items, &mut items);
        items.remove(p);
        proof {
            let s1 = items@;
            assert(s1 =~= s0.subrange(0, p as int) + s0.subrange(p + 1, s0.len() as int));
            assert forall|i: int, j: int| 0 <= i < j < s1.len() implies s1[i] < s1[j] by {
                if i >= p {
                    assert(s1[i] == s0[i + 1] && s1[j] == s0[j + 1]);
                } else if j >= p {
                    assert(s1[j] == s0[j + 1]);
                }
            }
            assert forall|a: u32| s1.contains(a) implies (s0.contains(a) && a != x) by {
                let i = choose|i: int| 0 <= i < s1.len() && s1[i] == a;
                if i < p {
                    assert(s0[i] == a);
                    assert(s0[i] < s0[p as int]);
                } else {
                    assert(s0[i + 1] == a);
                    assert(s0[p as int] < s0[i + 1]);
                }
            }
            assert forall|a: u32| s0.contains(a) && a != x implies s1.contains(a) by {
                let i = choose|i: int| 0 <= i < s0.len() && s0[i] == a;
                if i < p {
                    assert(s1[i] == a);
                } else if i > p {
                    assert(s1[i - 1] == a);
                }
            }
            assert(s0.contains(x));
            assert(s1.to_set() =~= s0.to_set().remove(x));
        }
        self.items = items;
        true
    }

    /// The indices in increasing order.
    pub fn to_vec(&self) -> (r: Vec<u32>)
        ensures
            r@ == self.seq(),
            strictly_increasing(r@),
            r@.to_set() == self@,
    {
        proof {
            use_type_invariant(&*self);
        }
        let mut r: Vec<u32> = Vec::new();
        let mut i: usize = 0;
        let n = self.items.len();
        while i < n
            invariant
                0 <= i <= n == self.items@.len(),
                r@ == self.items@.subrange(0, i as int),
            decreases n - i,
        {
            r.push(self.items[i]);
            proof {
                assert(r@ =~= self.items@.subrange(0, i + 1));
            }
            i = i + 1;
        }
        proof {
            assert(r@ =~= self.items@);
        }
        r
    }
}

impl Clone for IndexSet {
    /// A clone carries the same indices.
    fn clone(&self) -> (r: Self)
        ensures
            r@ == self@,
            r.seq() == self.seq(),
    {
        proof {
            use_type_invariant(&*self);
        }
        let items = self.to_vec();
        IndexSet { items }
    }
}

} // verus!
