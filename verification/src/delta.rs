//! Revocation registry deltas and their merge.
//!
//! A delta carries the accumulator value before and after a change and the
//! sets of indices issued and revoked by it. Merging applies a later
//! delta's changes after an earlier one's; the set algebra mirrors the
//! cryptographic primitive's merge exactly and is verified against it.

use vstd::prelude::*;
use crate::errors::{ErrorKind, IssuerError};
use crate::index_set::IndexSet;

verus! {

/// The value of a delta: accumulator values and issued/revoked index sets.
#[derive(Debug)]
pub struct RevocationRegistryDeltaValue {
    pub prev_accum: Option<String>,
    pub accum: String,
    pub issued: IndexSet,
    pub revoked: IndexSet,
}

/// The one active delta shape.
#[derive(Debug)]
pub struct RevocationRegistryDeltaV1 {
    pub value: RevocationRegistryDeltaValue,
}

/// A versioned delta record.
#[derive(Debug)]
pub enum RevocationRegistryDelta {
    RevocationRegistryDeltaV1(RevocationRegistryDeltaV1),
}

/// The issued set after merging `(ai, ar)` with a later delta's `(bi, br)`:
/// the later issuance joins unless it was already suppressed, and the later
/// revocation wins last.
pub open spec fn merged_issued(ai: Set<u32>, ar: Set<u32>, bi: Set<u32>, br: Set<u32>) -> Set<
    u32,
> {
    ai.union(bi.difference(ar)).difference(br)
}

/// The revoked set after merging `(ai, ar)` with a later delta's
/// `(bi, br)`.
pub open spec fn merged_revoked(ai: Set<u32>, ar: Set<u32>, bi: Set<u32>, br: Set<u32>) -> Set<
    u32,
> {
    ar.union(br.difference(ai.union(bi.difference(ar)))).difference(bi)
}

impl RevocationRegistryDeltaValue {
    /// Extends `self.issued` with the elements of `src` that are not in
    /// `self.revoked`.
    fn extend_issued_minus_revoked(&mut self, src: &IndexSet)
        ensures
            final(self).issued@ == old(self).issued@.union(src@.difference(old(self).revoked@)),
            final(self).revoked == old(self).revoked,
            final(self).prev_accum == old(self).prev_accum,
            final(self).accum == old(self).accum,
    {
        let v = src.to_vec();
        let ghost i0 = self.issued@;
        let ghost r0 = self.revoked@;
        let n = v.len();
        let mut k: usize = 0;
        while k < n
            invariant
                0 <= k <= n == v@.len(),
                v@.to_set() == src@,
                self.revoked == old(self).revoked,
                self.prev_accum == old(self).prev_accum,
                self.accum == old(self).accum,
                self.revoked@ == r0,
                self.issued@ == i0.union(v@.subrange(0, k as int).to_set().difference(r0)),
            decreases n - k,
        {
            let x = v[k];
            if !self.revoked.contains(x) {
                self.issued.insert(x);
            }
            proof {
                broadcast use vstd::seq_lib::lemma_seq_contains_after_push;

                let pre = v@.subrange(0, k as int);
                let post = v@.subrange(0, k + 1);
                assert(post =~= pre.push(v@[k as int]));
                assert(post.to_set() =~= pre.to_set().insert(v@[k as int]));
                if !r0.contains(x) {
                    assert(self.issued@ =~= i0.union(post.to_set().difference(r0)));
                } else {
                    assert(self.issued@ =~= i0.union(post.to_set().difference(r0)));
                }
            }
            k = k + 1;
        }
        proof {
            assert(v@.subrange(0, n as int) =~= v@);
        }
    }

    /// Extends `self.revoked` with the elements of `src` that are not in
    /// `self.issued`.
    fn extend_revoked_minus_issued(&mut self, src: &IndexSet)
        ensures
            final(self).revoked@ == old(self).revoked@.union(src@.difference(old(self).issued@)),
            final(self).issued == old(self).issued,
            final(self).prev_accum == old(self).prev_accum,
            final(self).accum == old(self).accum,
    {
        let v = src.to_vec();
        let ghost i0 = self.issued@;
        let ghost r0 = self.revoked@;
        let n = v.len();
        let mut k: usize = 0;
        while k < n
            invariant
                0 <= k <= n == v@.len(),
                v@.to_set() == src@,
                self.issued == old(self).issued,
                self.prev_accum == old(self).prev_accum,
                self.accum == old(self).accum,
                self.issued@ == i0,
                self.revoked@ == r0.union(v@.subrange(0, k as int).to_set().difference(i0)),
            decreases n - k,
        {
            let x = v[k];
            if !self.issued.contains(x) {
                self.revoked.insert(x);
            }
            proof {
                broadcast use vstd::seq_lib::lemma_seq_contains_after_push;

                let pre = v@.subrange(0, k as int);
                let post = v@.subrange(0, k + 1);
                assert(post =~= pre.push(v@[k as int]));
                assert(post.to_set() =~= pre.to_set().insert(v@[k as int]));
                assert(self.revoked@ =~= r0.union(post.to_set().difference(i0)));
            }
            k = k + 1;
        }
        proof {
            assert(v@.subrange(0, n as int) =~= v@);
        }
    }

    /// Removes every element of `src` from `dst`.
    fn remove_all(dst: &mut IndexSet, src: &IndexSet)
        ensures
            final(dst)@ == old(dst)@.difference(src@),
    {
        let v = src.to_vec();
        let ghost d0 = old(dst)@;
        let n = v.len();
        let mut k: usize = 0;
        while k < n
            invariant
                0 <= k <= n == v@.len(),
                v@.to_set() == src@,
                dst@ == d0.difference(v@.subrange(0, k as int).to_set()),
            decreases n - k,
        {
            let x = v[k];
            dst.remove(x);
            proof {
                broadcast use vstd::seq_lib::lemma_seq_contains_after_push;

                let pre = v@.subrange(0, k as int);
                let post = v@.subrange(0, k + 1);
                assert(post =~= pre.push(v@[k as int]));
                assert(post.to_set() =~= pre.to_set().insert(v@[k as int]));
                assert(dst@ =~= d0.difference(post.to_set()));
            }
            k = k + 1;
        }
        proof {
            assert(v@.subrange(0, n as int) =~= v@);
        }
    }

    /// Merges a later delta into this one, so the result reflects applying
    /// `other`'s changes after `self`'s. The deltas must be adjacent:
    /// `other` must start from this delta's accumulator, else nothing
    /// changes and the merge fails.
    pub fn merge(&mut self, other: &RevocationRegistryDeltaValue) -> (r: Result<(), IssuerError>)
        ensures
            match r {
                Ok(()) => {
                    &&& other.prev_accum matches Some(p) && p@ == old(self).accum@
                    &&& final(self).accum@ == other.accum@
                    &&& final(self).prev_accum == old(self).prev_accum
                    &&& final(self).issued@ == merged_issued(
                        old(self).issued@,
                        old(self).revoked@,
                        other.issued@,
                        other.revoked@,
                    )
                    &&& final(self).revoked@ == merged_revoked(
                        old(self).issued@,
                        old(self).revoked@,
                        other.issued@,
                        other.revoked@,
                    )
                },
                Err(e) => {
                    &&& !(other.prev_accum matches Some(p) && p@ == old(self).accum@)
                    &&& e.kind == ErrorKind::InvalidStructure
                    &&& *final(self) == *old(self)
                },
            },
    {
        let linked = match &other.prev_accum {
            Some(p) => crate::strutil::str_eq(p.as_str(), self.accum.as_str()),
            None => false,
        };
        if !linked {
            return Err(IssuerError::new(ErrorKind::InvalidStructure));
        }
        let ghost ai = self.issued@;
        let ghost ar = self.revoked@;
        let ghost bi = other.issued@;
        let ghost br = other.revoked@;
        self.accum = other.accum.clone();
        self.extend_issued_minus_revoked(&other.issued);
        let ghost i1 = self.issued@;
        proof {
            assert(i1 == ai.union(bi.difference(ar)));
        }
        self.extend_revoked_minus_issued(&other.revoked);
        let ghost r1 = self.revoked@;
        proof {
            assert(r1 == ar.union(br.difference(i1)));
        }
        Self::remove_all(&mut self.issued, &other.revoked);
        Self::remove_all(&mut self.revoked, &other.issued);
        proof {
            assert(self.issued@ == i1.difference(br));
            assert(self.revoked@ == r1.difference(bi));
            assert(self.issued@ == merged_issued(ai, ar, bi, br));
            assert(self.revoked@ == merged_revoked(ai, ar, bi, br));
        }
        Ok(())
    }
}

/// Merging the same later delta twice changes nothing beyond the first
/// merge: over the issued/revoked sets the merge is idempotent. This holds
/// whenever the later delta is mergeable twice (its accumulator step is a
/// stutter) and it does not resurrect indices the earlier delta settled:
/// what it issues may not have been revoked before (unless it revokes it
/// again), and what it revokes may not have been issued before (unless it
/// issues it again).
pub proof fn lemma_merge_idempotent(ai: Set<u32>, ar: Set<u32>, bi: Set<u32>, br: Set<u32>)
    requires
        bi.intersect(ar).subset_of(ai.union(br)),
        br.intersect(ai).subset_of(bi.union(ar)),
    ensures
        merged_issued(merged_issued(ai, ar, bi, br), merged_revoked(ai, ar, bi, br), bi, br)
            == merged_issued(ai, ar, bi, br),
        merged_revoked(merged_issued(ai, ar, bi, br), merged_revoked(ai, ar, bi, br), bi, br)
            == merged_revoked(ai, ar, bi, br),
{
    let mi = merged_issued(ai, ar, bi, br);
    let mr = merged_revoked(ai, ar, bi, br);
    assert forall|x: u32| merged_issued(mi, mr, bi, br).contains(x) == #[trigger] mi.contains(
        x,
    ) by {
        if bi.contains(x) && ar.contains(x) {
            assert(bi.intersect(ar).contains(x));
            assert(ai.union(br).contains(x));
        }
        if br.contains(x) && ai.contains(x) {
            assert(br.intersect(ai).contains(x));
            assert(bi.union(ar).contains(x));
        }
    }
    assert forall|x: u32| merged_revoked(mi, mr, bi, br).contains(x) == #[trigger] mr.contains(
        x,
    ) by {
        if bi.contains(x) && ar.contains(x) {
            assert(bi.intersect(ar).contains(x));
            assert(ai.union(br).contains(x));
        }
        if br.contains(x) && ai.contains(x) {
            assert(br.intersect(ai).contains(x));
            assert(bi.union(ar).contains(x));
        }
    }
    assert(merged_issued(mi, mr, bi, br) =~= mi);
    assert(merged_revoked(mi, mr, bi, br) =~= mr);
}

impl Clone for RevocationRegistryDeltaValue {
    /// A clone carries the same accumulator values and index sets.
    fn clone(&self) -> (r: Self)
        ensures
            r.prev_accum == self.prev_accum,
            r.accum == self.accum,
            r.issued@ == self.issued@,
            r.revoked@ == self.revoked@,
    {
        let prev_accum = match &self.prev_accum {
            Some(p) => Some(p.clone()),
            None => None,
        };
        RevocationRegistryDeltaValue {
            prev_accum,
            accum: self.accum.clone(),
            issued: self.issued.clone(),
            revoked: self.revoked.clone(),
        }
    }
}

impl Clone for RevocationRegistryDeltaV1 {
    /// A clone carries the same value.
    fn clone(&self) -> (r: Self)
        ensures
            r.value.prev_accum == self.value.prev_accum,
            r.value.accum == self.value.accum,
            r.value.issued@ == self.value.issued@,
            r.value.revoked@ == self.value.revoked@,
    {
        RevocationRegistryDeltaV1 { value: self.value.clone() }
    }
}

} // verus!
