//! Revocation registries: definitions, accumulator state and bookkeeping.
//!
//! A registry is capacity-bounded: indices run from 1 to `max_cred_num`.
//! `RevocationRegistryInfo` keeps the high-water mark of allocated indices
//! and the per-policy used-index set; registry and info are mutated together
//! on every issuance and revocation.

use vstd::prelude::*;
use crate::errors::{ErrorKind, IssuerError};
use crate::ids::{CredentialDefinitionId, RevocationRegistryId};
use crate::index_set::IndexSet;

verus! {

/// The issuance policy of a registry.
///
/// Under `ISSUANCE_ON_DEMAND` the used-index set holds the indices that have
/// been issued; under `ISSUANCE_BY_DEFAULT` every index is a member from the
/// start and the set holds the indices that have been revoked.
#[allow(non_camel_case_types)]
#[derive(Clone, Copy, PartialEq, Eq, Structural, Debug)]
pub enum IssuanceType {
    ISSUANCE_ON_DEMAND,
    ISSUANCE_BY_DEFAULT,
}

impl IssuanceType {
    /// Whether issuance is by default, as the primitive expects it.
    pub fn to_bool(&self) -> (r: bool)
        ensures
            r == (*self == IssuanceType::ISSUANCE_BY_DEFAULT),
    {
        match self {
            IssuanceType::ISSUANCE_ON_DEMAND => false,
            IssuanceType::ISSUANCE_BY_DEFAULT => true,
        }
    }
}

/// The accumulator scheme of a registry.
#[allow(non_camel_case_types)]
#[derive(Clone, Copy, PartialEq, Eq, Structural, Debug)]
pub enum RegistryType {
    CL_ACCUM,
}

impl RegistryType {
    /// The type string used inside ids.
    pub fn to_str(&self) -> (r: &'static str)
        ensures
            r@ == "CL_ACCUM"@,
    {
        "CL_ACCUM"
    }
}

/// Options of registry creation.
#[derive(Clone, Copy, PartialEq, Eq, Structural, Debug)]
pub struct RevocationRegistryConfig {
    pub issuance_type: Option<IssuanceType>,
    pub max_cred_num: Option<u32>,
}

impl RevocationRegistryConfig {
    /// A configuration is valid unless it asks for a capacity of zero.
    pub fn validate(&self) -> (r: Result<(), IssuerError>)
        ensures
            r is Ok <==> self.max_cred_num != Some(0u32),
            r matches Err(e) ==> e.kind == ErrorKind::InvalidStructure,
    {
        if let Some(num) = self.max_cred_num {
            if num == 0 {
                return Err(IssuerError::new(ErrorKind::InvalidStructure));
            }
        }
        Ok(())
    }
}

/// The immutable value of a registry definition. The key material is an
/// opaque payload; the tails location and hash anchor the tails blob.
#[derive(Debug)]
pub struct RevocationRegistryDefinitionValue {
    pub issuance_type: IssuanceType,
    pub max_cred_num: u32,
    pub public_keys: String,
    pub tails_hash: String,
    pub tails_location: String,
}

/// The one active registry definition shape.
#[derive(Debug)]
pub struct RevocationRegistryDefinitionV1 {
    pub id: RevocationRegistryId,
    pub revoc_def_type: RegistryType,
    pub tag: String,
    pub cred_def_id: CredentialDefinitionId,
    pub value: RevocationRegistryDefinitionValue,
}

/// A versioned registry definition record.
#[derive(Debug)]
pub enum RevocationRegistryDefinition {
    RevocationRegistryDefinitionV1(RevocationRegistryDefinitionV1),
}

/// The one active registry shape: the current accumulator value, an opaque
/// payload.
#[derive(Debug)]
pub struct RevocationRegistryV1 {
    pub value: String,
}

/// A versioned registry record.
#[derive(Debug)]
pub enum RevocationRegistry {
    RevocationRegistryV1(RevocationRegistryV1),
}

/// The private accumulator key co-located with a registry definition: the
/// key itself as an opaque payload, together with the pristine tails
/// generator and the capacity it was built for, so the primitive's tails
/// accessor can be rebuilt for later issuance and revocation. A value of
/// this type always carries a generator whose yield matches its capacity.
pub struct RevocationRegistryDefinitionPrivate {
    value: String,
    tails_generator: ursa::cl::RevocationTailsGenerator,
    capacity: u32,
}

impl RevocationRegistryDefinitionPrivate {
    #[verifier::type_invariant]
    closed spec fn inv(self) -> bool {
        crate::primitives::tails_entries(self.tails_generator).len() == 2 * (
        self.capacity as int) + 1 && self.capacity >= 1
    }

    /// The private key payload.
    pub closed spec fn key_view(self) -> Seq<char> {
        self.value@
    }

    /// The stored generator.
    pub closed spec fn generator_view(self) -> ursa::cl::RevocationTailsGenerator {
        self.tails_generator
    }

    /// The capacity the generator was built for.
    pub closed spec fn capacity_view(self) -> u32 {
        self.capacity
    }

    /// Bundles the key payload with a pristine generator of the given
    /// capacity.
    pub(crate) fn bundle(
        value: String,
        tails_generator: ursa::cl::RevocationTailsGenerator,
        capacity: u32,
    ) -> (r: Self)
        requires
            crate::primitives::tails_entries(tails_generator).len() == 2 * (capacity as int) + 1,
            capacity >= 1,
        ensures
            r.key_view() == value@,
            r.generator_view() == tails_generator,
            r.capacity_view() == capacity,
    {
        RevocationRegistryDefinitionPrivate { value, tails_generator, capacity }
    }

    /// The private key payload.
    pub fn key(&self) -> (r: &String)
        ensures
            r@ == self.key_view(),
    {
        &self.value
    }

    /// The stored generator; its yield is always the full entry sequence
    /// of this bundle's capacity.
    pub fn generator(&self) -> (r: &ursa::cl::RevocationTailsGenerator)
        ensures
            *r == self.generator_view(),
            crate::primitives::tails_entries(*r).len() == 2 * (self.capacity_view() as int) + 1,
            self.capacity_view() >= 1,
    {
        proof {
            use_type_invariant(&*self);
        }
        &self.tails_generator
    }

    /// The capacity the generator was built for; never zero.
    pub fn capacity(&self) -> (r: u32)
        ensures
            r == self.capacity_view(),
            r >= 1,
    {
        proof {
            use_type_invariant(&*self);
        }
        self.capacity
    }
}

/// The bookkeeping co-located with a registry: the monotonic high-water
/// mark of allocated indices and the per-policy used-index set.
#[derive(Debug)]
pub struct RevocationRegistryInfo {
    pub id: RevocationRegistryId,
    pub curr_id: u32,
    pub used_ids: IndexSet,
}

/// What allocation yields on a registry whose high-water mark is `curr`
/// and whose capacity is `max`: the next index, or nothing when the
/// capacity is exhausted.
pub open spec fn alloc_spec(curr: u32, max: u32) -> Option<u32> {
    if curr < max {
        Some((curr + 1) as u32)
    } else {
        None
    }
}

/// Issuance fills the capacity with distinct, strictly increasing indices:
/// against a registry of capacity `max`, the `i`-th allocation (made with
/// the high-water mark at `i - 1`) yields exactly index `i` for every
/// `i` up to `max`; the allocation after the capacity is exhausted yields
/// nothing; and every allocated index exceeds every index allocated
/// before, so no index is ever allocated twice.
pub proof fn lemma_issuance_fills_capacity(max: u32, i: u32)
    requires
        1 <= i <= max,
    ensures
        alloc_spec((i - 1) as u32, max) == Some(i),
        alloc_spec(max, max) is None,
        forall|c: u32| #[trigger] alloc_spec(c, max) matches Some(j) ==> j > c,
{
}

/// Revocation never frees capacity: allocation is decided by the
/// high-water mark alone, which revocation leaves untouched, so a full
/// registry stays full whatever is revoked.
pub proof fn lemma_revocation_frees_no_capacity(curr: u32, max: u32)
    requires
        curr >= max,
    ensures
        alloc_spec(curr, max) is None,
{
}

impl RevocationRegistryInfo {
    /// Allocates the next index: advances the high-water mark and returns
    /// it, or fails `RegistryFull` when the capacity is exhausted.
    /// Allocation never decreases `curr_id` and never touches `used_ids`.
    pub fn allocate_next(&mut self, max_cred_num: u32) -> (r: Result<u32, IssuerError>)
        ensures
            final(self).id.0@ == old(self).id.0@,
            final(self).used_ids == old(self).used_ids,
            match r {
                Ok(idx) => alloc_spec(old(self).curr_id, max_cred_num) == Some(idx) && final(self).curr_id == idx && idx == old(self).curr_id + 1,
                Err(e) => alloc_spec(old(self).curr_id, max_cred_num) is None && e.kind
                    == ErrorKind::RegistryFull && final(self).curr_id == old(self).curr_id,
            },
    {
        if self.curr_id >= max_cred_num {
            return Err(IssuerError::for_id(ErrorKind::RegistryFull, self.id.0.as_str()));
        }
        self.curr_id = self.curr_id + 1;
        Ok(self.curr_id)
    }

    /// Applies the issuance-side policy toggle for a freshly allocated
    /// index: under `ISSUANCE_ON_DEMAND` the index joins `used_ids`; under
    /// `ISSUANCE_BY_DEFAULT` nothing changes, the index already being a
    /// member by default.
    pub fn apply_issuance(&mut self, issuance_type: IssuanceType, idx: u32)
        ensures
            final(self).id.0@ == old(self).id.0@,
            final(self).curr_id == old(self).curr_id,
            final(self).used_ids@ == if issuance_type == IssuanceType::ISSUANCE_ON_DEMAND {
                old(self).used_ids@.insert(idx)
            } else {
                old(self).used_ids@
            },
    {
        match issuance_type {
            IssuanceType::ISSUANCE_ON_DEMAND => {
                self.used_ids.insert(idx);
            },
            IssuanceType::ISSUANCE_BY_DEFAULT => {},
        }
    }

    /// Applies the revocation-side policy toggle: under
    /// `ISSUANCE_ON_DEMAND` the index must be in `used_ids` and leaves it;
    /// under `ISSUANCE_BY_DEFAULT` it must not be there yet and joins it.
    /// A policy-inconsistent index fails `InvalidUserRevocId` and changes
    /// nothing. Revocation never changes `curr_id`.
    pub fn apply_revocation(&mut self, issuance_type: IssuanceType, idx: u32) -> (r: Result<
        (),
        IssuerError,
    >)
        ensures
            final(self).id.0@ == old(self).id.0@,
            final(self).curr_id == old(self).curr_id,
            match r {
                Ok(()) => {
                    &&& issuance_type == IssuanceType::ISSUANCE_ON_DEMAND ==> old(
                        self,
                    ).used_ids@.contains(idx) && final(self).used_ids@ == old(
                        self,
                    ).used_ids@.remove(idx)
                    &&& issuance_type == IssuanceType::ISSUANCE_BY_DEFAULT ==> !old(
                        self,
                    ).used_ids@.contains(idx) && final(self).used_ids@ == old(
                        self,
                    ).used_ids@.insert(idx)
                },
                Err(e) => {
                    &&& e.kind == ErrorKind::InvalidUserRevocId
                    &&& final(self).used_ids@ == old(self).used_ids@
                    &&& issuance_type == IssuanceType::ISSUANCE_ON_DEMAND ==> !old(
                        self,
                    ).used_ids@.contains(idx)
                    &&& issuance_type == IssuanceType::ISSUANCE_BY_DEFAULT ==> old(
                        self,
                    ).used_ids@.contains(idx)
                },
            },
    {
        match issuance_type {
            IssuanceType::ISSUANCE_ON_DEMAND => {
                if !self.used_ids.remove(idx) {
                    proof {
                        assert(self.used_ids@ =~= old(self).used_ids@);
                    }
                    return Err(IssuerError::for_index(ErrorKind::InvalidUserRevocId, idx));
                }
                Ok(())
            },
            IssuanceType::ISSUANCE_BY_DEFAULT => {
                if !self.used_ids.insert(idx) {
                    proof {
                        assert(self.used_ids@ =~= old(self).used_ids@);
                    }
                    return Err(IssuerError::for_index(ErrorKind::InvalidUserRevocId, idx));
                }
                Ok(())
            },
        }
    }
}

impl Clone for RevocationRegistryDefinitionValue {
    /// A clone carries the same fields.
    fn clone(&self) -> (r: Self)
        ensures
            r == *self,
    {
        RevocationRegistryDefinitionValue {
            issuance_type: self.issuance_type,
            max_cred_num: self.max_cred_num,
            public_keys: self.public_keys.clone(),
            tails_hash: self.tails_hash.clone(),
            tails_location: self.tails_location.clone(),
        }
    }
}

impl Clone for RevocationRegistryDefinitionV1 {
    /// A clone carries the same fields.
    fn clone(&self) -> (r: Self)
        ensures
            r == *self,
    {
        RevocationRegistryDefinitionV1 {
            id: self.id.clone(),
            revoc_def_type: self.revoc_def_type,
            tag: self.tag.clone(),
            cred_def_id: self.cred_def_id.clone(),
            value: self.value.clone(),
        }
    }
}

impl Clone for RevocationRegistryV1 {
    /// A clone carries the same accumulator payload.
    fn clone(&self) -> (r: Self)
        ensures
            r == *self,
    {
        RevocationRegistryV1 { value: self.value.clone() }
    }
}

impl Clone for RevocationRegistryInfo {
    /// A clone carries the same id, high-water mark and used-index set.
    fn clone(&self) -> (r: Self)
        ensures
            r.id == self.id,
            r.curr_id == self.curr_id,
            r.used_ids@ == self.used_ids@,
            r.used_ids.seq() == self.used_ids.seq(),
    {
        RevocationRegistryInfo {
            id: self.id.clone(),
            curr_id: self.curr_id,
            used_ids: self.used_ids.clone(),
        }
    }
}


/// Unwraps a map of versioned registry definitions into their one active
/// shape.
pub fn rev_reg_defs_map_to_rev_reg_defs_v1_map(
    rev_reg_defs: &Vec<(RevocationRegistryId, RevocationRegistryDefinition)>,
) -> (r: Vec<(RevocationRegistryId, RevocationRegistryDefinitionV1)>)
    ensures
        r@.len() == rev_reg_defs@.len(),
        forall|i: int|
            0 <= i < rev_reg_defs@.len() ==> (#[trigger] r@[i]).0 == rev_reg_defs@[i].0 && (
            rev_reg_defs@[i].1 matches RevocationRegistryDefinition::RevocationRegistryDefinitionV1(
                d,
            ) ==> r@[i].1 == d),
{
    let mut r: Vec<(RevocationRegistryId, RevocationRegistryDefinitionV1)> = Vec::new();
    let n = rev_reg_defs.len();
    let mut i: usize = 0;
    while i < n
        invariant
            0 <= i <= n == rev_reg_defs@.len(),
            r@.len() == i,
            forall|k: int|
                0 <= k < i ==> (#[trigger] r@[k]).0 == rev_reg_defs@[k].0 && (
                rev_reg_defs@[k].1 matches RevocationRegistryDefinition::RevocationRegistryDefinitionV1(
                    d,
                ) ==> r@[k].1 == d),
        decreases n - i,
    {
        let id = rev_reg_defs[i].0.clone();
        match &rev_reg_defs[i].1 {
            RevocationRegistryDefinition::RevocationRegistryDefinitionV1(d) => {
                r.push((id, d.clone()));
            },
        }
        i = i + 1;
    }
    r
}

} // verus!
