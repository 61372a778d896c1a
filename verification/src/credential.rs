//! Credential offers, requests and credentials.
//!
//! The cryptographic payloads inside them are opaque: the library carries
//! them between the store and the primitive without reading them.

use vstd::prelude::*;
use crate::ids::{CredentialDefinitionId, DidValue, RevocationRegistryId, SchemaId};

verus! {

/// One attribute's raw value and its numeric encoding.
#[derive(Debug)]
pub struct AttributeValues {
    pub raw: String,
    pub encoded: String,
}

/// The attribute values of a credential, by attribute name.
#[derive(Debug)]
pub struct CredentialAttrValues(pub Vec<(String, AttributeValues)>);

/// An offer an issuer hands to a holder: the definition to be used, its key
/// correctness proof, and a fresh nonce.
#[derive(Debug)]
pub struct CredentialOffer {
    pub schema_id: SchemaId,
    pub cred_def_id: CredentialDefinitionId,
    pub key_correctness_proof: String,
    pub nonce: String,
    pub method_name: Option<String>,
}

/// A holder's request against an offer: blinded secrets, their correctness
/// proof, and the holder's nonce.
#[derive(Debug)]
pub struct CredentialRequest {
    pub prover_did: DidValue,
    pub cred_def_id: CredentialDefinitionId,
    pub blinded_ms: String,
    pub blinded_ms_correctness_proof: String,
    pub nonce: String,
}

/// An issued credential: the values, the signature material, and, when
/// bound to a registry, the registry snapshot and the holder's witness.
#[derive(Debug)]
pub struct Credential {
    pub schema_id: SchemaId,
    pub cred_def_id: CredentialDefinitionId,
    pub rev_reg_id: Option<RevocationRegistryId>,
    pub values: CredentialAttrValues,
    pub signature: String,
    pub signature_correctness_proof: String,
    pub rev_reg: Option<String>,
    pub witness: Option<String>,
}

impl CredentialAttrValues {
    /// The `(attribute, encoded value)` pairs handed to the signing
    /// primitive.
    pub fn encoded_pairs(&self) -> (r: Vec<(String, String)>)
        ensures
            r@.len() == self.0@.len(),
            forall|i: int|
                0 <= i < self.0@.len() ==> (#[trigger] r@[i]).0@ == self.0@[i].0@ && r@[i].1@
                    == self.0@[i].1.encoded@,
    {
        let mut r: Vec<(String, String)> = Vec::new();
        let n = self.0.len();
        let mut i: usize = 0;
        while i < n
            invariant
                0 <= i <= n == self.0@.len(),
                r@.len() == i,
                forall|k: int|
                    0 <= k < i ==> (#[trigger] r@[k]).0@ == self.0@[k].0@ && r@[k].1@
                        == self.0@[k].1.encoded@,
            decreases n - i,
        {
            r.push((self.0[i].0.clone(), self.0[i].1.encoded.clone()));
            i = i + 1;
        }
        r
    }
}

impl Clone for AttributeValues {
    /// A clone carries the same raw and encoded values.
    fn clone(&self) -> (r: Self)
        ensures
            r == *self,
    {
        AttributeValues { raw: self.raw.clone(), encoded: self.encoded.clone() }
    }
}

impl Clone for CredentialAttrValues {
    /// A clone carries the same attributes and values.
    fn clone(&self) -> (r: Self)
        ensures
            r.0@.len() == self.0@.len(),
            forall|i: int| 0 <= i < self.0@.len() ==> #[trigger] r.0@[i] == self.0@[i],
    {
        let mut v: Vec<(String, AttributeValues)> = Vec::new();
        let n = self.0.len();
        let mut i: usize = 0;
        while i < n
            invariant
                0 <= i <= n == self.0@.len(),
                v@.len() == i,
                forall|k: int| 0 <= k < i ==> #[trigger] v@[k] == self.0@[k],
            decreases n - i,
        {
            v.push((self.0[i].0.clone(), self.0[i].1.clone()));
            i = i + 1;
        }
        CredentialAttrValues(v)
    }
}

} // verus!
