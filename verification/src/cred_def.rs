//! Credential definitions and their co-located private material.
//!
//! A definition owns a private key and a correctness proof under the same
//! id; the three are created and replaced together. A staged
//! (temporary) bundle with the same id exists only between the start and the
//! apply of a key rotation.

use vstd::prelude::*;
use crate::ids::{CredentialDefinitionId, SchemaId};

verus! {

/// The signature scheme of a credential definition.
#[allow(non_camel_case_types)]
#[derive(Clone, Copy, PartialEq, Eq, Structural, Debug)]
pub enum SignatureType {
    CL,
}

impl SignatureType {
    /// The type string used inside ids.
    pub fn to_str(&self) -> (r: &'static str)
        ensures
            r@ == "CL"@,
    {
        "CL"
    }
}

/// Options of credential definition creation.
#[derive(Clone, Copy, PartialEq, Eq, Structural, Debug)]
pub struct CredentialDefinitionConfig {
    pub support_revocation: bool,
}

impl Default for CredentialDefinitionConfig {
    /// By default a definition does not support revocation.
    fn default() -> (r: Self)
        ensures
            !r.support_revocation,
    {
        CredentialDefinitionConfig { support_revocation: false }
    }
}

/// The public value of a definition: the primary signing key material, and
/// the revocation key material exactly when revocation is supported. Both
/// are opaque payloads of the cryptographic primitive.
#[derive(Debug)]
pub struct CredentialDefinitionData {
    pub primary: String,
    pub revocation: Option<String>,
}

/// The one active credential definition shape.
#[derive(Debug)]
pub struct CredentialDefinitionV1 {
    pub id: CredentialDefinitionId,
    pub schema_id: SchemaId,
    pub signature_type: SignatureType,
    pub tag: String,
    pub value: CredentialDefinitionData,
}

/// A versioned credential definition record.
#[derive(Debug)]
pub enum CredentialDefinition {
    CredentialDefinitionV1(CredentialDefinitionV1),
}

/// The private key co-located with a definition; an opaque payload.
#[derive(Debug)]
pub struct CredentialDefinitionPrivateKey {
    pub value: String,
}

/// The key correctness proof co-located with a definition; an opaque
/// payload.
#[derive(Debug)]
pub struct CredentialDefinitionCorrectnessProof {
    pub value: String,
}

/// The staged bundle of a two-phase key rotation: candidate definition,
/// private key and correctness proof, kept under the live definition's id
/// between rotate-start and rotate-apply.
#[derive(Debug)]
pub struct TemporaryCredentialDefinition {
    pub cred_def: CredentialDefinition,
    pub cred_def_priv_key: CredentialDefinitionPrivateKey,
    pub cred_def_correctness_proof: CredentialDefinitionCorrectnessProof,
}

impl Clone for CredentialDefinitionData {
    /// A clone carries the same payloads.
    fn clone(&self) -> (r: Self)
        ensures
            r == *self,
    {
        let revocation = match &self.revocation {
            Some(s) => Some(s.clone()),
            None => None,
        };
        CredentialDefinitionData { primary: self.primary.clone(), revocation }
    }
}

impl Clone for CredentialDefinitionV1 {
    /// A clone carries the same fields.
    fn clone(&self) -> (r: Self)
        ensures
            r == *self,
    {
        CredentialDefinitionV1 {
            id: self.id.clone(),
            schema_id: self.schema_id.clone(),
            signature_type: self.signature_type,
            tag: self.tag.clone(),
            value: self.value.clone(),
        }
    }
}

impl Clone for CredentialDefinitionPrivateKey {
    /// A clone carries the same payload.
    fn clone(&self) -> (r: Self)
        ensures
            r == *self,
    {
        CredentialDefinitionPrivateKey { value: self.value.clone() }
    }
}

impl Clone for CredentialDefinitionCorrectnessProof {
    /// A clone carries the same payload.
    fn clone(&self) -> (r: Self)
        ensures
            r == *self,
    {
        CredentialDefinitionCorrectnessProof { value: self.value.clone() }
    }
}

} // verus!
