//! Error taxonomy of the issuance core.
//!
//! Structural and validation failures are raised before any mutation is
//! attempted; every error carries the offending id and/or index so a caller
//! can diagnose it.

use vstd::prelude::*;

verus! {

/// The failure classes of the issuance core.
#[derive(Clone, Copy, PartialEq, Eq, Structural, Debug)]
pub enum ErrorKind {
    /// The registry's capacity is exhausted: no index is left to allocate.
    RegistryFull,
    /// A revocation index was unparsable, out of range, or inconsistent
    /// with the registry's issuance policy.
    InvalidUserRevocId,
    /// A malformed configuration, type string, or missing required handle.
    InvalidStructure,
    /// A record (or a staged rotation) was not found under the given id.
    NotFound,
    /// The cryptographic primitive failed while issuing.
    IssuanceFailed,
    /// An opaque cryptographic payload could not be decoded.
    SerializationFailed,
    /// The stored records contradict each other.
    InvalidState,
}

/// An error of the issuance core, carrying the offending id and/or index.
#[derive(Debug)]
pub struct IssuerError {
    pub kind: ErrorKind,
    pub id: Option<String>,
    pub index: Option<u32>,
}

impl IssuerError {
    /// An error with no offending id or index attached.
    pub fn new(kind: ErrorKind) -> (r: IssuerError)
        ensures
            r.kind == kind,
            r.id is None,
            r.index is None,
    {
        IssuerError { kind, id: None, index: None }
    }

    /// An error blamed on the record id it concerns.
    pub fn for_id(kind: ErrorKind, id: &str) -> (r: IssuerError)
        ensures
            r.kind == kind,
            r.id matches Some(s) && s@ == id@,
            r.index is None,
    {
        IssuerError { kind, id: Some(id.to_owned()), index: None }
    }

    /// An error blamed on the revocation index it concerns.
    pub fn for_index(kind: ErrorKind, index: u32) -> (r: IssuerError)
        ensures
            r.kind == kind,
            r.id is None,
            r.index == Some(index),
    {
        IssuerError { kind, id: None, index: Some(index) }
    }

    /// The failure class of this error.
    pub fn kind(&self) -> (k: ErrorKind)
        ensures
            k == self.kind,
    {
        self.kind
    }
}

} // verus!
