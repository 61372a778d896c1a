//! Issuance core of an anonymous-credential issuer.
//!
//! The library maintains the lifecycle of a credential issuer's records:
//! credential definitions with a two-phase key rotation, capacity-bounded
//! revocation registries with two issuance policies, tails material with
//! integrity checking, credential issuance, revocation, and the merging of
//! revocation registry deltas. The cryptographic accumulator mathematics is
//! delegated to an external primitive behind narrow trusted interfaces; the
//! bookkeeping around it is verified.

pub mod cred_def;
pub mod credential;
pub mod delta;
pub mod errors;
pub mod ids;
pub mod index_set;
pub mod issuer;
pub mod numstr;
pub mod primitives;
pub mod record_map;
pub mod registry;
pub mod schema;
pub mod strutil;
pub mod tails;
pub mod wallet;
