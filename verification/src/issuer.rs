//! The issuer's command executor: the orchestration core.
//!
//! Composes the record store, the tails store and the cryptographic
//! primitive to create schemas and credential definitions, rotate
//! definition keys in two phases, create capacity-bounded revocation
//! registries, issue and revoke credentials, and merge deltas. Structural
//! and validation errors are raised before any mutation; store updates
//! happen together, only after every fallible step has succeeded.

use vstd::prelude::*;
use crate::cred_def::{
    CredentialDefinition,
    CredentialDefinitionConfig,
    CredentialDefinitionCorrectnessProof,
    CredentialDefinitionData,
    CredentialDefinitionPrivateKey,
    CredentialDefinitionV1,
    SignatureType,
    TemporaryCredentialDefinition,
};
use crate::credential::{Credential, CredentialOffer, CredentialRequest, CredentialAttrValues};
use crate::delta::{
    RevocationRegistryDelta,
    RevocationRegistryDeltaV1,
    RevocationRegistryDeltaValue,
};
use crate::errors::{ErrorKind, IssuerError};
use crate::ids::{
    cred_def_id_of,
    rev_reg_id_of,
    schema_id_of,
    CredentialDefinitionId,
    DidValue,
    RevocationRegistryId,
    SchemaId,
};
use crate::index_set::IndexSet;
use crate::numstr::{dec_digits, u32_to_dec};
use crate::primitives;
use crate::registry::{
    IssuanceType,
    RegistryType,
    RevocationRegistry,
    RevocationRegistryConfig,
    RevocationRegistryDefinition,
    RevocationRegistryDefinitionPrivate,
    RevocationRegistryDefinitionV1,
    RevocationRegistryDefinitionValue,
    RevocationRegistryInfo,
    RevocationRegistryV1,
};
use crate::schema::{AttributeNames, Schema, SchemaV1};
use crate::tails::{TailsReader, TailsStore};
use crate::wallet::WalletCommandExecutor;

verus! {

/// Whether two record stores hold exactly the same records.
pub open spec fn same_wallet(a: WalletCommandExecutor, b: WalletCommandExecutor) -> bool {
    &&& a.schemas@ == b.schemas@
    &&& a.schema_ids@ == b.schema_ids@
    &&& a.cred_defs@ == b.cred_defs@
    &&& a.cred_def_privs@ == b.cred_def_privs@
    &&& a.cred_def_proofs@ == b.cred_def_proofs@
    &&& a.temp_cred_defs@ == b.temp_cred_defs@
    &&& a.rev_reg_defs@ == b.rev_reg_defs@
    &&& a.rev_regs@ == b.rev_regs@
    &&& a.rev_reg_privs@ == b.rev_reg_privs@
    &&& a.rev_reg_infos@ == b.rev_reg_infos@
}

/// Whether the issuer DID and the credential definition id disagree on
/// qualification: one carries a method and the other does not.
pub open spec fn rev_reg_create_method_mismatch(did: Seq<char>, cred_def_id: Seq<char>) -> bool {
    ||| (crate::ids::spec_did_method(did) is None && crate::ids::spec_entity_method(
        cred_def_id,
        "creddef"@,
    ) is Some)
    ||| (crate::ids::spec_did_method(did) is Some && crate::ids::spec_entity_method(
        cred_def_id,
        "creddef"@,
    ) is None)
}

/// Whether a registry configuration is acceptable: a nonzero capacity
/// whose tails count fits the primitive's 32-bit arithmetic.
pub open spec fn rev_reg_create_config_ok(config: RevocationRegistryConfig) -> bool {
    &&& config.max_cred_num != Some(0u32)
    &&& (match config.max_cred_num {
        Some(n) => n <= 0x7fff_ffff,
        None => true,
    })
}

/// Whether registry creation's validations all pass: compatible
/// qualification, a known registry type and an acceptable configuration.
pub open spec fn rev_reg_create_inputs_ok(
    did: Seq<char>,
    cred_def_id: Seq<char>,
    type_: Option<&str>,
    config: RevocationRegistryConfig,
) -> bool {
    &&& !rev_reg_create_method_mismatch(did, cred_def_id)
    &&& (type_ is None || (type_ matches Some(s) && s@ == "CL_ACCUM"@))
    &&& rev_reg_create_config_ok(config)
}

/// The schema id as a definition will reference it: qualified along with
/// a qualified issuer DID when the schema id itself carries no method.
pub open spec fn schema_id_after_qualification(did: Seq<char>, schema_id: Seq<char>) -> Seq<
    char,
> {
    match (crate::ids::spec_did_method(did), crate::ids::spec_entity_method(
        schema_id,
        "schema"@,
    )) {
        (Some(m), Option::<Seq<char>>::None) => crate::ids::schema_to_qualified_of(schema_id, m),
        _ => schema_id,
    }
}

/// The schema reference inside a credential definition id: the schema's
/// ledger sequence number when it has one, else its possibly qualified id.
pub open spec fn cred_def_schema_ref(did: Seq<char>, schema: SchemaV1) -> Seq<char> {
    match schema.seq_no {
        Some(n) => dec_digits(n as nat),
        None => schema_id_after_qualification(did, schema.id.0@),
    }
}

/// Whether the issuer DID and the schema id disagree on qualification in
/// the one forbidden way: a bare DID with a fully qualified schema.
pub open spec fn cred_def_method_mismatch(did: Seq<char>, schema_id: Seq<char>) -> bool {
    crate::ids::spec_did_method(did) is None && crate::ids::spec_entity_method(
        schema_id,
        "schema"@,
    ) is Some
}

/// The deterministic id a credential definition creation derives before
/// any key generation.
pub open spec fn derived_cred_def_id(did: Seq<char>, schema: SchemaV1, tag: Seq<char>) -> Seq<
    char,
> {
    cred_def_id_of(did, cred_def_schema_ref(did, schema), "CL"@, tag)
}

/// Whether the offer's definition and private key records both stand.
pub open spec fn issuance_records_ok(w: WalletCommandExecutor, offer: CredentialOffer) -> bool {
    &&& w.cred_defs@.contains_key(offer_cred_def_id(offer))
    &&& w.cred_def_privs@.contains_key(offer_cred_def_id(offer))
}

/// Whether a registry-bound issuance reaches the tails-handle check: the
/// definition records stand, the four registry records stand, and the
/// capacity is not yet exhausted.
pub open spec fn issuance_registry_ready(
    w: WalletCommandExecutor,
    offer: CredentialOffer,
    rev_reg_id: Option<&RevocationRegistryId>,
) -> bool {
    &&& issuance_records_ok(w, offer)
    &&& (rev_reg_id matches Some(rid) && registry_records_present(w, rid.0@)
        && w.rev_reg_infos@[rid.0@].curr_id < w.rev_reg_defs@[rid.0@].value.max_cred_num)
}

/// Whether the stored tails blob matches the registry definition's hash.
pub open spec fn issuance_tails_ok(
    w: WalletCommandExecutor,
    tails: Seq<Seq<Seq<u8>>>,
    rid: Seq<char>,
) -> bool {
    crate::tails::tails_reader_ok(
        tails,
        w.rev_reg_defs@[rid].value.tails_location@,
        w.rev_reg_defs@[rid].value.tails_hash@,
    )
}

/// Whether all four co-located registry records stand under `rid`.
pub open spec fn registry_records_present(w: WalletCommandExecutor, rid: Seq<char>) -> bool {
    &&& w.rev_reg_defs@.contains_key(rid)
    &&& w.rev_regs@.contains_key(rid)
    &&& w.rev_reg_privs@.contains_key(rid)
    &&& w.rev_reg_infos@.contains_key(rid)
}

/// Whether the revocation-side policy toggle accepts `idx`: under
/// on-demand issuance the index must be in the used set, under by-default
/// issuance it must not be there yet.
pub open spec fn revocation_toggle_ok(pol: IssuanceType, used: Set<u32>, idx: u32) -> bool {
    if pol == IssuanceType::ISSUANCE_ON_DEMAND {
        used.contains(idx)
    } else {
        !used.contains(idx)
    }
}

/// Whether a string parses as a revocation index: a decimal string whose
/// value fits.
pub open spec fn rev_id_parses(s: Seq<char>) -> bool {
    crate::numstr::is_dec_string(s) && crate::numstr::dec_value(s) <= u32::MAX
}

/// Whether a revocation request reaches the policy checks: the index
/// parses, the four records stand, and the stored tails blob matches the
/// definition's hash.
pub open spec fn revoke_ready(
    w: WalletCommandExecutor,
    tails: Seq<Seq<Seq<u8>>>,
    rid: Seq<char>,
    s: Seq<char>,
) -> bool {
    &&& rev_id_parses(s)
    &&& registry_records_present(w, rid)
    &&& crate::tails::tails_reader_ok(
        tails,
        w.rev_reg_defs@[rid].value.tails_location@,
        w.rev_reg_defs@[rid].value.tails_hash@,
    )
}

/// Whether the parsed index lies within the registry's range.
pub open spec fn revoke_in_range(w: WalletCommandExecutor, rid: Seq<char>, s: Seq<char>) -> bool {
    crate::numstr::dec_value(s) <= w.rev_reg_defs@[rid].value.max_cred_num as nat + 1
}

/// Whether the revocation-side policy toggle accepts the parsed index.
pub open spec fn revoke_consistent(w: WalletCommandExecutor, rid: Seq<char>, s: Seq<char>) -> bool {
    revocation_toggle_ok(
        w.rev_reg_defs@[rid].value.issuance_type,
        w.rev_reg_infos@[rid].used_ids@,
        crate::numstr::dec_value(s) as u32,
    )
}

/// Whether every precondition of the accumulator update holds, including
/// the stored bundle matching the definition's capacity.
pub open spec fn revoke_applies(
    w: WalletCommandExecutor,
    tails: Seq<Seq<Seq<u8>>>,
    rid: Seq<char>,
    s: Seq<char>,
) -> bool {
    &&& revoke_ready(w, tails, rid, s)
    &&& revoke_in_range(w, rid, s)
    &&& revoke_consistent(w, rid, s)
    &&& w.rev_reg_privs@[rid].capacity_view() == w.rev_reg_defs@[rid].value.max_cred_num
}

/// What the accumulator update yields for a revocation request.
pub open spec fn revoke_result(w: WalletCommandExecutor, rid: Seq<char>, s: Seq<char>) -> Option<
    Seq<char>,
> {
    primitives::revoke_of(
        w.rev_regs@[rid].value@,
        w.rev_reg_defs@[rid].value.max_cred_num,
        crate::numstr::dec_value(s) as u32,
        primitives::tails_entries(w.rev_reg_privs@[rid].generator_view()),
    )
}

/// The credential definition id an offer resolves to: qualified under the
/// offer's method name when it carries one.
pub open spec fn offer_cred_def_id(offer: CredentialOffer) -> Seq<char> {
    match offer.method_name {
        Some(m) => crate::ids::cred_def_to_qualified_of(offer.cred_def_id.0@, m@),
        None => offer.cred_def_id.0@,
    }
}

/// Parses the optional signature type string; only `CL` exists.
fn signature_type_from(type_: Option<&str>) -> (r: Result<SignatureType, IssuerError>)
    ensures
        match r {
            Ok(t) => t == SignatureType::CL && (type_ is None || (type_ matches Some(s) && s@
                == "CL"@)),
            Err(e) => (type_ matches Some(s) && s@ != "CL"@) && e.kind
                == ErrorKind::InvalidStructure,
        },
{
    match type_ {
        None => Ok(SignatureType::CL),
        Some(s) => {
            if crate::strutil::str_eq(s, "CL") {
                Ok(SignatureType::CL)
            } else {
                Err(IssuerError::for_id(ErrorKind::InvalidStructure, s))
            }
        },
    }
}

/// Parses the optional registry type string; only `CL_ACCUM` exists.
fn registry_type_from(type_: Option<&str>) -> (r: Result<RegistryType, IssuerError>)
    ensures
        match r {
            Ok(t) => t == RegistryType::CL_ACCUM && (type_ is None || (type_ matches Some(s)
                && s@ == "CL_ACCUM"@)),
            Err(e) => (type_ matches Some(s) && s@ != "CL_ACCUM"@) && e.kind
                == ErrorKind::InvalidStructure,
        },
{
    match type_ {
        None => Ok(RegistryType::CL_ACCUM),
        Some(s) => {
            if crate::strutil::str_eq(s, "CL_ACCUM") {
                Ok(RegistryType::CL_ACCUM)
            } else {
                Err(IssuerError::for_id(ErrorKind::InvalidStructure, s))
            }
        },
    }
}

/// Whether every index of `v` lies in `1 ..= max`.
fn indices_in_range(v: &Vec<u32>, max: u32) -> (r: bool)
    ensures
        r == forall|i: int| 0 <= i < v@.len() ==> 1 <= #[trigger] v@[i] <= max,
{
    let n = v.len();
    let mut i: usize = 0;
    while i < n
        invariant
            0 <= i <= n == v@.len(),
            forall|k: int| 0 <= k < i ==> 1 <= #[trigger] v@[k] <= max,
        decreases n - i,
    {
        if v[i] < 1 || v[i] > max {
            return false;
        }
        i = i + 1;
    }
    true
}

/// The issuer's command executor: the record store and the tails store it
/// orchestrates.
pub struct IssuerCommandExecutor {
    pub wallet: WalletCommandExecutor,
    pub tails: TailsStore,
}

impl IssuerCommandExecutor {
    /// An executor over the given collaborators.
    pub fn new(wallet: WalletCommandExecutor, tails: TailsStore) -> (r: IssuerCommandExecutor)
        ensures
            same_wallet(r.wallet, wallet),
            r.tails@ == tails@,
    {
        IssuerCommandExecutor { wallet, tails }
    }

    /// Builds a schema from the issuer identity, a name, a version and the
    /// attribute names; the schema id is derived from them. Nothing is
    /// stored. A malformed issuer DID is rejected.
    pub fn create_schema(&self, issuer_did: &DidValue, name: &str, version: &str,
        attrs: AttributeNames) -> (r: Result<(SchemaId, Schema), IssuerError>)
        ensures
            r is Ok <==> crate::ids::did_wf(issuer_did.0@),
            match r {
                Ok(p) => {
                    &&& p.0.0@ == schema_id_of(issuer_did.0@, name@, version@)
                    &&& p.1 matches Schema::SchemaV1(s) && s.id.0@ == p.0.0@ && s.name@ == name@
                        && s.version@ == version@ && s.attr_names == attrs && s.seq_no is None
                },
                Err(e) => e.kind == ErrorKind::InvalidStructure,
            },
    {
        if let Err(e) = issuer_did.validate() {
            return Err(e);
        }
        let schema_id = SchemaId::new(issuer_did, name, version);
        let id_clone = SchemaId(schema_id.0.clone());
        let schema = Schema::SchemaV1(
            SchemaV1 {
                id: schema_id,
                name: name.to_owned(),
                version: version.to_owned(),
                attr_names: attrs,
                seq_no: None,
            },
        );
        Ok((id_clone, schema))
    }

    /// Creates a credential definition for a schema, or returns the one
    /// already stored under the deterministic id: key generation is
    /// expensive and is never silently redone. On fresh creation the
    /// definition, its private key and its correctness proof are stored
    /// together under the id, beside the schema and its full schema id.
    pub fn create_and_store_credential_definition(
        &mut self,
        issuer_did: &DidValue,
        schema: SchemaV1,
        tag: &str,
        type_: Option<&str>,
        config: Option<CredentialDefinitionConfig>,
    ) -> (r: Result<(CredentialDefinitionId, CredentialDefinition), IssuerError>)
        ensures
            final(self).tails@ == old(self).tails@,
            cred_def_method_mismatch(issuer_did.0@, schema.id.0@) ==> (r matches Err(e) && e.kind
                == ErrorKind::InvalidStructure),
            (type_ matches Some(s) && s@ != "CL"@) ==> (r matches Err(e) && e.kind
                == ErrorKind::InvalidStructure),
            ((type_ is None || (type_ matches Some(s) && s@ == "CL"@))
                && !cred_def_method_mismatch(issuer_did.0@, schema.id.0@) && old(self).wallet.cred_defs@.contains_key(derived_cred_def_id(issuer_did.0@, schema, tag@)))
                ==> r is Ok,
            match r {
                Ok(p) => {
                    &&& p.0.0@ == derived_cred_def_id(issuer_did.0@, schema, tag@)
                    &&& p.1 matches CredentialDefinition::CredentialDefinitionV1(d)
                    &&& (p.1 matches CredentialDefinition::CredentialDefinitionV1(d) ==> {
                        &&& d.signature_type == SignatureType::CL
                        &&& if old(self).wallet.cred_defs@.contains_key(p.0.0@) {
                            same_wallet(final(self).wallet, old(self).wallet) && d == old(self).wallet.cred_defs@[p.0.0@]
                        } else {
                            &&& d.id.0@ == p.0.0@
                            &&& d.schema_id.0@ == cred_def_schema_ref(issuer_did.0@, schema)
                            &&& d.tag@ == tag@
                            &&& (d.value.revocation is Some <==> (config matches Some(c)
                                && c.support_revocation))
                            &&& final(self).wallet.cred_defs@ == old(self).wallet.cred_defs@.insert(p.0.0@, d)
                            &&& final(self).wallet.cred_def_privs@.contains_key(p.0.0@)
                            &&& final(self).wallet.cred_def_privs@ == old(self).wallet.cred_def_privs@.insert(
                                p.0.0@,
                                final(self).wallet.cred_def_privs@[p.0.0@],
                            )
                            &&& final(self).wallet.cred_def_proofs@.contains_key(p.0.0@)
                            &&& final(self).wallet.cred_def_proofs@ == old(self).wallet.cred_def_proofs@.insert(
                                p.0.0@,
                                final(self).wallet.cred_def_proofs@[p.0.0@],
                            )
                            &&& {
                                let sref = cred_def_schema_ref(issuer_did.0@, schema);
                                final(self).wallet.schemas@ == (
                                if old(self).wallet.schemas@.contains_key(sref) {
                                    old(self).wallet.schemas@
                                } else {
                                    old(self).wallet.schemas@.insert(
                                        sref,
                                        final(self).wallet.schemas@[sref],
                                    )
                                })
                            }
                            &&& {
                                let sref = cred_def_schema_ref(issuer_did.0@, schema);
                                !old(self).wallet.schemas@.contains_key(sref) ==> {
                                    let cached = final(self).wallet.schemas@[sref];
                                    &&& cached.id.0@ == schema_id_after_qualification(
                                        issuer_did.0@,
                                        schema.id.0@,
                                    )
                                    &&& cached.name@ == schema.name@
                                    &&& cached.version@ == schema.version@
                                    &&& cached.attr_names == schema.attr_names
                                    &&& cached.seq_no == schema.seq_no
                                }
                            }
                            &&& final(self).wallet.schema_ids@ == (
                            if old(self).wallet.schema_ids@.contains_key(p.0.0@) {
                                old(self).wallet.schema_ids@
                            } else {
                                old(self).wallet.schema_ids@.insert(
                                    p.0.0@,
                                    final(self).wallet.schema_ids@[p.0.0@],
                                )
                            })
                            &&& (!old(self).wallet.schema_ids@.contains_key(p.0.0@) ==> final(self).wallet.schema_ids@[p.0.0@]@ == schema_id_after_qualification(
                                issuer_did.0@,
                                schema.id.0@,
                            ))
                            &&& final(self).wallet.temp_cred_defs@ == old(self).wallet.temp_cred_defs@
                            &&& final(self).wallet.rev_reg_defs@ == old(self).wallet.rev_reg_defs@
                            &&& final(self).wallet.rev_regs@ == old(self).wallet.rev_regs@
                            &&& final(self).wallet.rev_reg_privs@ == old(self).wallet.rev_reg_privs@
                            &&& final(self).wallet.rev_reg_infos@ == old(self).wallet.rev_reg_infos@
                        }
                    })
                },
                Err(e) => {
                    &&& same_wallet(final(self).wallet, old(self).wallet)
                    &&& (e.kind == ErrorKind::InvalidStructure || e.kind
                        == ErrorKind::IssuanceFailed || e.kind == ErrorKind::InvalidState)
                },
            },
    {
        let cred_def_config = match config {
            Some(c) => c,
            None => CredentialDefinitionConfig::default(),
        };
        let signature_type = match signature_type_from(type_) {
            Ok(t) => t,
            Err(e) => {
                return Err(e);
            },
        };
        let ghost schema0 = schema;
        let mut schema = schema;
        match (issuer_did.get_method(), schema.id.get_method()) {
            (None, Some(_)) => {
                return Err(
                    IssuerError::for_id(ErrorKind::InvalidStructure, schema.id.0.as_str()),
                );
            },
            (Some(prefix), None) => {
                schema.id = schema.id.to_qualified(prefix.as_str());
            },
            _ => {},
        }
        proof {
            assert(schema.id.0@ == schema_id_after_qualification(issuer_did.0@, schema0.id.0@));
        }
        let schema_id_for_cred_def = match schema.seq_no {
            Some(n) => SchemaId(u32_to_dec(n)),
            None => schema.id.clone(),
        };
        proof {
            assert(schema_id_for_cred_def.0@ == cred_def_schema_ref(issuer_did.0@, schema0));
        }
        let cred_def_id = CredentialDefinitionId::new(
            issuer_did,
            &schema_id_for_cred_def,
            signature_type.to_str(),
            tag,
        );
        proof {
            assert(cred_def_id.0@ == derived_cred_def_id(issuer_did.0@, schema0, tag@));
        }
        if let Some(existing) = self.wallet.cred_defs.get(cred_def_id.0.as_str()) {
            let d = existing.clone();
            proof {
                assert(d == old(self).wallet.cred_defs@[cred_def_id.0@]) by {
                    assert(d.value == old(self).wallet.cred_defs@[cred_def_id.0@].value);
                }
            }
            return Ok((cred_def_id, CredentialDefinition::CredentialDefinitionV1(d)));
        }
        let schemas = match primitives::build_credential_schema(&schema.attr_names.0, "master_secret") {
            Some(s) => s,
            None => {
                return Err(
                    IssuerError::for_id(ErrorKind::IssuanceFailed, cred_def_id.0.as_str()),
                );
            },
        };
        let (primary, revocation, priv_key, proof_val) = match primitives::new_credential_def(
            &schemas.0,
            &schemas.1,
            cred_def_config.support_revocation,
        ) {
            Some(t) => t,
            None => {
                return Err(
                    IssuerError::for_id(ErrorKind::IssuanceFailed, cred_def_id.0.as_str()),
                );
            },
        };
        let d = CredentialDefinitionV1 {
            id: CredentialDefinitionId(cred_def_id.0.clone()),
            schema_id: schema_id_for_cred_def,
            signature_type,
            tag: tag.to_owned(),
            value: CredentialDefinitionData { primary, revocation },
        };
        let d_ret = d.clone();
        let added = self.wallet.cred_defs.add(cred_def_id.0.as_str(), d);
        self.wallet.cred_def_privs.add(
            cred_def_id.0.as_str(),
            CredentialDefinitionPrivateKey { value: priv_key },
        );
        self.wallet.cred_def_proofs.add(
            cred_def_id.0.as_str(),
            CredentialDefinitionCorrectnessProof { value: proof_val },
        );
        let schema_full_id = schema.id.0.clone();
        // The schema is cached under the definition's schema reference, the
        // key the rotation flow reads it back by; the full schema id is
        // kept beside the definition for offers.
        self.wallet.schemas.add(d_ret.schema_id.0.as_str(), schema);
        self.wallet.schema_ids.add(cred_def_id.0.as_str(), schema_full_id);
        Ok((cred_def_id, CredentialDefinition::CredentialDefinitionV1(d_ret)))
    }

    /// Stages a fresh keypair for a definition without touching the live
    /// one. Calling it again before the apply returns the already staged
    /// definition unchanged. The live definition and its schema must
    /// exist.
    pub fn rotate_credential_definition_start(
        &mut self,
        cred_def_id: &CredentialDefinitionId,
        config: Option<&CredentialDefinitionConfig>,
    ) -> (r: Result<CredentialDefinition, IssuerError>)
        ensures
            final(self).tails@ == old(self).tails@,
            final(self).wallet.cred_defs@ == old(self).wallet.cred_defs@,
            final(self).wallet.cred_def_privs@ == old(self).wallet.cred_def_privs@,
            final(self).wallet.cred_def_proofs@ == old(self).wallet.cred_def_proofs@,
            final(self).wallet.schemas@ == old(self).wallet.schemas@,
            final(self).wallet.schema_ids@ == old(self).wallet.schema_ids@,
            final(self).wallet.rev_reg_defs@ == old(self).wallet.rev_reg_defs@,
            final(self).wallet.rev_regs@ == old(self).wallet.rev_regs@,
            final(self).wallet.rev_reg_privs@ == old(self).wallet.rev_reg_privs@,
            final(self).wallet.rev_reg_infos@ == old(self).wallet.rev_reg_infos@,
            !old(self).wallet.cred_defs@.contains_key(cred_def_id.0@) ==> (r matches Err(e)
                && e.kind == ErrorKind::NotFound),
            (old(self).wallet.cred_defs@.contains_key(cred_def_id.0@) && old(self).wallet.temp_cred_defs@.contains_key(cred_def_id.0@)) ==> r is Ok,
            (old(self).wallet.cred_defs@.contains_key(cred_def_id.0@) && !old(self).wallet.temp_cred_defs@.contains_key(cred_def_id.0@) && !old(self).wallet.schemas@.contains_key(
                old(self).wallet.cred_defs@[cred_def_id.0@].schema_id.0@,
            )) ==> (r matches Err(e) && e.kind == ErrorKind::NotFound),
            match r {
                Ok(d) => {
                    &&& old(self).wallet.cred_defs@.contains_key(cred_def_id.0@)
                    &&& if old(self).wallet.temp_cred_defs@.contains_key(cred_def_id.0@) {
                        final(self).wallet.temp_cred_defs@ == old(self).wallet.temp_cred_defs@
                            && cred_def_matches(
                            d,
                            old(self).wallet.temp_cred_defs@[cred_def_id.0@].cred_def,
                        )
                    } else {
                        &&& final(self).wallet.temp_cred_defs@.contains_key(cred_def_id.0@)
                        &&& final(self).wallet.temp_cred_defs@ == old(self).wallet.temp_cred_defs@.insert(
                            cred_def_id.0@,
                            final(self).wallet.temp_cred_defs@[cred_def_id.0@],
                        )
                        &&& cred_def_matches(
                            d,
                            final(self).wallet.temp_cred_defs@[cred_def_id.0@].cred_def,
                        )
                        &&& (d matches CredentialDefinition::CredentialDefinitionV1(s) ==> {
                            let live = old(self).wallet.cred_defs@[cred_def_id.0@];
                            &&& s.id == live.id
                            &&& s.schema_id == live.schema_id
                            &&& s.signature_type == live.signature_type
                            &&& s.tag@ == live.tag@
                            &&& (s.value.revocation is Some <==> (config matches Some(c)
                                && c.support_revocation))
                        })
                    }
                },
                Err(e) => {
                    &&& final(self).wallet.temp_cred_defs@ == old(self).wallet.temp_cred_defs@
                    &&& (e.kind == ErrorKind::NotFound || e.kind == ErrorKind::IssuanceFailed)
                    &&& (e.kind == ErrorKind::NotFound <==> (!old(self).wallet.cred_defs@.contains_key(cred_def_id.0@) || !old(self).wallet.schemas@.contains_key(
                        old(self).wallet.cred_defs@[cred_def_id.0@].schema_id.0@,
                    )))
                },
            },
    {
        let live = match self.wallet.cred_defs.get(cred_def_id.0.as_str()) {
            Some(d) => d.clone(),
            None => {
                return Err(IssuerError::for_id(ErrorKind::NotFound, cred_def_id.0.as_str()));
            },
        };
        if let Some(temp) = self.wallet.temp_cred_defs.get(cred_def_id.0.as_str()) {
            let d = match &temp.cred_def {
                CredentialDefinition::CredentialDefinitionV1(v) => v.clone(),
            };
            return Ok(CredentialDefinition::CredentialDefinitionV1(d));
        }
        let schema = match self.wallet.schemas.get(live.schema_id.0.as_str()) {
            Some(s) => s,
            None => {
                return Err(IssuerError::for_id(ErrorKind::NotFound, live.schema_id.0.as_str()));
            },
        };
        let support_revocation = match config {
            Some(c) => c.support_revocation,
            None => false,
        };
        let schemas = match primitives::build_credential_schema(&schema.attr_names.0, "master_secret") {
            Some(s) => s,
            None => {
                return Err(
                    IssuerError::for_id(ErrorKind::IssuanceFailed, cred_def_id.0.as_str()),
                );
            },
        };
        let (primary, revocation, priv_key, proof_val) = match primitives::new_credential_def(
            &schemas.0,
            &schemas.1,
            support_revocation,
        ) {
            Some(t) => t,
            None => {
                return Err(
                    IssuerError::for_id(ErrorKind::IssuanceFailed, cred_def_id.0.as_str()),
                );
            },
        };
        let staged = CredentialDefinitionV1 {
            id: live.id,
            schema_id: live.schema_id,
            signature_type: live.signature_type,
            tag: live.tag,
            value: CredentialDefinitionData { primary, revocation },
        };
        let staged_ret = staged.clone();
        let temp = TemporaryCredentialDefinition {
            cred_def: CredentialDefinition::CredentialDefinitionV1(staged),
            cred_def_priv_key: CredentialDefinitionPrivateKey { value: priv_key },
            cred_def_correctness_proof: CredentialDefinitionCorrectnessProof { value: proof_val },
        };
        self.wallet.temp_cred_defs.add(cred_def_id.0.as_str(), temp);
        Ok(CredentialDefinition::CredentialDefinitionV1(staged_ret))
    }

    /// Promotes a staged rotation: the live definition, private key and
    /// correctness proof are replaced by the staged ones together, and the
    /// staging record is deleted. With no staged rotation this fails
    /// `NotFound` and changes nothing.
    pub fn rotate_credential_definition_apply(&mut self, cred_def_id: &CredentialDefinitionId)
        -> (r: Result<(), IssuerError>)
        ensures
            final(self).tails@ == old(self).tails@,
            final(self).wallet.schemas@ == old(self).wallet.schemas@,
            final(self).wallet.schema_ids@ == old(self).wallet.schema_ids@,
            final(self).wallet.rev_reg_defs@ == old(self).wallet.rev_reg_defs@,
            final(self).wallet.rev_regs@ == old(self).wallet.rev_regs@,
            final(self).wallet.rev_reg_privs@ == old(self).wallet.rev_reg_privs@,
            final(self).wallet.rev_reg_infos@ == old(self).wallet.rev_reg_infos@,
            match r {
                Ok(()) => {
                    &&& old(self).wallet.cred_defs@.contains_key(cred_def_id.0@)
                    &&& old(self).wallet.temp_cred_defs@.contains_key(cred_def_id.0@)
                    &&& old(self).wallet.cred_def_privs@.contains_key(cred_def_id.0@)
                    &&& old(self).wallet.cred_def_proofs@.contains_key(cred_def_id.0@)
                    &&& (old(self).wallet.temp_cred_defs@[cred_def_id.0@].cred_def matches CredentialDefinition::CredentialDefinitionV1(
                        staged,
                    ) ==> final(self).wallet.cred_defs@ == old(self).wallet.cred_defs@.insert(
                        cred_def_id.0@,
                        staged,
                    ))
                    &&& final(self).wallet.cred_def_privs@ == old(self).wallet.cred_def_privs@.insert(
                        cred_def_id.0@,
                        old(self).wallet.temp_cred_defs@[cred_def_id.0@].cred_def_priv_key,
                    )
                    &&& final(self).wallet.cred_def_proofs@ == old(self).wallet.cred_def_proofs@.insert(
                        cred_def_id.0@,
                        old(self).wallet.temp_cred_defs@[cred_def_id.0@].cred_def_correctness_proof,
                    )
                    &&& final(self).wallet.temp_cred_defs@ == old(self).wallet.temp_cred_defs@.remove(cred_def_id.0@)
                },
                Err(e) => {
                    &&& same_wallet(final(self).wallet, old(self).wallet)
                    &&& e.kind == ErrorKind::NotFound
                    &&& !(old(self).wallet.cred_defs@.contains_key(cred_def_id.0@) && old(self).wallet.temp_cred_defs@.contains_key(cred_def_id.0@) && old(self).wallet.cred_def_privs@.contains_key(cred_def_id.0@) && old(self).wallet.cred_def_proofs@.contains_key(cred_def_id.0@))
                },
            },
    {
        if !self.wallet.cred_defs.contains(cred_def_id.0.as_str()) {
            return Err(IssuerError::for_id(ErrorKind::NotFound, cred_def_id.0.as_str()));
        }
        if !self.wallet.cred_def_privs.contains(cred_def_id.0.as_str())
            || !self.wallet.cred_def_proofs.contains(cred_def_id.0.as_str()) {
            return Err(IssuerError::for_id(ErrorKind::NotFound, cred_def_id.0.as_str()));
        }
        let temp = match self.wallet.temp_cred_defs.get(cred_def_id.0.as_str()) {
            Some(t) => t,
            None => {
                return Err(IssuerError::for_id(ErrorKind::NotFound, cred_def_id.0.as_str()));
            },
        };
        let staged = match &temp.cred_def {
            CredentialDefinition::CredentialDefinitionV1(v) => v.clone(),
        };
        let priv_key = temp.cred_def_priv_key.clone();
        let proof_val = temp.cred_def_correctness_proof.clone();
        proof {
            assert(staged == old(self).wallet.temp_cred_defs@[cred_def_id.0@].cred_def->CredentialDefinitionV1_0)
                by {
                assert(staged.value == old(self).wallet.temp_cred_defs@[cred_def_id.0@].cred_def->CredentialDefinitionV1_0.value);
            }
        }
        self.wallet.cred_defs.update(cred_def_id.0.as_str(), staged);
        self.wallet.cred_def_privs.update(cred_def_id.0.as_str(), priv_key);
        self.wallet.cred_def_proofs.update(cred_def_id.0.as_str(), proof_val);
        self.wallet.temp_cred_defs.delete(cred_def_id.0.as_str());
        Ok(())
    }

    /// Creates a revocation registry for a credential definition, or
    /// returns the definition and registry already stored under the
    /// deterministic id unchanged (idempotent creation; the bookkeeping is
    /// untouched by a repeated call). On fresh creation the tails entries
    /// are generated, streamed into the tails store and hashed; the
    /// definition, registry, private bundle and fresh bookkeeping are then
    /// stored together under the id.
    pub fn create_and_store_revocation_registry(
        &mut self,
        issuer_did: &DidValue,
        type_: Option<&str>,
        tag: &str,
        cred_def_id: &CredentialDefinitionId,
        config: &RevocationRegistryConfig,
    ) -> (r: Result<
        (RevocationRegistryId, RevocationRegistryDefinition, RevocationRegistry),
        IssuerError,
    >)
        ensures
            final(self).wallet.schemas@ == old(self).wallet.schemas@,
            final(self).wallet.schema_ids@ == old(self).wallet.schema_ids@,
            final(self).wallet.cred_defs@ == old(self).wallet.cred_defs@,
            final(self).wallet.cred_def_privs@ == old(self).wallet.cred_def_privs@,
            final(self).wallet.cred_def_proofs@ == old(self).wallet.cred_def_proofs@,
            final(self).wallet.temp_cred_defs@ == old(self).wallet.temp_cred_defs@,
            rev_reg_create_method_mismatch(issuer_did.0@, cred_def_id.0@) ==> (
            r matches Err(e) && e.kind == ErrorKind::InvalidStructure),
            (type_ matches Some(s) && s@ != "CL_ACCUM"@) ==> (r matches Err(e) && e.kind
                == ErrorKind::InvalidStructure),
            !rev_reg_create_config_ok(*config) ==> (r matches Err(e) && e.kind
                == ErrorKind::InvalidStructure),
            (rev_reg_create_inputs_ok(issuer_did.0@, cred_def_id.0@, type_, *config) && old(self).wallet.rev_reg_defs@.contains_key(
                rev_reg_id_of(issuer_did.0@, cred_def_id.0@, "CL_ACCUM"@, tag@),
            ) && old(self).wallet.rev_regs@.contains_key(
                rev_reg_id_of(issuer_did.0@, cred_def_id.0@, "CL_ACCUM"@, tag@),
            )) ==> r is Ok,
            match r {
                Ok(t) => {
                    &&& t.0.0@ == rev_reg_id_of(issuer_did.0@, cred_def_id.0@, "CL_ACCUM"@, tag@)
                    &&& t.1 matches RevocationRegistryDefinition::RevocationRegistryDefinitionV1(d)
                    &&& t.2 matches RevocationRegistry::RevocationRegistryV1(g)
                    &&& if old(self).wallet.rev_reg_defs@.contains_key(t.0.0@) && old(self).wallet.rev_regs@.contains_key(t.0.0@) {
                        &&& same_wallet(final(self).wallet, old(self).wallet)
                        &&& final(self).tails@ == old(self).tails@
                        &&& (t.1 matches RevocationRegistryDefinition::RevocationRegistryDefinitionV1(
                            d,
                        ) ==> d == old(self).wallet.rev_reg_defs@[t.0.0@])
                        &&& (t.2 matches RevocationRegistry::RevocationRegistryV1(g) ==> g == old(self).wallet.rev_regs@[t.0.0@])
                    } else {
                        &&& (t.1 matches RevocationRegistryDefinition::RevocationRegistryDefinitionV1(
                            d,
                        ) ==> {
                            &&& d.id.0@ == t.0.0@
                            &&& d.revoc_def_type == RegistryType::CL_ACCUM
                            &&& d.tag@ == tag@
                            &&& d.cred_def_id.0@ == cred_def_id.0@
                            &&& d.value.max_cred_num == (match config.max_cred_num {
                                Some(n) => n,
                                None => 100000u32,
                            })
                            &&& d.value.max_cred_num >= 1
                            &&& d.value.issuance_type == (match config.issuance_type {
                                Some(t) => t,
                                None => IssuanceType::ISSUANCE_ON_DEMAND,
                            })
                            &&& final(self).tails@.len() == old(self).tails@.len() + 1
                            &&& final(self).tails@.subrange(0, old(self).tails@.len() as int)
                                == old(self).tails@
                            &&& d.value.tails_location@ == dec_digits(old(self).tails@.len() as nat)
                            &&& d.value.tails_hash@ == crate::tails::tails_hash_of(
                                final(self).tails@.last(),
                            )
                            &&& final(self).wallet.rev_reg_defs@ == old(self).wallet.rev_reg_defs@.insert(t.0.0@, d)
                        })
                        &&& (t.2 matches RevocationRegistry::RevocationRegistryV1(g) ==> final(self).wallet.rev_regs@ == old(self).wallet.rev_regs@.insert(t.0.0@, g))
                        &&& final(self).wallet.rev_reg_privs@.contains_key(t.0.0@)
                        &&& final(self).wallet.rev_reg_infos@ == old(self).wallet.rev_reg_infos@.insert(
                            t.0.0@,
                            final(self).wallet.rev_reg_infos@[t.0.0@],
                        )
                        &&& final(self).wallet.rev_reg_infos@.contains_key(t.0.0@)
                        &&& final(self).wallet.rev_reg_infos@[t.0.0@].curr_id == 0
                        &&& final(self).wallet.rev_reg_infos@[t.0.0@].used_ids@ == Set::<
                            u32,
                        >::empty()
                        &&& final(self).wallet.rev_reg_infos@[t.0.0@].id.0@ == t.0.0@
                    }
                },
                Err(e) => {
                    &&& same_wallet(final(self).wallet, old(self).wallet)
                    &&& final(self).tails@ == old(self).tails@
                    &&& (e.kind == ErrorKind::InvalidStructure || e.kind == ErrorKind::NotFound
                        || e.kind == ErrorKind::IssuanceFailed || e.kind == ErrorKind::InvalidState
                        || e.kind == ErrorKind::SerializationFailed)
                    &&& (e.kind == ErrorKind::NotFound ==> !old(self).wallet.cred_defs@.contains_key(cred_def_id.0@))
                },
            },
    {
        match (issuer_did.get_method(), cred_def_id.get_method()) {
            (None, Some(_)) => {
                return Err(
                    IssuerError::for_id(ErrorKind::InvalidStructure, cred_def_id.0.as_str()),
                );
            },
            (Some(_), None) => {
                return Err(
                    IssuerError::for_id(ErrorKind::InvalidStructure, cred_def_id.0.as_str()),
                );
            },
            _ => {},
        }
        let rev_reg_type = match registry_type_from(type_) {
            Ok(t) => t,
            Err(e) => {
                return Err(e);
            },
        };
        if let Err(e) = config.validate() {
            return Err(e);
        }
        let issuance_type = match config.issuance_type {
            Some(t) => t,
            None => IssuanceType::ISSUANCE_ON_DEMAND,
        };
        let max_cred_num = match config.max_cred_num {
            Some(n) => n,
            None => 100000,
        };
        // The primitive sizes the tails sequence as twice the capacity
        // plus one in 32 bits; a capacity whose count would overflow is
        // malformed configuration.
        if max_cred_num > 0x7fff_ffff {
            return Err(IssuerError::for_id(ErrorKind::InvalidStructure, cred_def_id.0.as_str()));
        }
        let rev_reg_id = RevocationRegistryId::new(
            issuer_did,
            cred_def_id,
            rev_reg_type.to_str(),
            tag,
        );
        if self.wallet.rev_reg_defs.contains(rev_reg_id.0.as_str()) && self.wallet.rev_regs.contains(
            rev_reg_id.0.as_str(),
        ) {
            let d = match self.wallet.rev_reg_defs.get(rev_reg_id.0.as_str()) {
                Some(d) => d.clone(),
                None => {
                    return Err(
                        IssuerError::for_id(ErrorKind::InvalidState, rev_reg_id.0.as_str()),
                    );
                },
            };
            let g = match self.wallet.rev_regs.get(rev_reg_id.0.as_str()) {
                Some(g) => g.clone(),
                None => {
                    return Err(
                        IssuerError::for_id(ErrorKind::InvalidState, rev_reg_id.0.as_str()),
                    );
                },
            };
            return Ok(
                (
                    rev_reg_id,
                    RevocationRegistryDefinition::RevocationRegistryDefinitionV1(d),
                    RevocationRegistry::RevocationRegistryV1(g),
                ),
            );
        }
        let cred_def = match self.wallet.cred_defs.get(cred_def_id.0.as_str()) {
            Some(d) => d,
            None => {
                return Err(IssuerError::for_id(ErrorKind::NotFound, cred_def_id.0.as_str()));
            },
        };
        let cred_pub = match primitives::parse_cred_pub_key(
            cred_def.value.primary.as_str(),
            cred_def.value.revocation.as_ref(),
        ) {
            Some(k) => k,
            None => {
                return Err(
                    IssuerError::for_id(ErrorKind::SerializationFailed, cred_def_id.0.as_str()),
                );
            },
        };
        let (rk_pub, rk_priv, accum, gen) = match primitives::new_revocation_registry(
            &cred_pub,
            max_cred_num,
            issuance_type.to_bool(),
        ) {
            Some(t) => t,
            None => {
                return Err(
                    IssuerError::for_id(ErrorKind::IssuanceFailed, rev_reg_id.0.as_str()),
                );
            },
        };
        // Stream the tails entries off a copy of the generator; the
        // pristine generator is kept for later accessor rebuilds.
        let mut dg = primitives::clone_tails_generator(&gen);
        let mut entries: Vec<Vec<u8>> = Vec::new();
        loop
            invariant
                entries.deep_view() + primitives::tails_entries(dg) == primitives::tails_entries(
                    gen,
                ),
                !rev_reg_create_method_mismatch(issuer_did.0@, cred_def_id.0@),
                type_ is None || (type_ matches Some(s) && s@ == "CL_ACCUM"@),
                rev_reg_create_config_ok(*config),
                !(old(self).wallet.rev_reg_defs@.contains_key(
                    rev_reg_id_of(issuer_did.0@, cred_def_id.0@, "CL_ACCUM"@, tag@),
                ) && old(self).wallet.rev_regs@.contains_key(
                    rev_reg_id_of(issuer_did.0@, cred_def_id.0@, "CL_ACCUM"@, tag@),
                )),
                rev_reg_id.0@ == rev_reg_id_of(issuer_did.0@, cred_def_id.0@, "CL_ACCUM"@, tag@),
            ensures
                entries.deep_view() == primitives::tails_entries(gen),
            decreases primitives::tails_entries(dg).len(),
        {
            let ghost pre_entries = entries.deep_view();
            let ghost pre_dg = primitives::tails_entries(dg);
            match primitives::next_tail(&mut dg) {
                Some(Some(b)) => {
                    proof {
                        assert(pre_dg =~= seq![pre_dg.first()] + pre_dg.drop_first());
                        assert(b.deep_view() =~= b@);
                    }
                    entries.push(b);
                    proof {
                        assert(entries.deep_view() =~= pre_entries.push(pre_dg.first()));
                        assert(entries.deep_view() + primitives::tails_entries(dg) =~= pre_entries
                            + pre_dg);
                    }
                },
                Some(None) => {
                    proof {
                        assert(primitives::tails_entries(dg).len() == 0);
                        assert(entries.deep_view() + primitives::tails_entries(dg)
                            =~= entries.deep_view());
                    }
                    break;
                },
                None => {
                    return Err(
                        IssuerError::for_id(ErrorKind::IssuanceFailed, rev_reg_id.0.as_str()),
                    );
                },
            }
        }
        if self.tails.len() >= 0xffff_ffffusize {
            return Err(IssuerError::for_id(ErrorKind::InvalidState, rev_reg_id.0.as_str()));
        }
        let (tails_location, tails_hash) = self.tails.write(&entries);
        let def_value = RevocationRegistryDefinitionValue {
            issuance_type,
            max_cred_num,
            public_keys: rk_pub,
            tails_hash,
            tails_location,
        };
        let def = RevocationRegistryDefinitionV1 {
            id: RevocationRegistryId(rev_reg_id.0.clone()),
            revoc_def_type: rev_reg_type,
            tag: tag.to_owned(),
            cred_def_id: CredentialDefinitionId(cred_def_id.0.clone()),
            value: def_value,
        };
        let reg = RevocationRegistryV1 { value: accum };
        let def_ret = def.clone();
        let reg_ret = reg.clone();
        let bundle = RevocationRegistryDefinitionPrivate::bundle(rk_priv, gen, max_cred_num);
        let info = RevocationRegistryInfo {
            id: RevocationRegistryId(rev_reg_id.0.clone()),
            curr_id: 0,
            used_ids: IndexSet::new(),
        };
        self.wallet.rev_reg_defs.set(rev_reg_id.0.as_str(), def);
        self.wallet.rev_regs.set(rev_reg_id.0.as_str(), reg);
        self.wallet.rev_reg_privs.set(rev_reg_id.0.as_str(), bundle);
        self.wallet.rev_reg_infos.set(rev_reg_id.0.as_str(), info);
        Ok(
            (
                rev_reg_id,
                RevocationRegistryDefinition::RevocationRegistryDefinitionV1(def_ret),
                RevocationRegistry::RevocationRegistryV1(reg_ret),
            ),
        )
    }

    /// Builds a credential offer for a definition: its key correctness
    /// proof, the stored full schema id, and a fresh nonce.
    pub fn create_credential_offer(&self, cred_def_id: &CredentialDefinitionId) -> (r: Result<
        CredentialOffer,
        IssuerError,
    >)
        ensures
            match r {
                Ok(o) => {
                    &&& self.wallet.cred_def_proofs@.contains_key(cred_def_id.0@)
                    &&& self.wallet.schema_ids@.contains_key(cred_def_id.0@)
                    &&& o.cred_def_id.0@ == cred_def_id.0@
                    &&& o.schema_id.0@ == self.wallet.schema_ids@[cred_def_id.0@]@
                    &&& o.key_correctness_proof@
                        == self.wallet.cred_def_proofs@[cred_def_id.0@].value@
                    &&& o.method_name is None
                },
                Err(e) => {
                    &&& (e.kind == ErrorKind::NotFound || e.kind == ErrorKind::IssuanceFailed)
                    &&& (e.kind == ErrorKind::NotFound <==> !(
                    self.wallet.cred_def_proofs@.contains_key(cred_def_id.0@)
                        && self.wallet.schema_ids@.contains_key(cred_def_id.0@)))
                },
            },
    {
        let proof_rec = match self.wallet.cred_def_proofs.get(cred_def_id.0.as_str()) {
            Some(p) => p,
            None => {
                return Err(IssuerError::for_id(ErrorKind::NotFound, cred_def_id.0.as_str()));
            },
        };
        let schema_id = match self.wallet.schema_ids.get(cred_def_id.0.as_str()) {
            Some(s) => s,
            None => {
                return Err(IssuerError::for_id(ErrorKind::NotFound, cred_def_id.0.as_str()));
            },
        };
        let nonce = match primitives::new_nonce() {
            Some(n) => n,
            None => {
                return Err(
                    IssuerError::for_id(ErrorKind::IssuanceFailed, cred_def_id.0.as_str()),
                );
            },
        };
        Ok(
            CredentialOffer {
                schema_id: SchemaId(schema_id.clone()),
                cred_def_id: CredentialDefinitionId(cred_def_id.0.clone()),
                key_correctness_proof: proof_rec.value.clone(),
                nonce,
                method_name: None,
            },
        )
    }

    /// Issues a credential against an offer and a request. When bound to a
    /// registry: the next index is allocated (capacity permitting), the
    /// issuance-side policy toggle is applied, a tails reader handle is
    /// mandatory and the stored tails blob must match the definition's
    /// hash; the registry and its bookkeeping are persisted together only
    /// after the primitive has signed, and under the on-demand policy the
    /// resulting delta issues exactly the new index. The index is returned
    /// in its external decimal form.
    pub fn new_credential(
        &mut self,
        cred_offer: &CredentialOffer,
        cred_request: &CredentialRequest,
        cred_values: &CredentialAttrValues,
        rev_reg_id: Option<&RevocationRegistryId>,
        tails_reader: Option<&TailsReader>,
    ) -> (r: Result<(Credential, Option<String>, Option<RevocationRegistryDelta>), IssuerError>)
        ensures
            final(self).tails@ == old(self).tails@,
            final(self).wallet.schemas@ == old(self).wallet.schemas@,
            final(self).wallet.schema_ids@ == old(self).wallet.schema_ids@,
            final(self).wallet.cred_defs@ == old(self).wallet.cred_defs@,
            final(self).wallet.cred_def_privs@ == old(self).wallet.cred_def_privs@,
            final(self).wallet.cred_def_proofs@ == old(self).wallet.cred_def_proofs@,
            final(self).wallet.temp_cred_defs@ == old(self).wallet.temp_cred_defs@,
            final(self).wallet.rev_reg_defs@ == old(self).wallet.rev_reg_defs@,
            final(self).wallet.rev_reg_privs@ == old(self).wallet.rev_reg_privs@,
            !old(self).wallet.cred_defs@.contains_key(offer_cred_def_id(*cred_offer)) ==> (
            r matches Err(e) && e.kind == ErrorKind::NotFound),
            (old(self).wallet.cred_defs@.contains_key(offer_cred_def_id(*cred_offer)) && !old(self).wallet.cred_def_privs@.contains_key(offer_cred_def_id(*cred_offer))) ==> (
            r matches Err(e) && e.kind == ErrorKind::NotFound),
            (issuance_records_ok(old(self).wallet, *cred_offer) && (rev_reg_id matches Some(rid)
                && !registry_records_present(old(self).wallet, rid.0@))) ==> (r matches Err(e)
                && e.kind == ErrorKind::NotFound),
            (issuance_registry_ready(old(self).wallet, *cred_offer, rev_reg_id)
                && tails_reader is None) ==> (r matches Err(e) && e.kind
                == ErrorKind::InvalidStructure),
            (issuance_registry_ready(old(self).wallet, *cred_offer, rev_reg_id)
                && tails_reader is Some && (rev_reg_id matches Some(rid)
                && !issuance_tails_ok(old(self).wallet, old(self).tails@, rid.0@))) ==> r is Err,
            match r {
                Ok(out) => {
                    &&& out.0.schema_id.0@ == cred_offer.schema_id.0@
                    &&& out.0.cred_def_id.0@ == cred_offer.cred_def_id.0@
                    &&& out.0.values.0@.len() == cred_values.0@.len()
                    &&& (forall|i: int|
                        0 <= i < cred_values.0@.len() ==> #[trigger] out.0.values.0@[i]
                            == cred_values.0@[i])
                    &&& match rev_reg_id {
                        Some(rid) => {
                            let old_info = old(self).wallet.rev_reg_infos@[rid.0@];
                            let maxc = old(self).wallet.rev_reg_defs@[rid.0@].value.max_cred_num;
                            let pol = old(self).wallet.rev_reg_defs@[rid.0@].value.issuance_type;
                            let idx = (old_info.curr_id + 1) as u32;
                            &&& old(self).wallet.rev_reg_defs@.contains_key(rid.0@)
                            &&& old(self).wallet.rev_regs@.contains_key(rid.0@)
                            &&& old(self).wallet.rev_reg_privs@.contains_key(rid.0@)
                            &&& old(self).wallet.rev_reg_infos@.contains_key(rid.0@)
                            &&& old_info.curr_id < maxc
                            &&& (out.1 matches Some(s) && s@ == dec_digits(idx as nat))
                            &&& final(self).wallet.rev_reg_infos@.contains_key(rid.0@)
                            &&& final(self).wallet.rev_reg_infos@ == old(self).wallet.rev_reg_infos@.insert(
                                rid.0@,
                                final(self).wallet.rev_reg_infos@[rid.0@],
                            )
                            &&& final(self).wallet.rev_reg_infos@[rid.0@].curr_id == idx
                            &&& final(self).wallet.rev_reg_infos@[rid.0@].used_ids@ == (
                            if pol == IssuanceType::ISSUANCE_ON_DEMAND {
                                old_info.used_ids@.insert(idx)
                            } else {
                                old_info.used_ids@
                            })
                            &&& final(self).wallet.rev_regs@.contains_key(rid.0@)
                            &&& final(self).wallet.rev_regs@ == old(self).wallet.rev_regs@.insert(
                                rid.0@,
                                final(self).wallet.rev_regs@[rid.0@],
                            )
                            &&& (out.0.rev_reg matches Some(a) && a@ == final(self).wallet.rev_regs@[rid.0@].value@)
                            &&& {
                                let entries = primitives::tails_entries(
                                    old(self).wallet.rev_reg_privs@[rid.0@].generator_view(),
                                );
                                let used_after = final(self).wallet.rev_reg_infos@[rid.0@].used_ids.seq();
                                let issued_s = if pol == IssuanceType::ISSUANCE_ON_DEMAND {
                                    used_after
                                } else {
                                    Seq::<u32>::empty()
                                };
                                let revoked_s = if pol == IssuanceType::ISSUANCE_ON_DEMAND {
                                    Seq::<u32>::empty()
                                } else {
                                    used_after
                                };
                                out.0.witness matches Some(w) && Some(w@)
                                    == primitives::witness_of(
                                    idx,
                                    maxc,
                                    pol == IssuanceType::ISSUANCE_BY_DEFAULT,
                                    final(self).wallet.rev_regs@[rid.0@].value@,
                                    issued_s,
                                    revoked_s,
                                    entries,
                                )
                            }
                            &&& out.0.rev_reg_id is Some
                            &&& if pol == IssuanceType::ISSUANCE_ON_DEMAND {
                                out.2 matches Some(
                                    RevocationRegistryDelta::RevocationRegistryDeltaV1(dl),
                                ) && dl.value.issued@ == Set::<u32>::empty().insert(idx)
                                    && dl.value.revoked@ == Set::<u32>::empty() && (
                                dl.value.prev_accum matches Some(p) && p@ == old(self).wallet.rev_regs@[rid.0@].value@) && dl.value.accum@ == final(self).wallet.rev_regs@[rid.0@].value@
                            } else {
                                out.2 is None
                            }
                        },
                        None => {
                            &&& final(self).wallet.rev_regs@ == old(self).wallet.rev_regs@
                            &&& final(self).wallet.rev_reg_infos@ == old(self).wallet.rev_reg_infos@
                            &&& out.1 is None
                            &&& out.2 is None
                            &&& out.0.rev_reg is None
                            &&& out.0.witness is None
                            &&& out.0.rev_reg_id is None
                        },
                    }
                },
                Err(e) => {
                    &&& final(self).wallet.rev_regs@ == old(self).wallet.rev_regs@
                    &&& final(self).wallet.rev_reg_infos@ == old(self).wallet.rev_reg_infos@
                    &&& (e.kind == ErrorKind::RegistryFull || e.kind == ErrorKind::NotFound
                        || e.kind == ErrorKind::InvalidStructure || e.kind
                        == ErrorKind::SerializationFailed || e.kind == ErrorKind::IssuanceFailed
                        || e.kind == ErrorKind::InvalidState)
                    &&& (e.kind == ErrorKind::RegistryFull ==> (rev_reg_id matches Some(rid)
                        && old(self).wallet.rev_reg_infos@.contains_key(rid.0@) && old(self).wallet.rev_reg_defs@.contains_key(rid.0@) && old(self).wallet.rev_reg_infos@[rid.0@].curr_id >= old(self).wallet.rev_reg_defs@[rid.0@].value.max_cred_num))
                    &&& ((issuance_records_ok(old(self).wallet, *cred_offer) && (
                    rev_reg_id matches Some(rid) && registry_records_present(
                        old(self).wallet,
                        rid.0@,
                    ) && old(self).wallet.rev_reg_infos@[rid.0@].curr_id >= old(self).wallet.rev_reg_defs@[rid.0@].value.max_cred_num)) ==> e.kind == ErrorKind::RegistryFull)
                },
            },
    {
        let cred_def_id = match &cred_offer.method_name {
            Some(m) => cred_offer.cred_def_id.to_qualified(m.as_str()),
            None => cred_offer.cred_def_id.clone(),
        };
        let cred_def = match self.wallet.cred_defs.get(cred_def_id.0.as_str()) {
            Some(d) => d.clone(),
            None => {
                return Err(IssuerError::for_id(ErrorKind::NotFound, cred_def_id.0.as_str()));
            },
        };
        let cred_def_priv = match self.wallet.cred_def_privs.get(cred_def_id.0.as_str()) {
            Some(p) => p.clone(),
            None => {
                return Err(IssuerError::for_id(ErrorKind::NotFound, cred_def_id.0.as_str()));
            },
        };
        // Resolve and update the registry bookkeeping in memory; nothing is
        // persisted until the primitive has succeeded.
        let mut bound: Option<(RevocationRegistryDefinitionV1, String, u32, RevocationRegistryInfo)> = None;
        if let Some(rid) = rev_reg_id {
            let def = match self.wallet.rev_reg_defs.get(rid.0.as_str()) {
                Some(d) => d.clone(),
                None => {
                    return Err(IssuerError::for_id(ErrorKind::NotFound, rid.0.as_str()));
                },
            };
            let reg = match self.wallet.rev_regs.get(rid.0.as_str()) {
                Some(g) => g.clone(),
                None => {
                    return Err(IssuerError::for_id(ErrorKind::NotFound, rid.0.as_str()));
                },
            };
            if !self.wallet.rev_reg_privs.contains(rid.0.as_str()) {
                return Err(IssuerError::for_id(ErrorKind::NotFound, rid.0.as_str()));
            }
            let mut info = match self.wallet.rev_reg_infos.get(rid.0.as_str()) {
                Some(i) => i.clone(),
                None => {
                    return Err(IssuerError::for_id(ErrorKind::NotFound, rid.0.as_str()));
                },
            };
            let idx = match info.allocate_next(def.value.max_cred_num) {
                Ok(i) => i,
                Err(e) => {
                    return Err(e);
                },
            };
            info.apply_issuance(def.value.issuance_type, idx);
            if tails_reader.is_none() {
                return Err(IssuerError::for_id(ErrorKind::InvalidStructure, rid.0.as_str()));
            }
            if let Err(e) = self.tails.open_reader(
                def.value.tails_location.as_str(),
                def.value.tails_hash.as_str(),
            ) {
                return Err(e);
            }
            bound = Some((def, reg.value, idx, info));
        }
        let blinded = match primitives::parse_blinded_secrets(cred_request.blinded_ms.as_str()) {
            Some(b) => b,
            None => {
                return Err(
                    IssuerError::for_id(
                        ErrorKind::SerializationFailed,
                        cred_request.cred_def_id.0.as_str(),
                    ),
                );
            },
        };
        let blinded_proof = match primitives::parse_blinded_proof(
            cred_request.blinded_ms_correctness_proof.as_str(),
        ) {
            Some(b) => b,
            None => {
                return Err(
                    IssuerError::for_id(
                        ErrorKind::SerializationFailed,
                        cred_request.cred_def_id.0.as_str(),
                    ),
                );
            },
        };
        let offer_nonce = match primitives::parse_nonce(cred_offer.nonce.as_str()) {
            Some(n) => n,
            None => {
                return Err(
                    IssuerError::for_id(ErrorKind::SerializationFailed, cred_def_id.0.as_str()),
                );
            },
        };
        let request_nonce = match primitives::parse_nonce(cred_request.nonce.as_str()) {
            Some(n) => n,
            None => {
                return Err(
                    IssuerError::for_id(ErrorKind::SerializationFailed, cred_def_id.0.as_str()),
                );
            },
        };
        let pub_key = match primitives::parse_cred_pub_key(
            cred_def.value.primary.as_str(),
            cred_def.value.revocation.as_ref(),
        ) {
            Some(k) => k,
            None => {
                return Err(
                    IssuerError::for_id(ErrorKind::SerializationFailed, cred_def_id.0.as_str()),
                );
            },
        };
        let priv_key = match primitives::parse_cred_priv_key(cred_def_priv.value.as_str()) {
            Some(k) => k,
            None => {
                return Err(
                    IssuerError::for_id(ErrorKind::SerializationFailed, cred_def_id.0.as_str()),
                );
            },
        };
        let pairs = cred_values.encoded_pairs();
        let values = match primitives::build_credential_values(&pairs) {
            Some(v) => v,
            None => {
                return Err(
                    IssuerError::for_id(ErrorKind::SerializationFailed, cred_def_id.0.as_str()),
                );
            },
        };
        match bound {
            Some((def, old_accum, idx, info)) => {
                let rid = match rev_reg_id {
                    Some(rid) => rid,
                    None => {
                        return Err(IssuerError::new(ErrorKind::InvalidState));
                    },
                };
                let bundle = match self.wallet.rev_reg_privs.get(rid.0.as_str()) {
                    Some(b) => b,
                    None => {
                        return Err(IssuerError::for_id(ErrorKind::InvalidState, rid.0.as_str()));
                    },
                };
                if bundle.capacity() != def.value.max_cred_num {
                    return Err(IssuerError::for_id(ErrorKind::InvalidState, rid.0.as_str()));
                }
                let rev_key_priv = match primitives::parse_rev_key_private(bundle.key().as_str()) {
                    Some(k) => k,
                    None => {
                        return Err(
                            IssuerError::for_id(ErrorKind::SerializationFailed, rid.0.as_str()),
                        );
                    },
                };
                let by_default = def.value.issuance_type.to_bool();
                let (sig, sig_proof, new_accum) = match primitives::sign_credential_with_revoc(
                    cred_request.prover_did.0.as_str(),
                    &blinded,
                    &blinded_proof,
                    &offer_nonce,
                    &request_nonce,
                    &values,
                    &pub_key,
                    &priv_key,
                    idx,
                    def.value.max_cred_num,
                    by_default,
                    old_accum.as_str(),
                    &rev_key_priv,
                    bundle.generator(),
                ) {
                    Some(t) => t,
                    None => {
                        return Err(
                            IssuerError::for_id(ErrorKind::IssuanceFailed, rid.0.as_str()),
                        );
                    },
                };
                let used = info.used_ids.to_vec();
                if !indices_in_range(&used, def.value.max_cred_num) {
                    return Err(IssuerError::for_id(ErrorKind::InvalidState, rid.0.as_str()));
                }
                let empty: Vec<u32> = Vec::new();
                let witness = match (if def.value.issuance_type
                    == IssuanceType::ISSUANCE_ON_DEMAND {
                    primitives::compute_witness(
                        idx,
                        def.value.max_cred_num,
                        by_default,
                        new_accum.as_str(),
                        &used,
                        &empty,
                        bundle.generator(),
                    )
                } else {
                    primitives::compute_witness(
                        idx,
                        def.value.max_cred_num,
                        by_default,
                        new_accum.as_str(),
                        &empty,
                        &used,
                        bundle.generator(),
                    )
                }) {
                    Some(w) => w,
                    None => {
                        return Err(
                            IssuerError::for_id(ErrorKind::IssuanceFailed, rid.0.as_str()),
                        );
                    },
                };
                let cred_rev_reg_id = match &cred_offer.method_name {
                    Some(_) => Some(rid.to_unqualified()),
                    None => Some(RevocationRegistryId(rid.0.clone())),
                };
                let delta = if def.value.issuance_type == IssuanceType::ISSUANCE_ON_DEMAND {
                    let mut issued = IndexSet::new();
                    issued.insert(idx);
                    Some(
                        RevocationRegistryDelta::RevocationRegistryDeltaV1(
                            RevocationRegistryDeltaV1 {
                                value: RevocationRegistryDeltaValue {
                                    prev_accum: Some(old_accum),
                                    accum: new_accum.clone(),
                                    issued,
                                    revoked: IndexSet::new(),
                                },
                            },
                        ),
                    )
                } else {
                    None
                };
                let credential = Credential {
                    schema_id: SchemaId(cred_offer.schema_id.0.clone()),
                    cred_def_id: CredentialDefinitionId(cred_offer.cred_def_id.0.clone()),
                    rev_reg_id: cred_rev_reg_id,
                    values: cred_values.clone(),
                    signature: sig,
                    signature_correctness_proof: sig_proof,
                    rev_reg: Some(new_accum.clone()),
                    witness: Some(witness),
                };
                // Only now, with every fallible step behind, the registry
                // and its bookkeeping are persisted together.
                self.wallet.rev_regs.update(rid.0.as_str(), RevocationRegistryV1 { value: new_accum });
                self.wallet.rev_reg_infos.update(rid.0.as_str(), info);
                Ok((credential, Some(u32_to_dec(idx)), delta))
            },
            None => {
                let (sig, sig_proof) = match primitives::sign_credential(
                    cred_request.prover_did.0.as_str(),
                    &blinded,
                    &blinded_proof,
                    &offer_nonce,
                    &request_nonce,
                    &values,
                    &pub_key,
                    &priv_key,
                ) {
                    Some(t) => t,
                    None => {
                        return Err(
                            IssuerError::for_id(
                                ErrorKind::IssuanceFailed,
                                cred_def_id.0.as_str(),
                            ),
                        );
                    },
                };
                let credential = Credential {
                    schema_id: SchemaId(cred_offer.schema_id.0.clone()),
                    cred_def_id: CredentialDefinitionId(cred_offer.cred_def_id.0.clone()),
                    rev_reg_id: None,
                    values: cred_values.clone(),
                    signature: sig,
                    signature_correctness_proof: sig_proof,
                    rev_reg: None,
                    witness: None,
                };
                Ok((credential, None, None))
            },
        }
    }

    /// Revokes an issued index: parses the external decimal index, applies
    /// the revocation-side policy toggle, lets the primitive remove the
    /// index's tail from the accumulator, and persists the registry and
    /// bookkeeping together. The delta revokes exactly the index; the
    /// high-water mark never changes, so revocation frees no capacity.
    pub fn revoke_credential(&mut self, rev_reg_id: &RevocationRegistryId, cred_revoc_id: &str)
        -> (r: Result<RevocationRegistryDelta, IssuerError>)
        ensures
            final(self).tails@ == old(self).tails@,
            final(self).wallet.schemas@ == old(self).wallet.schemas@,
            final(self).wallet.schema_ids@ == old(self).wallet.schema_ids@,
            final(self).wallet.cred_defs@ == old(self).wallet.cred_defs@,
            final(self).wallet.cred_def_privs@ == old(self).wallet.cred_def_privs@,
            final(self).wallet.cred_def_proofs@ == old(self).wallet.cred_def_proofs@,
            final(self).wallet.temp_cred_defs@ == old(self).wallet.temp_cred_defs@,
            final(self).wallet.rev_reg_defs@ == old(self).wallet.rev_reg_defs@,
            final(self).wallet.rev_reg_privs@ == old(self).wallet.rev_reg_privs@,
            !rev_id_parses(cred_revoc_id@) ==> (r matches Err(e) && e.kind
                == ErrorKind::InvalidUserRevocId),
            (rev_id_parses(cred_revoc_id@) && !registry_records_present(
                old(self).wallet,
                rev_reg_id.0@,
            )) ==> (r matches Err(e) && e.kind == ErrorKind::NotFound),
            (revoke_ready(old(self).wallet, old(self).tails@, rev_reg_id.0@, cred_revoc_id@)
                && !revoke_in_range(old(self).wallet, rev_reg_id.0@, cred_revoc_id@)) ==> (
            r matches Err(e) && e.kind == ErrorKind::InvalidUserRevocId),
            (revoke_ready(old(self).wallet, old(self).tails@, rev_reg_id.0@, cred_revoc_id@)
                && revoke_in_range(old(self).wallet, rev_reg_id.0@, cred_revoc_id@)
                && !revoke_consistent(old(self).wallet, rev_reg_id.0@, cred_revoc_id@)) ==> (
            r matches Err(e) && e.kind == ErrorKind::InvalidUserRevocId),
            revoke_applies(old(self).wallet, old(self).tails@, rev_reg_id.0@, cred_revoc_id@)
                ==> (r is Ok <==> revoke_result(
                old(self).wallet,
                rev_reg_id.0@,
                cred_revoc_id@,
            ) is Some),
            match r {
                Ok(RevocationRegistryDelta::RevocationRegistryDeltaV1(dl)) => {
                    let rid = rev_reg_id.0@;
                    let old_info = old(self).wallet.rev_reg_infos@[rid];
                    let pol = old(self).wallet.rev_reg_defs@[rid].value.issuance_type;
                    let maxc = old(self).wallet.rev_reg_defs@[rid].value.max_cred_num;
                    let idx = crate::numstr::dec_value(cred_revoc_id@) as u32;
                    &&& rev_id_parses(cred_revoc_id@)
                    &&& registry_records_present(old(self).wallet, rid)
                    &&& crate::numstr::dec_value(cred_revoc_id@) <= maxc as nat + 1
                    &&& (pol == IssuanceType::ISSUANCE_ON_DEMAND ==> old_info.used_ids@.contains(
                        idx,
                    ) && final(self).wallet.rev_reg_infos@[rid].used_ids@
                        == old_info.used_ids@.remove(idx))
                    &&& (pol == IssuanceType::ISSUANCE_BY_DEFAULT ==> !old_info.used_ids@.contains(
                        idx,
                    ) && final(self).wallet.rev_reg_infos@[rid].used_ids@
                        == old_info.used_ids@.insert(idx))
                    &&& dl.value.revoked@ == Set::<u32>::empty().insert(idx)
                    &&& dl.value.issued@ == Set::<u32>::empty()
                    &&& final(self).wallet.rev_reg_infos@.contains_key(rid)
                    &&& final(self).wallet.rev_reg_infos@ == old(self).wallet.rev_reg_infos@.insert(rid, final(self).wallet.rev_reg_infos@[rid])
                    &&& final(self).wallet.rev_reg_infos@[rid].curr_id == old_info.curr_id
                    &&& final(self).wallet.rev_regs@.contains_key(rid)
                    &&& final(self).wallet.rev_regs@ == old(self).wallet.rev_regs@.insert(
                        rid,
                        final(self).wallet.rev_regs@[rid],
                    )
                    &&& (dl.value.prev_accum matches Some(p) && p@ == old(self).wallet.rev_regs@[rid].value@)
                    &&& dl.value.accum@ == final(self).wallet.rev_regs@[rid].value@
                    &&& Some(dl.value.accum@) == revoke_result(
                        old(self).wallet,
                        rid,
                        cred_revoc_id@,
                    )
                },
                Err(e) => {
                    &&& final(self).wallet.rev_regs@ == old(self).wallet.rev_regs@
                    &&& final(self).wallet.rev_reg_infos@ == old(self).wallet.rev_reg_infos@
                    &&& (e.kind == ErrorKind::InvalidUserRevocId || e.kind == ErrorKind::NotFound
                        || e.kind == ErrorKind::InvalidStructure || e.kind
                        == ErrorKind::InvalidState || e.kind == ErrorKind::IssuanceFailed)
                },
            },
    {
        let idx = match crate::numstr::parse_cred_rev_id(cred_revoc_id) {
            Ok(i) => i,
            Err(e) => {
                return Err(e);
            },
        };
        let rid = rev_reg_id;
        let def = match self.wallet.rev_reg_defs.get(rid.0.as_str()) {
            Some(d) => d.clone(),
            None => {
                return Err(IssuerError::for_id(ErrorKind::NotFound, rid.0.as_str()));
            },
        };
        let reg = match self.wallet.rev_regs.get(rid.0.as_str()) {
            Some(g) => g.clone(),
            None => {
                return Err(IssuerError::for_id(ErrorKind::NotFound, rid.0.as_str()));
            },
        };
        if !self.wallet.rev_reg_privs.contains(rid.0.as_str()) {
            return Err(IssuerError::for_id(ErrorKind::NotFound, rid.0.as_str()));
        }
        let mut info = match self.wallet.rev_reg_infos.get(rid.0.as_str()) {
            Some(i) => i.clone(),
            None => {
                return Err(IssuerError::for_id(ErrorKind::NotFound, rid.0.as_str()));
            },
        };
        if let Err(e) = self.tails.open_reader(
            def.value.tails_location.as_str(),
            def.value.tails_hash.as_str(),
        ) {
            return Err(e);
        }
        if (idx as u64) > (def.value.max_cred_num as u64) + 1 {
            return Err(IssuerError::for_index(ErrorKind::InvalidUserRevocId, idx));
        }
        if let Err(e) = info.apply_revocation(def.value.issuance_type, idx) {
            return Err(e);
        }
        let bundle = match self.wallet.rev_reg_privs.get(rid.0.as_str()) {
            Some(b) => b,
            None => {
                return Err(IssuerError::for_id(ErrorKind::InvalidState, rid.0.as_str()));
            },
        };
        if bundle.capacity() != def.value.max_cred_num {
            return Err(IssuerError::for_id(ErrorKind::InvalidState, rid.0.as_str()));
        }
        let new_accum = match primitives::revoke(
            reg.value.as_str(),
            def.value.max_cred_num,
            idx,
            bundle.generator(),
        ) {
            Some(a) => a,
            None => {
                return Err(IssuerError::for_id(ErrorKind::IssuanceFailed, rid.0.as_str()));
            },
        };
        let mut revoked = IndexSet::new();
        revoked.insert(idx);
        let delta = RevocationRegistryDeltaV1 {
            value: RevocationRegistryDeltaValue {
                prev_accum: Some(reg.value),
                accum: new_accum.clone(),
                issued: IndexSet::new(),
                revoked,
            },
        };
        self.wallet.rev_regs.update(rid.0.as_str(), RevocationRegistryV1 { value: new_accum });
        self.wallet.rev_reg_infos.update(rid.0.as_str(), info);
        Ok(RevocationRegistryDelta::RevocationRegistryDeltaV1(delta))
    }

    /// Merges a later delta into an earlier one of the same registry and
    /// returns the merged delta; the issued/revoked sets combine so the
    /// result reflects applying the later delta's changes after the
    /// earlier one's. This layer does not itself verify that both describe
    /// the same registry.
    pub fn merge_revocation_registry_deltas(
        &self,
        rev_reg_delta: &mut RevocationRegistryDeltaV1,
        other_rev_reg_delta: &RevocationRegistryDeltaV1,
    ) -> (r: Result<RevocationRegistryDelta, IssuerError>)
        ensures
            match r {
                Ok(RevocationRegistryDelta::RevocationRegistryDeltaV1(dl)) => {
                    &&& (other_rev_reg_delta.value.prev_accum matches Some(p) && p@ == old(rev_reg_delta).value.accum@)
                    &&& final(rev_reg_delta).value.accum@ == other_rev_reg_delta.value.accum@
                    &&& final(rev_reg_delta).value.issued@ == crate::delta::merged_issued(
                        old(rev_reg_delta).value.issued@,
                        old(rev_reg_delta).value.revoked@,
                        other_rev_reg_delta.value.issued@,
                        other_rev_reg_delta.value.revoked@,
                    )
                    &&& final(rev_reg_delta).value.revoked@ == crate::delta::merged_revoked(
                        old(rev_reg_delta).value.issued@,
                        old(rev_reg_delta).value.revoked@,
                        other_rev_reg_delta.value.issued@,
                        other_rev_reg_delta.value.revoked@,
                    )
                    &&& dl.value.accum@ == final(rev_reg_delta).value.accum@
                    &&& dl.value.issued@ == final(rev_reg_delta).value.issued@
                    &&& dl.value.revoked@ == final(rev_reg_delta).value.revoked@
                },
                Err(e) => {
                    &&& !(other_rev_reg_delta.value.prev_accum matches Some(p) && p@ == old(rev_reg_delta).value.accum@)
                    &&& e.kind == ErrorKind::InvalidStructure
                    &&& *final(rev_reg_delta) == *old(rev_reg_delta)
                },
            },
    {
        if let Err(e) = rev_reg_delta.value.merge(&other_rev_reg_delta.value) {
            return Err(e);
        }
        let merged = rev_reg_delta.clone();
        Ok(RevocationRegistryDelta::RevocationRegistryDeltaV1(merged))
    }
}

/// Whether two credential definitions carry the same id, schema, type, tag
/// and public value.
pub open spec fn cred_def_matches(a: CredentialDefinition, b: CredentialDefinition) -> bool {
    a matches CredentialDefinition::CredentialDefinitionV1(av)
        && b matches CredentialDefinition::CredentialDefinitionV1(bv) && av.id.0@ == bv.id.0@
        && av.schema_id.0@ == bv.schema_id.0@ && av.signature_type == bv.signature_type && av.tag@
        == bv.tag@ && av.value == bv.value
}

} // verus!
