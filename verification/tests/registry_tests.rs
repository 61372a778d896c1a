//! Scenario tests of registry creation, issuance bookkeeping and
//! revocation, run against the real cryptographic primitive. The
//! credential definition's key material is fabricated from random group
//! points: structurally valid for the accumulator mathematics, while the
//! expensive primary key generation stays out of the tests.

use anoncreds_issuer::cred_def::{
    CredentialDefinitionData, CredentialDefinitionV1, SignatureType,
};
use anoncreds_issuer::errors::ErrorKind;
use anoncreds_issuer::ids::{CredentialDefinitionId, DidValue, SchemaId};
use anoncreds_issuer::index_set::IndexSet;
use anoncreds_issuer::issuer::IssuerCommandExecutor;
use anoncreds_issuer::registry::{
    IssuanceType, RevocationRegistry, RevocationRegistryConfig, RevocationRegistryDefinition,
    RevocationRegistryInfo,
};
use anoncreds_issuer::tails::TailsStore;
use anoncreds_issuer::wallet::WalletCommandExecutor;
use serde_json::Value;

fn bn(v: &str) -> Value {
    Value::String(v.to_string())
}

fn g1() -> Value {
    serde_json::to_value(&ursa::pair::PointG1::new().unwrap()).unwrap()
}

fn g2() -> Value {
    serde_json::to_value(&ursa::pair::PointG2::new().unwrap()).unwrap()
}

fn fabricated_primary() -> String {
    let mut r = serde_json::Map::new();
    r.insert("name".to_string(), bn("3"));
    r.insert("master_secret".to_string(), bn("3"));
    let mut m = serde_json::Map::new();
    m.insert("n".to_string(), bn("7"));
    m.insert("s".to_string(), bn("2"));
    m.insert("r".to_string(), Value::Object(r));
    m.insert("rctxt".to_string(), bn("2"));
    m.insert("z".to_string(), bn("2"));
    serde_json::to_string(&Value::Object(m)).unwrap()
}

fn fabricated_revocation() -> String {
    let mut m = serde_json::Map::new();
    for k in ["g", "h", "h0", "h1", "h2", "htilde", "pk"] {
        m.insert(k.to_string(), g1());
    }
    for k in ["g_dash", "h_cap", "u", "y"] {
        m.insert(k.to_string(), g2());
    }
    serde_json::to_string(&Value::Object(m)).unwrap()
}

fn did() -> DidValue {
    DidValue("NcYxiDXkpYi6ov5FcYDi1e".to_string())
}

fn cred_def_id() -> CredentialDefinitionId {
    CredentialDefinitionId("NcYxiDXkpYi6ov5FcYDi1e:3:CL:55:tag".to_string())
}

fn executor_with_cred_def() -> IssuerCommandExecutor {
    let mut exec = IssuerCommandExecutor::new(WalletCommandExecutor::new(), TailsStore::new());
    let id = cred_def_id();
    let def = CredentialDefinitionV1 {
        id: CredentialDefinitionId(id.0.clone()),
        schema_id: SchemaId("55".to_string()),
        signature_type: SignatureType::CL,
        tag: "tag".to_string(),
        value: CredentialDefinitionData {
            primary: fabricated_primary(),
            revocation: Some(fabricated_revocation()),
        },
    };
    exec.wallet.cred_defs.add(id.0.as_str(), def);
    exec
}

fn config(policy: IssuanceType, max: u32) -> RevocationRegistryConfig {
    RevocationRegistryConfig { issuance_type: Some(policy), max_cred_num: Some(max) }
}

#[test]
fn config_validate_rejects_zero_capacity() {
    let c = RevocationRegistryConfig { issuance_type: None, max_cred_num: Some(0) };
    assert_eq!(c.validate().unwrap_err().kind, ErrorKind::InvalidStructure);
    let ok = RevocationRegistryConfig { issuance_type: None, max_cred_num: None };
    assert!(ok.validate().is_ok());
}

#[test]
fn create_registry_works_and_is_idempotent() {
    // Creating the same (issuer, cred def, type, tag) registry twice
    // returns the identical definition and registry, and leaves the
    // bookkeeping untouched.
    let mut exec = executor_with_cred_def();
    let c = config(IssuanceType::ISSUANCE_ON_DEMAND, 5);
    let (rid, def1, reg1) =
        exec.create_and_store_revocation_registry(&did(), None, "TAG_1", &cred_def_id(), &c).unwrap();
    assert_eq!(
        rid.0,
        "NcYxiDXkpYi6ov5FcYDi1e:4:NcYxiDXkpYi6ov5FcYDi1e:3:CL:55:tag:CL_ACCUM:TAG_1"
    );
    let info = exec.wallet.rev_reg_infos.get(rid.0.as_str()).unwrap();
    assert_eq!(info.curr_id, 0);
    assert_eq!(info.used_ids.len(), 0);
    assert_eq!(exec.tails.len(), 1);
    let RevocationRegistryDefinition::RevocationRegistryDefinitionV1(d1) = def1;
    assert_eq!(d1.value.max_cred_num, 5);
    // The tails blob holds 2 * max + 1 entries and matches the recorded
    // hash and location.
    let reader = exec
        .tails
        .open_reader(d1.value.tails_location.as_str(), d1.value.tails_hash.as_str())
        .unwrap();
    assert!(exec.tails.read(&reader, 10).is_ok());
    assert!(exec.tails.read(&reader, 11).is_err());

    let (rid2, def2, reg2) =
        exec.create_and_store_revocation_registry(&did(), None, "TAG_1", &cred_def_id(), &c).unwrap();
    assert_eq!(rid2.0, rid.0);
    assert_eq!(exec.tails.len(), 1);
    let RevocationRegistryDefinition::RevocationRegistryDefinitionV1(d2) = def2;
    assert_eq!(d2.value.tails_hash, d1.value.tails_hash);
    assert_eq!(d2.value.tails_location, d1.value.tails_location);
    assert_eq!(d2.value.max_cred_num, 5);
    let RevocationRegistry::RevocationRegistryV1(r1) = reg1;
    let RevocationRegistry::RevocationRegistryV1(r2) = reg2;
    assert_eq!(r1.value, r2.value);
    let info2 = exec.wallet.rev_reg_infos.get(rid.0.as_str()).unwrap();
    assert_eq!(info2.curr_id, 0);
}

#[test]
fn create_registry_fails_without_cred_def() {
    let mut exec = IssuerCommandExecutor::new(WalletCommandExecutor::new(), TailsStore::new());
    let c = config(IssuanceType::ISSUANCE_ON_DEMAND, 5);
    let e = exec
        .create_and_store_revocation_registry(&did(), None, "TAG_1", &cred_def_id(), &c)
        .unwrap_err();
    assert_eq!(e.kind, ErrorKind::NotFound);
}

#[test]
fn create_registry_fails_for_definition_without_revocation_support() {
    // The primitive refuses a definition with no revocation key part; the
    // failure surfaces as IssuanceFailed and nothing is stored.
    let mut exec = IssuerCommandExecutor::new(WalletCommandExecutor::new(), TailsStore::new());
    let id = cred_def_id();
    let def = CredentialDefinitionV1 {
        id: CredentialDefinitionId(id.0.clone()),
        schema_id: SchemaId("55".to_string()),
        signature_type: SignatureType::CL,
        tag: "tag".to_string(),
        value: CredentialDefinitionData { primary: fabricated_primary(), revocation: None },
    };
    exec.wallet.cred_defs.add(id.0.as_str(), def);
    let c = config(IssuanceType::ISSUANCE_ON_DEMAND, 5);
    let e = exec
        .create_and_store_revocation_registry(&did(), None, "TAG_1", &id, &c)
        .unwrap_err();
    assert_eq!(e.kind, ErrorKind::IssuanceFailed);
    assert_eq!(exec.tails.len(), 0);
    assert!(exec.wallet.rev_reg_defs.get("any").is_none());
}

#[test]
fn unwrapping_versioned_definitions_works() {
    let mut exec = executor_with_cred_def();
    let c = config(IssuanceType::ISSUANCE_ON_DEMAND, 2);
    let (rid, def, _reg) =
        exec.create_and_store_revocation_registry(&did(), None, "TAG_1", &cred_def_id(), &c).unwrap();
    let list = vec![(rid, def)];
    let v1s = anoncreds_issuer::registry::rev_reg_defs_map_to_rev_reg_defs_v1_map(&list);
    assert_eq!(v1s.len(), 1);
    assert_eq!(v1s[0].0, list[0].0);
    assert_eq!(v1s[0].1.value.max_cred_num, 2);
}

#[test]
fn create_registry_rejects_bad_type_and_config() {
    let mut exec = executor_with_cred_def();
    let c = config(IssuanceType::ISSUANCE_ON_DEMAND, 5);
    let e = exec
        .create_and_store_revocation_registry(&did(), Some("WRONG"), "TAG_1", &cred_def_id(), &c)
        .unwrap_err();
    assert_eq!(e.kind, ErrorKind::InvalidStructure);
    let zero = config(IssuanceType::ISSUANCE_ON_DEMAND, 0);
    let e2 = exec
        .create_and_store_revocation_registry(&did(), None, "TAG_1", &cred_def_id(), &zero)
        .unwrap_err();
    assert_eq!(e2.kind, ErrorKind::InvalidStructure);
    // A capacity whose tails count overflows the primitive's 32-bit
    // arithmetic is rejected before any key generation.
    let huge = config(IssuanceType::ISSUANCE_ON_DEMAND, 0x8000_0000);
    let e3 = exec
        .create_and_store_revocation_registry(&did(), None, "TAG_1", &cred_def_id(), &huge)
        .unwrap_err();
    assert_eq!(e3.kind, ErrorKind::InvalidStructure);
    assert_eq!(exec.tails.len(), 0);
}

/// Allocates the next index through the stored bookkeeping and applies the
/// issuance-side policy toggle, as the issuance path does.
fn issue_bookkeeping(exec: &mut IssuerCommandExecutor, rid: &str, policy: IssuanceType, max: u32) -> Result<u32, anoncreds_issuer::errors::IssuerError> {
    let mut info: RevocationRegistryInfo =
        exec.wallet.rev_reg_infos.get(rid).unwrap().clone();
    let idx = info.allocate_next(max)?;
    info.apply_issuance(policy, idx);
    exec.wallet.rev_reg_infos.update(rid, info);
    Ok(idx)
}

#[test]
fn on_demand_scenario_fills_capacity_and_revokes() {
    // max_cred_num = 5, ON_DEMAND: five issuances allocate 1..5, the sixth
    // fails RegistryFull, revoking 3 succeeds and loses 3 from used_ids,
    // and a further issuance still fails RegistryFull: revocation frees no
    // capacity.
    let mut exec = executor_with_cred_def();
    let c = config(IssuanceType::ISSUANCE_ON_DEMAND, 5);
    let (rid, _d, _g) =
        exec.create_and_store_revocation_registry(&did(), None, "TAG_1", &cred_def_id(), &c).unwrap();
    let mut allocated: Vec<u32> = Vec::new();
    for _ in 0..5 {
        let idx = issue_bookkeeping(&mut exec, rid.0.as_str(), IssuanceType::ISSUANCE_ON_DEMAND, 5)
            .unwrap();
        allocated.push(idx);
    }
    assert_eq!(allocated, vec![1, 2, 3, 4, 5]);
    let info = exec.wallet.rev_reg_infos.get(rid.0.as_str()).unwrap();
    assert_eq!(info.curr_id, 5);
    assert_eq!(info.used_ids.to_vec(), vec![1, 2, 3, 4, 5]);

    let e = issue_bookkeeping(&mut exec, rid.0.as_str(), IssuanceType::ISSUANCE_ON_DEMAND, 5)
        .unwrap_err();
    assert_eq!(e.kind, ErrorKind::RegistryFull);

    // Revoke index 3: the delta revokes exactly {3}, used_ids loses 3, the
    // high-water mark stays 5.
    let delta = exec.revoke_credential(&rid, "3").unwrap();
    let anoncreds_issuer::delta::RevocationRegistryDelta::RevocationRegistryDeltaV1(dl) = delta;
    assert_eq!(dl.value.revoked.to_vec(), vec![3]);
    assert!(dl.value.issued.to_vec().is_empty());
    assert!(dl.value.prev_accum.is_some());
    let info = exec.wallet.rev_reg_infos.get(rid.0.as_str()).unwrap();
    assert_eq!(info.curr_id, 5);
    assert_eq!(info.used_ids.to_vec(), vec![1, 2, 4, 5]);

    // Revocation did not free capacity.
    let e2 = issue_bookkeeping(&mut exec, rid.0.as_str(), IssuanceType::ISSUANCE_ON_DEMAND, 5)
        .unwrap_err();
    assert_eq!(e2.kind, ErrorKind::RegistryFull);
    let info = exec.wallet.rev_reg_infos.get(rid.0.as_str()).unwrap();
    assert_eq!(info.curr_id, 5);
}

#[test]
fn issuance_allocates_distinct_increasing_indices() {
    // For capacity N, N allocations yield the distinct strictly increasing
    // indices 1..N and the (N + 1)-th fails RegistryFull.
    let mut info = RevocationRegistryInfo {
        id: anoncreds_issuer::ids::RevocationRegistryId("r".to_string()),
        curr_id: 0,
        used_ids: IndexSet::new(),
    };
    let n: u32 = 4;
    let mut last: u32 = 0;
    for i in 1..=n {
        let idx = info.allocate_next(n).unwrap();
        assert_eq!(idx, i);
        assert!(idx > last);
        last = idx;
    }
    let e = info.allocate_next(n).unwrap_err();
    assert_eq!(e.kind, ErrorKind::RegistryFull);
    assert_eq!(info.curr_id, n);
}

#[test]
fn on_demand_revoking_unissued_index_fails() {
    // ON_DEMAND: revoking an index that was never issued fails
    // InvalidUserRevocId and changes nothing.
    let mut exec = executor_with_cred_def();
    let c = config(IssuanceType::ISSUANCE_ON_DEMAND, 5);
    let (rid, _d, _g) =
        exec.create_and_store_revocation_registry(&did(), None, "TAG_1", &cred_def_id(), &c).unwrap();
    let e = exec.revoke_credential(&rid, "2").unwrap_err();
    assert_eq!(e.kind, ErrorKind::InvalidUserRevocId);
    let info = exec.wallet.rev_reg_infos.get(rid.0.as_str()).unwrap();
    assert_eq!(info.curr_id, 0);
    assert_eq!(info.used_ids.len(), 0);
}

#[test]
fn by_default_revoking_twice_fails_second_time() {
    // BY_DEFAULT: revoking the same index twice in a row fails
    // InvalidUserRevocId on the second call.
    let mut exec = executor_with_cred_def();
    let c = config(IssuanceType::ISSUANCE_BY_DEFAULT, 5);
    let (rid, _d, _g) =
        exec.create_and_store_revocation_registry(&did(), None, "TAG_1", &cred_def_id(), &c).unwrap();
    let delta = exec.revoke_credential(&rid, "1").unwrap();
    let anoncreds_issuer::delta::RevocationRegistryDelta::RevocationRegistryDeltaV1(dl) = delta;
    assert_eq!(dl.value.revoked.to_vec(), vec![1]);
    let e = exec.revoke_credential(&rid, "1").unwrap_err();
    assert_eq!(e.kind, ErrorKind::InvalidUserRevocId);
    let info = exec.wallet.rev_reg_infos.get(rid.0.as_str()).unwrap();
    assert_eq!(info.used_ids.to_vec(), vec![1]);
    assert_eq!(info.curr_id, 0);
}

#[test]
fn revoke_rejects_unparsable_and_out_of_range_ids() {
    let mut exec = executor_with_cred_def();
    let c = config(IssuanceType::ISSUANCE_BY_DEFAULT, 5);
    let (rid, _d, _g) =
        exec.create_and_store_revocation_registry(&did(), None, "TAG_1", &cred_def_id(), &c).unwrap();
    assert_eq!(
        exec.revoke_credential(&rid, "nope").unwrap_err().kind,
        ErrorKind::InvalidUserRevocId
    );
    assert_eq!(
        exec.revoke_credential(&rid, "7").unwrap_err().kind,
        ErrorKind::InvalidUserRevocId
    );
    assert_eq!(
        exec.revoke_credential(&rid, "99999999999999999999").unwrap_err().kind,
        ErrorKind::InvalidUserRevocId
    );
}
