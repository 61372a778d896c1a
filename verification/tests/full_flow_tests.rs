//! One full issuance lifecycle against the real cryptographic primitive:
//! key generation, registry creation, an offer, a holder-side blinded
//! request, signing with a revocation binding, witness computation, the
//! committed bookkeeping, and a revocation.

use anoncreds_issuer::cred_def::{CredentialDefinition, CredentialDefinitionConfig};
use anoncreds_issuer::credential::{
    AttributeValues, CredentialAttrValues, CredentialRequest,
};
use anoncreds_issuer::delta::RevocationRegistryDelta;
use anoncreds_issuer::errors::ErrorKind;
use anoncreds_issuer::ids::{DidValue, SchemaId};
use anoncreds_issuer::issuer::IssuerCommandExecutor;
use anoncreds_issuer::registry::{IssuanceType, RevocationRegistryConfig};
use anoncreds_issuer::schema::{AttributeNames, SchemaV1};
use anoncreds_issuer::tails::TailsStore;
use anoncreds_issuer::wallet::WalletCommandExecutor;

#[test]
fn rotation_stages_fresh_keys_and_promotes_them() {
    // The live definition and its schema are laid into the store directly,
    // so the one expensive key generation in this test is the rotation
    // staging itself.
    let mut exec = IssuerCommandExecutor::new(WalletCommandExecutor::new(), TailsStore::new());
    let cd_id = anoncreds_issuer::ids::CredentialDefinitionId(
        "NcYxiDXkpYi6ov5FcYDi1e:3:CL:55:tag".to_string(),
    );
    let live = anoncreds_issuer::cred_def::CredentialDefinitionV1 {
        id: anoncreds_issuer::ids::CredentialDefinitionId(cd_id.0.clone()),
        schema_id: SchemaId("55".to_string()),
        signature_type: anoncreds_issuer::cred_def::SignatureType::CL,
        tag: "tag".to_string(),
        value: anoncreds_issuer::cred_def::CredentialDefinitionData {
            primary: "live-primary".to_string(),
            revocation: None,
        },
    };
    exec.wallet.cred_defs.add(cd_id.0.as_str(), live);
    exec.wallet.cred_def_privs.add(
        cd_id.0.as_str(),
        anoncreds_issuer::cred_def::CredentialDefinitionPrivateKey {
            value: "live-priv".to_string(),
        },
    );
    exec.wallet.cred_def_proofs.add(
        cd_id.0.as_str(),
        anoncreds_issuer::cred_def::CredentialDefinitionCorrectnessProof {
            value: "live-proof".to_string(),
        },
    );
    let schema = SchemaV1 {
        id: SchemaId("55".to_string()),
        name: "gvt".to_string(),
        version: "1.0".to_string(),
        attr_names: AttributeNames(vec!["name".to_string()]),
        seq_no: Some(55),
    };
    exec.wallet.schemas.add("55", schema);

    // Staging generates fresh keys; the live definition stays usable.
    let CredentialDefinition::CredentialDefinitionV1(staged) =
        exec.rotate_credential_definition_start(&cd_id, None).unwrap();
    assert_ne!(staged.value.primary, "live-primary");
    assert!(staged.value.revocation.is_none());
    assert_eq!(staged.id.0, cd_id.0);
    let stored = exec.wallet.cred_defs.get(cd_id.0.as_str()).unwrap();
    assert_eq!(stored.value.primary, "live-primary");

    // A repeated start returns the same staged key material, with no new
    // key generation.
    let CredentialDefinition::CredentialDefinitionV1(staged2) =
        exec.rotate_credential_definition_start(&cd_id, None).unwrap();
    assert_eq!(staged2.value.primary, staged.value.primary);

    // The apply promotes the staged triple and deletes the staging record.
    exec.rotate_credential_definition_apply(&cd_id).unwrap();
    let stored = exec.wallet.cred_defs.get(cd_id.0.as_str()).unwrap();
    assert_eq!(stored.value.primary, staged.value.primary);
    assert!(exec.wallet.temp_cred_defs.get(cd_id.0.as_str()).is_none());
    assert_eq!(
        exec.rotate_credential_definition_apply(&cd_id).unwrap_err().kind,
        ErrorKind::NotFound
    );
}

#[test]
fn full_issuance_and_revocation_flow() {
    let mut exec = IssuerCommandExecutor::new(WalletCommandExecutor::new(), TailsStore::new());
    let did = DidValue("NcYxiDXkpYi6ov5FcYDi1e".to_string());

    // Real definition keys, with revocation support.
    let schema = SchemaV1 {
        id: SchemaId("NcYxiDXkpYi6ov5FcYDi1e:2:gvt:1.0".to_string()),
        name: "gvt".to_string(),
        version: "1.0".to_string(),
        attr_names: AttributeNames(vec!["name".to_string()]),
        seq_no: Some(55),
    };
    let (cd_id, cred_def) = exec
        .create_and_store_credential_definition(
            &did,
            schema,
            "tag",
            None,
            Some(CredentialDefinitionConfig { support_revocation: true }),
        )
        .unwrap();

    // A capacity-two on-demand registry over those keys.
    let cfg = RevocationRegistryConfig {
        issuance_type: Some(IssuanceType::ISSUANCE_ON_DEMAND),
        max_cred_num: Some(2),
    };
    let (rid, reg_def, _reg) = exec
        .create_and_store_revocation_registry(&did, None, "TAG_1", &cd_id, &cfg)
        .unwrap();

    let offer = exec.create_credential_offer(&cd_id).unwrap();

    // The holder blinds a master secret against the offer.
    let CredentialDefinition::CredentialDefinitionV1(d) = cred_def;
    let primary: ursa::cl::CredentialPrimaryPublicKey =
        serde_json::from_str(&d.value.primary).unwrap();
    let revocation: ursa::cl::CredentialRevocationPublicKey =
        serde_json::from_str(d.value.revocation.as_ref().unwrap()).unwrap();
    let pub_key =
        ursa::cl::CredentialPublicKey::build_from_parts(&primary, Some(&revocation)).unwrap();
    let key_proof: ursa::cl::CredentialKeyCorrectnessProof =
        serde_json::from_str(&offer.key_correctness_proof).unwrap();
    let offer_nonce: ursa::cl::Nonce = serde_json::from_str(&offer.nonce).unwrap();
    let master_secret = ursa::cl::prover::Prover::new_master_secret().unwrap();
    let mut vb = ursa::cl::issuer::Issuer::new_credential_values_builder().unwrap();
    vb.add_value_hidden("master_secret", &master_secret.value().unwrap()).unwrap();
    vb.add_dec_known("name", "1139481716457488690172217916278103335").unwrap();
    let holder_values = vb.finalize().unwrap();
    let (blinded, _factors, blinded_proof) = ursa::cl::prover::Prover::blind_credential_secrets(
        &pub_key,
        &key_proof,
        &holder_values,
        &offer_nonce,
    )
    .unwrap();
    let request_nonce = ursa::cl::new_nonce().unwrap();
    let request = CredentialRequest {
        prover_did: DidValue("VsKV7grR1BUE29mG2Fm2kX".to_string()),
        cred_def_id: cd_id,
        blinded_ms: serde_json::to_string(&blinded).unwrap(),
        blinded_ms_correctness_proof: serde_json::to_string(&blinded_proof).unwrap(),
        nonce: serde_json::to_string(&request_nonce).unwrap(),
    };
    let values = CredentialAttrValues(vec![(
        "name".to_string(),
        AttributeValues {
            raw: "Alex".to_string(),
            encoded: "1139481716457488690172217916278103335".to_string(),
        },
    )]);

    // Issue against the registry; the first index is 1, returned in its
    // decimal form, and the delta issues exactly it.
    let anoncreds_issuer::registry::RevocationRegistryDefinition::RevocationRegistryDefinitionV1(
        rd,
    ) = reg_def;
    let reader = exec
        .tails
        .open_reader(rd.value.tails_location.as_str(), rd.value.tails_hash.as_str())
        .unwrap();
    let (credential, cred_rev_id, delta) = exec
        .new_credential(&offer, &request, &values, Some(&rid), Some(&reader))
        .unwrap();
    assert_eq!(cred_rev_id.unwrap(), "1");
    assert!(credential.signature.len() > 2);
    assert!(credential.witness.is_some());
    assert!(credential.rev_reg.is_some());
    assert_eq!(credential.rev_reg_id.as_ref().unwrap().0, rid.0);
    let RevocationRegistryDelta::RevocationRegistryDeltaV1(dl) = delta.unwrap();
    assert_eq!(dl.value.issued.to_vec(), vec![1]);
    assert!(dl.value.revoked.to_vec().is_empty());
    let info = exec.wallet.rev_reg_infos.get(rid.0.as_str()).unwrap();
    assert_eq!(info.curr_id, 1);
    assert_eq!(info.used_ids.to_vec(), vec![1]);

    // A missing tails reader is rejected before anything is persisted.
    let e = exec.new_credential(&offer, &request, &values, Some(&rid), None).unwrap_err();
    assert_eq!(e.kind, ErrorKind::InvalidStructure);
    let info = exec.wallet.rev_reg_infos.get(rid.0.as_str()).unwrap();
    assert_eq!(info.curr_id, 1);

    // Revoke the issued index: the delta revokes exactly it and the
    // high-water mark stays.
    let delta2 = exec.revoke_credential(&rid, "1").unwrap();
    let RevocationRegistryDelta::RevocationRegistryDeltaV1(dl2) = delta2;
    assert_eq!(dl2.value.revoked.to_vec(), vec![1]);
    assert!(dl2.value.issued.to_vec().is_empty());
    let info = exec.wallet.rev_reg_infos.get(rid.0.as_str()).unwrap();
    assert_eq!(info.curr_id, 1);
    assert!(info.used_ids.to_vec().is_empty());
}
