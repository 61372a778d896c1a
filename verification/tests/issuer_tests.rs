//! Tests of schema creation, the credential definition manager's
//! two-phase rotation, offers, and the issuance orchestration's
//! validation-before-mutation behavior.

use anoncreds_issuer::cred_def::{
    CredentialDefinition, CredentialDefinitionCorrectnessProof, CredentialDefinitionData,
    CredentialDefinitionPrivateKey, CredentialDefinitionV1, SignatureType,
    TemporaryCredentialDefinition,
};
use anoncreds_issuer::credential::{CredentialOffer, CredentialRequest, CredentialAttrValues};
use anoncreds_issuer::errors::ErrorKind;
use anoncreds_issuer::ids::{CredentialDefinitionId, DidValue, SchemaId};
use anoncreds_issuer::issuer::IssuerCommandExecutor;
use anoncreds_issuer::schema::{AttributeNames, Schema};
use anoncreds_issuer::tails::TailsStore;
use anoncreds_issuer::wallet::{WalletCommand, WalletCommandExecutor};

fn did() -> DidValue {
    DidValue("NcYxiDXkpYi6ov5FcYDi1e".to_string())
}

fn cred_def_id() -> CredentialDefinitionId {
    CredentialDefinitionId("NcYxiDXkpYi6ov5FcYDi1e:3:CL:55:tag".to_string())
}

fn live_def(primary: &str) -> CredentialDefinitionV1 {
    CredentialDefinitionV1 {
        id: cred_def_id(),
        schema_id: SchemaId("55".to_string()),
        signature_type: SignatureType::CL,
        tag: "tag".to_string(),
        value: CredentialDefinitionData { primary: primary.to_string(), revocation: None },
    }
}

fn executor_with_live_def() -> IssuerCommandExecutor {
    let mut exec = IssuerCommandExecutor::new(WalletCommandExecutor::new(), TailsStore::new());
    let id = cred_def_id();
    exec.wallet.cred_defs.add(id.0.as_str(), live_def("live-primary"));
    exec.wallet.cred_def_privs.add(
        id.0.as_str(),
        CredentialDefinitionPrivateKey { value: "live-priv".to_string() },
    );
    exec.wallet.cred_def_proofs.add(
        id.0.as_str(),
        CredentialDefinitionCorrectnessProof { value: "live-proof".to_string() },
    );
    exec
}

#[test]
fn create_schema_works() {
    let exec = IssuerCommandExecutor::new(WalletCommandExecutor::new(), TailsStore::new());
    let attrs = AttributeNames(vec!["name".to_string(), "age".to_string()]);
    let (id, schema) = exec.create_schema(&did(), "gvt", "1.0", attrs).unwrap();
    assert_eq!(id.0, "NcYxiDXkpYi6ov5FcYDi1e:2:gvt:1.0");
    let Schema::SchemaV1(s) = schema;
    assert_eq!(s.id.0, id.0);
    assert_eq!(s.name, "gvt");
    assert_eq!(s.version, "1.0");
    assert_eq!(s.attr_names.0.len(), 2);
    assert!(s.seq_no.is_none());
}

#[test]
fn create_schema_rejects_invalid_did() {
    let exec = IssuerCommandExecutor::new(WalletCommandExecutor::new(), TailsStore::new());
    let attrs = AttributeNames(vec!["name".to_string()]);
    let e = exec
        .create_schema(&DidValue("bad!did".to_string()), "gvt", "1.0", attrs)
        .unwrap_err();
    assert_eq!(e.kind, ErrorKind::InvalidStructure);
}

#[test]
fn cred_def_creation_is_idempotent_under_derived_id() {
    // The deterministic id is derived before any key generation; if a
    // definition already stands under it, it is returned unchanged and no
    // keys are regenerated.
    let mut exec = executor_with_live_def();
    let schema = anoncreds_issuer::schema::SchemaV1 {
        id: SchemaId("NcYxiDXkpYi6ov5FcYDi1e:2:gvt:1.0".to_string()),
        name: "gvt".to_string(),
        version: "1.0".to_string(),
        attr_names: AttributeNames(vec!["name".to_string()]),
        seq_no: Some(55),
    };
    let (id, def) = exec
        .create_and_store_credential_definition(&did(), schema, "tag", None, None)
        .unwrap();
    assert_eq!(id.0, "NcYxiDXkpYi6ov5FcYDi1e:3:CL:55:tag");
    let CredentialDefinition::CredentialDefinitionV1(d) = def;
    assert_eq!(d.value.primary, "live-primary");
}

#[test]
fn cred_def_id_derivation_qualifies_with_the_did_method() {
    // A qualified issuer DID yields the entity-qualified id, with the
    // schema id qualified along.
    let mut exec = IssuerCommandExecutor::new(WalletCommandExecutor::new(), TailsStore::new());
    let qid = CredentialDefinitionId(
        "creddef:sov:did:sov:NcYxiDXkpYi6ov5FcYDi1e:3:CL:schema:sov:did:sov:NcYxiDXkpYi6ov5FcYDi1e:2:gvt:1.0:tag"
            .to_string(),
    );
    let mut stored = live_def("qualified-primary");
    stored.id = CredentialDefinitionId(qid.0.clone());
    exec.wallet.cred_defs.add(qid.0.as_str(), stored);
    let schema = anoncreds_issuer::schema::SchemaV1 {
        id: SchemaId("NcYxiDXkpYi6ov5FcYDi1e:2:gvt:1.0".to_string()),
        name: "gvt".to_string(),
        version: "1.0".to_string(),
        attr_names: AttributeNames(vec!["name".to_string()]),
        seq_no: None,
    };
    let qualified_did = DidValue("did:sov:NcYxiDXkpYi6ov5FcYDi1e".to_string());
    let (id, def) = exec
        .create_and_store_credential_definition(&qualified_did, schema, "tag", None, None)
        .unwrap();
    assert_eq!(id.0, qid.0);
    let CredentialDefinition::CredentialDefinitionV1(d) = def;
    assert_eq!(d.value.primary, "qualified-primary");
}

#[test]
fn cred_def_creation_rejects_unqualified_did_with_qualified_schema() {
    let mut exec = IssuerCommandExecutor::new(WalletCommandExecutor::new(), TailsStore::new());
    let schema = anoncreds_issuer::schema::SchemaV1 {
        id: SchemaId("schema:sov:did:sov:NcYxiDXkpYi6ov5FcYDi1e:2:gvt:1.0".to_string()),
        name: "gvt".to_string(),
        version: "1.0".to_string(),
        attr_names: AttributeNames(vec!["name".to_string()]),
        seq_no: None,
    };
    let e = exec
        .create_and_store_credential_definition(&did(), schema, "tag", None, None)
        .unwrap_err();
    assert_eq!(e.kind, ErrorKind::InvalidStructure);
    let mut exec2 = IssuerCommandExecutor::new(WalletCommandExecutor::new(), TailsStore::new());
    let bad_type = anoncreds_issuer::schema::SchemaV1 {
        id: SchemaId("NcYxiDXkpYi6ov5FcYDi1e:2:gvt:1.0".to_string()),
        name: "gvt".to_string(),
        version: "1.0".to_string(),
        attr_names: AttributeNames(vec!["name".to_string()]),
        seq_no: None,
    };
    let e2 = exec2
        .create_and_store_credential_definition(&did(), bad_type, "tag", Some("WRONG"), None)
        .unwrap_err();
    assert_eq!(e2.kind, ErrorKind::InvalidStructure);
}

#[test]
fn rotate_apply_without_start_fails_not_found() {
    // rotate_apply with no staged rotation is an error, not a no-op.
    let mut exec = executor_with_live_def();
    let e = exec.rotate_credential_definition_apply(&cred_def_id()).unwrap_err();
    assert_eq!(e.kind, ErrorKind::NotFound);
    // The live definition is untouched.
    let d = exec.wallet.cred_defs.get(cred_def_id().0.as_str()).unwrap();
    assert_eq!(d.value.primary, "live-primary");
}

#[test]
fn rotate_start_is_idempotent_and_apply_promotes() {
    // A staged rotation is returned unchanged by a repeated start, and the
    // apply replaces the live triple with the staged one and deletes the
    // staging record.
    let mut exec = executor_with_live_def();
    let id = cred_def_id();
    let staged = TemporaryCredentialDefinition {
        cred_def: CredentialDefinition::CredentialDefinitionV1(live_def("staged-primary")),
        cred_def_priv_key: CredentialDefinitionPrivateKey { value: "staged-priv".to_string() },
        cred_def_correctness_proof: CredentialDefinitionCorrectnessProof {
            value: "staged-proof".to_string(),
        },
    };
    exec.wallet.execute(WalletCommand::AddTempCredDef(id.0.clone(), staged));

    // rotate_start with a staged bundle returns the staged key material
    // both times, untouched.
    let r1 = exec.rotate_credential_definition_start(&id, None).unwrap();
    let CredentialDefinition::CredentialDefinitionV1(d1) = r1;
    assert_eq!(d1.value.primary, "staged-primary");
    let r2 = exec.rotate_credential_definition_start(&id, None).unwrap();
    let CredentialDefinition::CredentialDefinitionV1(d2) = r2;
    assert_eq!(d2.value.primary, "staged-primary");
    let live = exec.wallet.cred_defs.get(id.0.as_str()).unwrap();
    assert_eq!(live.value.primary, "live-primary");

    exec.rotate_credential_definition_apply(&id).unwrap();
    let live = exec.wallet.cred_defs.get(id.0.as_str()).unwrap();
    assert_eq!(live.value.primary, "staged-primary");
    let priv_key = exec.wallet.cred_def_privs.get(id.0.as_str()).unwrap();
    assert_eq!(priv_key.value, "staged-priv");
    let proof = exec.wallet.cred_def_proofs.get(id.0.as_str()).unwrap();
    assert_eq!(proof.value, "staged-proof");
    assert!(exec.wallet.temp_cred_defs.get(id.0.as_str()).is_none());

    // With the staging record gone, a second apply fails NotFound.
    let e = exec.rotate_credential_definition_apply(&id).unwrap_err();
    assert_eq!(e.kind, ErrorKind::NotFound);
}

#[test]
fn rotate_start_without_schema_fails_not_found() {
    // With no staged bundle, staging needs the live definition's schema.
    let mut exec = executor_with_live_def();
    let e = exec.rotate_credential_definition_start(&cred_def_id(), None).unwrap_err();
    assert_eq!(e.kind, ErrorKind::NotFound);
}

#[test]
fn rotate_start_without_live_definition_fails_not_found() {
    let mut exec = IssuerCommandExecutor::new(WalletCommandExecutor::new(), TailsStore::new());
    let e = exec.rotate_credential_definition_start(&cred_def_id(), None).unwrap_err();
    assert_eq!(e.kind, ErrorKind::NotFound);
}

#[test]
fn create_credential_offer_works() {
    let mut exec = executor_with_live_def();
    let id = cred_def_id();
    exec.wallet.schema_ids.add(id.0.as_str(), "NcYxiDXkpYi6ov5FcYDi1e:2:gvt:1.0".to_string());
    let offer = exec.create_credential_offer(&id).unwrap();
    assert_eq!(offer.cred_def_id.0, id.0);
    assert_eq!(offer.schema_id.0, "NcYxiDXkpYi6ov5FcYDi1e:2:gvt:1.0");
    assert_eq!(offer.key_correctness_proof, "live-proof");
    assert!(offer.method_name.is_none());
    assert!(!offer.nonce.is_empty());
    // Two offers carry distinct fresh nonces.
    let offer2 = exec.create_credential_offer(&id).unwrap();
    assert_ne!(offer.nonce, offer2.nonce);
}

#[test]
fn create_credential_offer_fails_without_records() {
    let exec = IssuerCommandExecutor::new(WalletCommandExecutor::new(), TailsStore::new());
    let e = exec.create_credential_offer(&cred_def_id()).unwrap_err();
    assert_eq!(e.kind, ErrorKind::NotFound);
}

fn offer(nonce: &str) -> CredentialOffer {
    CredentialOffer {
        schema_id: SchemaId("NcYxiDXkpYi6ov5FcYDi1e:2:gvt:1.0".to_string()),
        cred_def_id: cred_def_id(),
        key_correctness_proof: "p".to_string(),
        nonce: nonce.to_string(),
        method_name: None,
    }
}

fn request() -> CredentialRequest {
    CredentialRequest {
        prover_did: DidValue("VsKV7grR1BUE29mG2Fm2kX".to_string()),
        cred_def_id: cred_def_id(),
        blinded_ms: "{\"u\":\"1\",\"hidden_attributes\":[],\"committed_attributes\":{}}"
            .to_string(),
        blinded_ms_correctness_proof:
            "{\"c\":\"1\",\"v_dash_cap\":\"1\",\"m_caps\":{},\"r_caps\":{}}".to_string(),
        nonce: "\"123\"".to_string(),
    }
}

#[test]
fn new_credential_fails_not_found_without_definition() {
    let mut exec = IssuerCommandExecutor::new(WalletCommandExecutor::new(), TailsStore::new());
    let values = CredentialAttrValues(Vec::new());
    let e = exec.new_credential(&offer("\"123\""), &request(), &values, None, None).unwrap_err();
    assert_eq!(e.kind, ErrorKind::NotFound);
}

#[test]
fn new_credential_surfaces_crypto_failure_without_mutation() {
    // The fabricated primary key cannot verify the request's correctness
    // proof: the issuance fails at the primitive and nothing is persisted.
    let mut exec = executor_with_live_def();
    let values = CredentialAttrValues(Vec::new());
    let r = exec.new_credential(&offer("\"123\""), &request(), &values, None, None);
    let kind = r.unwrap_err().kind;
    assert!(kind == ErrorKind::IssuanceFailed || kind == ErrorKind::SerializationFailed);
}

#[test]
fn new_credential_rejects_unparsable_payloads() {
    let mut exec = executor_with_live_def();
    let values = CredentialAttrValues(Vec::new());
    let mut bad = request();
    bad.blinded_ms = "not json".to_string();
    let e = exec.new_credential(&offer("\"123\""), &bad, &values, None, None).unwrap_err();
    assert_eq!(e.kind, ErrorKind::SerializationFailed);
}

#[test]
fn wallet_commands_drive_the_store() {
    let mut wallet = WalletCommandExecutor::new();
    let changed = wallet.execute(WalletCommand::AddCredDef("id-1".to_string(), live_def("p")));
    assert!(changed);
    let again = wallet.execute(WalletCommand::AddCredDef("id-1".to_string(), live_def("q")));
    assert!(!again);
    assert_eq!(wallet.cred_defs.get("id-1").unwrap().value.primary, "p");
    let removed = wallet.execute(WalletCommand::DeleteTempCredDef("id-1".to_string()));
    assert!(!removed);
}
