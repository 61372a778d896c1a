//! Tests of the colon-delimited identifiers.

use anoncreds_issuer::ids::{CredentialDefinitionId, DidValue, RevocationRegistryId, SchemaId};

fn _did() -> DidValue {
    DidValue("NcYxiDXkpYi6ov5FcYDi1e".to_string())
}

fn _rev_reg_type() -> String {
    "CL_ACCUM".to_string()
}

fn _tag() -> String {
    "TAG_1".to_string()
}

fn _did_qualified() -> DidValue {
    DidValue("did:sov:NcYxiDXkpYi6ov5FcYDi1e".to_string())
}

fn _cred_def_id_unqualified() -> CredentialDefinitionId {
    CredentialDefinitionId("NcYxiDXkpYi6ov5FcYDi1e:3:CL:NcYxiDXkpYi6ov5FcYDi1e:2:gvt:1.0:tag".to_string())
}

fn _cred_def_id_qualified() -> CredentialDefinitionId {
    CredentialDefinitionId("creddef:sov:did:sov:NcYxiDXkpYi6ov5FcYDi1e:3:CL:schema:sov:did:sov:NcYxiDXkpYi6ov5FcYDi1e:2:gvt:1.0:tag".to_string())
}

fn _rev_reg_id_unqualified() -> RevocationRegistryId {
    RevocationRegistryId("NcYxiDXkpYi6ov5FcYDi1e:4:NcYxiDXkpYi6ov5FcYDi1e:3:CL:NcYxiDXkpYi6ov5FcYDi1e:2:gvt:1.0:tag:CL_ACCUM:TAG_1".to_string())
}

fn _rev_reg_id_qualified() -> RevocationRegistryId {
    RevocationRegistryId("revreg:sov:did:sov:NcYxiDXkpYi6ov5FcYDi1e:4:creddef:sov:did:sov:NcYxiDXkpYi6ov5FcYDi1e:3:CL:schema:sov:did:sov:NcYxiDXkpYi6ov5FcYDi1e:2:gvt:1.0:tag:CL_ACCUM:TAG_1".to_string())
}

#[test]
fn revocation_registry_definition_test_rev_reg_id_parts_for_id_as_unqualified() {
    assert_eq!(_rev_reg_id_unqualified(), _rev_reg_id_unqualified().to_unqualified());
}

#[test]
fn revocation_registry_definition_test_rev_reg_id_parts_for_id_as_qualified() {
    assert_eq!(_rev_reg_id_unqualified(), _rev_reg_id_qualified().to_unqualified());
}

#[test]
fn test_rev_reg_id_parts_for_id_as_unqualified() {
    let (did, cred_def_id, rev_reg_type, tag) = _rev_reg_id_unqualified().parts().unwrap();
    assert_eq!(_did(), did);
    assert_eq!(_cred_def_id_unqualified(), cred_def_id);
    assert_eq!(_rev_reg_type(), rev_reg_type);
    assert_eq!(_tag(), tag);
}

#[test]
fn test_rev_reg_id_parts_for_id_as_qualified() {
    let (did, cred_def_id, rev_reg_type, tag) = _rev_reg_id_qualified().parts().unwrap();
    assert_eq!(_did_qualified(), did);
    assert_eq!(_cred_def_id_qualified(), cred_def_id);
    assert_eq!(_rev_reg_type(), rev_reg_type);
    assert_eq!(_tag(), tag);
}

#[test]
fn test_validate_rev_reg_id_as_unqualified() {
    _rev_reg_id_unqualified().validate().unwrap();
}

#[test]
fn test_validate_rev_reg_id_as_fully_qualified() {
    _rev_reg_id_qualified().validate().unwrap();
}

#[test]
fn id_construction_works() {
    let did = _did();
    let schema_id = SchemaId::new(&did, "gvt", "1.0");
    assert_eq!(schema_id.0, "NcYxiDXkpYi6ov5FcYDi1e:2:gvt:1.0");
    let cred_def_id = CredentialDefinitionId::new(&did, &schema_id, "CL", "tag");
    assert_eq!(cred_def_id, _cred_def_id_unqualified());
    let rev_reg_id = RevocationRegistryId::new(&did, &cred_def_id, "CL_ACCUM", "TAG_1");
    assert_eq!(rev_reg_id, _rev_reg_id_unqualified());
}

#[test]
fn qualified_id_construction_works() {
    let did = _did_qualified();
    let schema_id = SchemaId::new(&did, "gvt", "1.0");
    assert_eq!(schema_id.0, "schema:sov:did:sov:NcYxiDXkpYi6ov5FcYDi1e:2:gvt:1.0");
    assert_eq!(did.get_method().unwrap(), "sov");
    assert!(_did().get_method().is_none());
}

#[test]
fn did_validate_works() {
    assert!(_did().validate().is_ok());
    assert!(_did_qualified().validate().is_ok());
    assert!(DidValue("".to_string()).validate().is_err());
    assert!(DidValue("not!base58".to_string()).validate().is_err());
}
