//! Tests of delta merging.

use anoncreds_issuer::delta::{RevocationRegistryDelta, RevocationRegistryDeltaValue};
use anoncreds_issuer::errors::ErrorKind;
use anoncreds_issuer::index_set::IndexSet;

fn set_of(items: &[u32]) -> IndexSet {
    let mut s = IndexSet::new();
    for &i in items {
        s.insert(i);
    }
    s
}

fn delta(prev: Option<&str>, accum: &str, issued: &[u32], revoked: &[u32]) -> RevocationRegistryDeltaValue {
    RevocationRegistryDeltaValue {
        prev_accum: prev.map(|p| p.to_string()),
        accum: accum.to_string(),
        issued: set_of(issued),
        revoked: set_of(revoked),
    }
}

#[test]
fn merge_applies_later_changes() {
    let mut a = delta(None, "acc1", &[1, 2], &[]);
    let b = delta(Some("acc1"), "acc2", &[3], &[2, 5]);
    a.merge(&b).unwrap();
    assert_eq!(a.accum, "acc2");
    assert_eq!(a.issued.to_vec(), vec![1, 3]);
    assert_eq!(a.revoked.to_vec(), vec![5]);
    assert!(a.prev_accum.is_none());
}

#[test]
fn merge_rejects_unlinked_deltas() {
    let mut a = delta(None, "acc1", &[1], &[]);
    let b = delta(Some("other"), "acc2", &[2], &[]);
    let e = a.merge(&b).unwrap_err();
    assert_eq!(e.kind, ErrorKind::InvalidStructure);
    assert_eq!(a.accum, "acc1");
    assert_eq!(a.issued.to_vec(), vec![1]);
    let c = delta(None, "acc2", &[2], &[]);
    assert!(a.merge(&c).is_err());
}

#[test]
fn merge_idempotent_on_sets() {
    // Merging the same later delta twice leaves the issued/revoked sets of
    // the first merge unchanged (the later delta's accumulator step must
    // stutter for it to merge twice at all).
    let mut m = delta(None, "acc1", &[1, 2], &[9]);
    let b = delta(Some("acc1"), "acc1", &[3, 4], &[3]);
    m.merge(&b).unwrap();
    let issued_once = m.issued.to_vec();
    let revoked_once = m.revoked.to_vec();
    assert_eq!(issued_once, vec![1, 2, 4]);
    assert_eq!(revoked_once, vec![9]);
    m.merge(&b).unwrap();
    assert_eq!(m.issued.to_vec(), issued_once);
    assert_eq!(m.revoked.to_vec(), revoked_once);
}

#[test]
fn merge_through_executor_works() {
    let exec = anoncreds_issuer::issuer::IssuerCommandExecutor::new(
        anoncreds_issuer::wallet::WalletCommandExecutor::new(),
        anoncreds_issuer::tails::TailsStore::new(),
    );
    let mut a = anoncreds_issuer::delta::RevocationRegistryDeltaV1 {
        value: delta(None, "acc1", &[4], &[]),
    };
    let b = anoncreds_issuer::delta::RevocationRegistryDeltaV1 {
        value: delta(Some("acc1"), "acc2", &[], &[5]),
    };
    let merged = exec.merge_revocation_registry_deltas(&mut a, &b).unwrap();
    let RevocationRegistryDelta::RevocationRegistryDeltaV1(m) = merged;
    assert_eq!(m.value.accum, "acc2");
    assert_eq!(m.value.issued.to_vec(), vec![4]);
    assert_eq!(m.value.revoked.to_vec(), vec![5]);
}
