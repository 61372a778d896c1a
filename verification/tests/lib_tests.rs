//! Basic tests of the library.

use anoncreds_issuer::index_set::IndexSet;
use anoncreds_issuer::numstr::{parse_cred_rev_id, u32_to_dec};

#[test]
fn dummy() {
    assert!(true, "Dummy check!");
}

#[test]
fn decimal_round_trip_works() {
    assert_eq!(u32_to_dec(0), "0");
    assert_eq!(u32_to_dec(42), "42");
    assert_eq!(u32_to_dec(4294967295), "4294967295");
    assert_eq!(parse_cred_rev_id("42").unwrap(), 42);
    assert_eq!(parse_cred_rev_id("0").unwrap(), 0);
    assert!(parse_cred_rev_id("").is_err());
    assert!(parse_cred_rev_id("4x").is_err());
    assert!(parse_cred_rev_id("4294967296").is_err());
}

#[test]
fn index_set_works() {
    let mut s = IndexSet::new();
    assert!(s.is_empty());
    assert!(s.insert(3));
    assert!(s.insert(1));
    assert!(!s.insert(3));
    assert_eq!(s.len(), 2);
    assert!(s.contains(1));
    assert!(s.contains(3));
    assert!(!s.contains(2));
    assert_eq!(s.to_vec(), vec![1, 3]);
    assert!(s.remove(1));
    assert!(!s.remove(1));
    assert_eq!(s.to_vec(), vec![3]);
}
