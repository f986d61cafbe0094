use iceth::auth::{is_authorized, is_authorized_register_provider, Auth, AuthTable};
use iceth::principal::Principal;

fn caller(byte: u8) -> Principal {
    Principal::from_bytes(vec![byte])
}

#[test]
fn open_access_grants_rpc_to_unknown_caller() {
    let table = AuthTable::new();
    assert!(table.has_role(true, &caller(1), Auth::Rpc));
}

#[test]
fn no_entry_means_no_role_without_open_access() {
    let table = AuthTable::new();
    let p = caller(1);
    assert!(!table.has_role(false, &p, Auth::Rpc));
    assert!(!table.has_role(false, &p, Auth::Admin));
    assert!(!table.has_role(true, &p, Auth::Admin));
    assert!(!table.has_role(true, &p, Auth::RegisterProvider));
    assert!(!table.has_role(true, &p, Auth::FreeRpc));
}

#[test]
fn authorize_or_merges_bits() {
    let mut table = AuthTable::new();
    let p = caller(1);
    table.authorize(&p, Auth::Admin);
    assert_eq!(table.get_bits(&p), 1);
    table.authorize(&p, Auth::Rpc);
    assert_eq!(table.get_bits(&p), 3);
    table.authorize(&p, Auth::Admin);
    assert_eq!(table.get_bits(&p), 3);
    table.authorize(&p, Auth::FreeRpc);
    assert_eq!(table.get_bits(&p), 11);
}

#[test]
fn authorize_leaves_other_identities_alone() {
    let mut table = AuthTable::new();
    let p = caller(1);
    let q = caller(2);
    table.authorize(&p, Auth::Admin);
    assert_eq!(table.get_bits(&q), 0);
    assert!(!table.has_role(false, &q, Auth::Admin));
}

#[test]
fn admin_gate_rejects_and_admits() {
    let mut table = AuthTable::new();
    let p = caller(1);
    assert_eq!(
        is_authorized(&table, &p),
        Err("You are not authorized".to_string())
    );
    table.authorize(&p, Auth::Admin);
    assert_eq!(is_authorized(&table, &p), Ok(()));
}

#[test]
fn register_provider_gate_rejects_and_admits() {
    let mut table = AuthTable::new();
    let p = caller(1);
    assert!(is_authorized_register_provider(&table, &p).is_err());
    table.authorize(&p, Auth::RegisterProvider);
    assert_eq!(is_authorized_register_provider(&table, &p), Ok(()));
    // Admin alone does not grant the provider-management gate.
    let q = caller(2);
    table.authorize(&q, Auth::Admin);
    assert!(is_authorized_register_provider(&table, &q).is_err());
}
