use iceth::auth::Auth;
use iceth::principal::Principal;
use iceth::providers::RegisterProvider;
use iceth::relay::{
    authorize, get_providers, register_provider, unregister_provider, withdraw_amount,
    GatewayState,
};
use iceth::allowlist::Allowlist;

fn owner() -> Principal {
    Principal::from_bytes(vec![1, 2, 3])
}

fn stranger() -> Principal {
    Principal::from_bytes(vec![9])
}

fn fresh_state() -> GatewayState {
    let mut s = GatewayState::with_config(Allowlist::from_hosts(Vec::new()), false);
    authorize(&mut s, &owner(), Auth::RegisterProvider);
    s
}

fn args(url: &str, key: &str) -> RegisterProvider {
    RegisterProvider {
        chain_id: 1,
        service_url: url.to_string(),
        api_key: key.to_string(),
        cycles_per_call: 10,
        cycles_per_message_byte: 2,
    }
}

#[test]
fn provider_ids_increase_and_are_never_reused() {
    let mut s = fresh_state();
    let o = owner();
    let a = register_provider(&mut s, &o, args("https://one.example", ""));
    let b = register_provider(&mut s, &o, args("https://two.example", ""));
    assert_eq!(a, 0);
    assert_eq!(b, 1);
    unregister_provider(&mut s, &o, a);
    let c = register_provider(&mut s, &o, args("https://three.example", ""));
    assert_eq!(c, 2);
    unregister_provider(&mut s, &o, c);
    unregister_provider(&mut s, &o, b);
    let d = register_provider(&mut s, &o, args("https://four.example", ""));
    assert_eq!(d, 3);
    let ids: Vec<u64> = get_providers(&s).iter().map(|p| p.provider_id).collect();
    assert_eq!(ids, vec![3]);
}

#[test]
fn unregister_of_unknown_id_is_a_no_op() {
    let mut s = fresh_state();
    let o = owner();
    let a = register_provider(&mut s, &o, args("https://one.example", ""));
    unregister_provider(&mut s, &o, 77);
    assert_eq!(get_providers(&s).len(), 1);
    assert_eq!(get_providers(&s)[0].provider_id, a);
}

#[test]
fn admin_may_unregister_anothers_provider() {
    let mut s = fresh_state();
    let o = owner();
    let admin = stranger();
    authorize(&mut s, &admin, Auth::RegisterProvider);
    authorize(&mut s, &admin, Auth::Admin);
    let a = register_provider(&mut s, &o, args("https://one.example", ""));
    unregister_provider(&mut s, &admin, a);
    assert_eq!(get_providers(&s).len(), 0);
}

#[test]
fn summaries_omit_the_secret_key() {
    let mut s = fresh_state();
    let o = owner();
    let id = register_provider(&mut s, &o, args("https://one.example", "/key-abc"));
    let listed = get_providers(&s);
    assert_eq!(listed.len(), 1);
    assert_eq!(listed[0].provider_id, id);
    assert_eq!(listed[0].owner.bytes, vec![1, 2, 3]);
    assert_eq!(listed[0].chain_id, 1);
    assert_eq!(listed[0].service_url, "https://one.example");
    assert_eq!(listed[0].cycles_per_call, 10);
    assert_eq!(listed[0].cycles_per_message_byte, 2);
}

#[test]
fn unregister_twice_is_harmless() {
    let mut s = fresh_state();
    let o = owner();
    let a = register_provider(&mut s, &o, args("https://one.example", ""));
    unregister_provider(&mut s, &o, a);
    unregister_provider(&mut s, &o, a);
    assert_eq!(get_providers(&s).len(), 0);
}

#[test]
fn withdraw_amount_reports_the_current_balance() {
    let mut s = fresh_state();
    let o = owner();
    let id = register_provider(&mut s, &o, args("https://one.example", ""));
    assert_eq!(withdraw_amount(&s, &o, id), Some(0));
    assert_eq!(withdraw_amount(&s, &o, 42), None);
}
