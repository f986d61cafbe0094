use iceth::http::{route, Route};
use iceth::principal::Principal;
use iceth::relay::{bootstrap, initialize};
use iceth::stable::{is_stable_authorized, stable_growth_pages, StableAuthSet};

fn caller() -> Principal {
    Principal::from_bytes(vec![7])
}

#[test]
fn bootstrap_grants_every_role_and_stable_access() {
    let mut s = initialize();
    let c = caller();
    assert!(is_stable_authorized(&s.stable_auth, &c).is_err());
    bootstrap(&mut s, &c);
    assert_eq!(s.auth.get_bits(&c), 15);
    assert_eq!(is_stable_authorized(&s.stable_auth, &c), Ok(()));
    // Nobody else gained anything.
    let other = Principal::from_bytes(vec![8]);
    assert_eq!(s.auth.get_bits(&other), 0);
    assert!(is_stable_authorized(&s.stable_auth, &other).is_err());
}

#[test]
fn stable_gate_admits_only_members() {
    let mut set = StableAuthSet::new();
    let c = caller();
    assert_eq!(
        is_stable_authorized(&set, &c),
        Err("You are not stable authorized".to_string())
    );
    set.insert(Principal::from_bytes(vec![7]));
    assert_eq!(is_stable_authorized(&set, &c), Ok(()));
}

#[test]
fn stable_growth_pages_exact_values() {
    assert_eq!(stable_growth_pages(0, 0, 0), 0);
    assert_eq!(stable_growth_pages(0, 1, 0), 1);
    assert_eq!(stable_growth_pages(0, 65536, 0), 1);
    assert_eq!(stable_growth_pages(0, 65537, 0), 2);
    assert_eq!(stable_growth_pages(100, 100, 65536), 0);
    assert_eq!(stable_growth_pages(65536, 1, 65536), 1);
    assert_eq!(stable_growth_pages(65535, 2, 65536), 1);
}

#[test]
fn routing_matches_fixed_paths() {
    assert_eq!(route("/metrics"), Route::Metrics);
    assert_eq!(route("/metrics?since=0"), Route::Metrics);
    assert_eq!(route("/logs"), Route::Logs);
    assert_eq!(route("/logs?tail=10"), Route::Logs);
    assert_eq!(route("/metricsx"), Route::NotFound);
    assert_eq!(route("/"), Route::NotFound);
    assert_eq!(route(""), Route::NotFound);
    assert_eq!(route("/other?x=/metrics"), Route::NotFound);
}
