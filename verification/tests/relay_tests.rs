use iceth::allowlist::Allowlist;
use iceth::auth::Auth;
use iceth::cost::{json_rpc_cycles_cost, json_rpc_provider_cycles_cost};
use iceth::errors::RelayError;
use iceth::http::{normalize, HttpHeader, HttpMethod, HttpResponseData};
use iceth::principal::Principal;
use iceth::providers::RegisterProvider;
use iceth::relay::{
    authorize, initialize, register_provider, relay_commit, relay_prepare,
    relay_via_provider_prepare, unregister_provider, GatewayState, TransportFailure,
};

const PAYLOAD: &str = "{\"jsonrpc\":\"2.0\",\"method\":\"eth_gasPrice\",\"params\":[],\"id\":1}";
const URL: &str = "https://cloudflare-eth.com";
const HOST: &str = "cloudflare-eth.com";

fn caller() -> Principal {
    Principal::from_bytes(vec![4, 5])
}

fn response(status: u64, body: &[u8]) -> HttpResponseData {
    HttpResponseData {
        status,
        body: body.to_vec(),
        headers: vec![
            HttpHeader { name: "Date".to_string(), value: "yesterday".to_string() },
            HttpHeader { name: "X-Trace".to_string(), value: "abc".to_string() },
        ],
    }
}

fn host_count(s: &GatewayState, host: &str) -> u64 {
    for e in s.metrics.json_rpc_host_requests.iter() {
        if e.host == host {
            return e.count;
        }
    }
    0
}

#[test]
fn normalize_strips_headers_and_keeps_status_and_body() {
    let r = normalize(response(200, b"payload"));
    assert_eq!(r.status, 200);
    assert_eq!(r.body, b"payload".to_vec());
    assert!(r.headers.is_empty());
}

#[test]
fn successful_relay_returns_normalized_body_and_charges_exactly_the_cost() {
    let mut s = initialize();
    let c = caller();
    let cost = json_rpc_cycles_cost(PAYLOAD, URL, 1000);
    let offered = cost + 5_000;

    let req = relay_prepare(&mut s, &c, PAYLOAD, URL, 1000, offered).unwrap();
    assert_eq!(req.url, URL);
    assert_eq!(req.host, HOST);
    assert_eq!(req.method, HttpMethod::Post);
    assert_eq!(req.body, PAYLOAD);
    assert_eq!(req.max_response_bytes, 1000);
    assert_eq!(req.cycles_charged, cost);
    assert_eq!(req.headers.len(), 2);
    assert_eq!(req.headers[0].name, "Content-Type");
    assert_eq!(req.headers[0].value, "application/json");
    assert_eq!(req.headers[1].name, "Host");
    assert_eq!(req.headers[1].value, HOST);

    assert_eq!(s.metrics.json_rpc_requests, 1);
    assert_eq!(s.metrics.json_rpc_request_cycles_charged, cost);
    assert_eq!(s.metrics.json_rpc_request_cycles_refunded, 5_000);
    assert_eq!(host_count(&s, HOST), 1);

    let out = relay_commit(&mut s, Ok(response(200, b"0x1234"))).unwrap();
    assert_eq!(out, b"0x1234".to_vec());
    assert_eq!(s.metrics.json_rpc_request_err_http_request_error, 0);
}

#[test]
fn free_rpc_caller_is_not_charged_but_still_counted() {
    let mut s = initialize();
    let c = caller();
    authorize(&mut s, &c, Auth::FreeRpc);

    let req = relay_prepare(&mut s, &c, PAYLOAD, URL, 1000, 0).unwrap();
    assert_eq!(req.cycles_charged, 0);
    assert_eq!(s.metrics.json_rpc_requests, 1);
    assert_eq!(s.metrics.json_rpc_request_cycles_charged, 0);
    assert_eq!(host_count(&s, HOST), 1);

    let out = relay_commit(&mut s, Ok(response(200, b"ok"))).unwrap();
    assert_eq!(out, b"ok".to_vec());
}

#[test]
fn provider_unregistered_during_the_call_still_succeeds_and_keeps_the_charge() {
    let mut s = initialize();
    let c = caller();
    authorize(&mut s, &c, Auth::RegisterProvider);
    let id = register_provider(
        &mut s,
        &c,
        RegisterProvider {
            chain_id: 1,
            service_url: "https://cloudflare-eth.com/v1".to_string(),
            api_key: "/key-abc".to_string(),
            cycles_per_call: 10,
            cycles_per_message_byte: 2,
        },
    );

    let full_url = "https://cloudflare-eth.com/v1/key-abc";
    let share = json_rpc_provider_cycles_cost(PAYLOAD, 10, 2);
    let cost = json_rpc_cycles_cost(PAYLOAD, full_url, 500) + share;

    let req = relay_via_provider_prepare(&mut s, &c, PAYLOAD, id, 500, cost).unwrap();
    assert_eq!(req.url, full_url);
    assert_eq!(req.cycles_charged, cost);
    // The provider's share was accrued before the call was issued.
    assert_eq!(s.providers.owed_cycles(id), Some(share));

    // While the forwarded call is in flight, the owner unregisters.
    unregister_provider(&mut s, &c, id);
    assert_eq!(s.providers.owed_cycles(id), None);

    // Committing afterwards succeeds, touches no provider state, and the
    // caller stays charged.
    let out = relay_commit(&mut s, Ok(response(200, b"late"))).unwrap();
    assert_eq!(out, b"late".to_vec());
    assert_eq!(s.metrics.json_rpc_request_cycles_charged, cost);
    assert_eq!(s.providers.owed_cycles(id), None);
}

#[test]
fn provider_share_accrues_across_calls() {
    let mut s = initialize();
    let c = caller();
    authorize(&mut s, &c, Auth::RegisterProvider);
    let id = register_provider(
        &mut s,
        &c,
        RegisterProvider {
            chain_id: 1,
            service_url: "https://cloudflare-eth.com".to_string(),
            api_key: "".to_string(),
            cycles_per_call: 3,
            cycles_per_message_byte: 4,
        },
    );
    let share = json_rpc_provider_cycles_cost(PAYLOAD, 3, 4);
    relay_via_provider_prepare(&mut s, &c, PAYLOAD, id, 100, u128::MAX / 2).unwrap();
    assert_eq!(s.providers.owed_cycles(id), Some(share));
    relay_via_provider_prepare(&mut s, &c, PAYLOAD, id, 100, u128::MAX / 2).unwrap();
    assert_eq!(s.providers.owed_cycles(id), Some(2 * share));
    assert_eq!(s.metrics.json_rpc_requests, 2);
    assert_eq!(host_count(&s, HOST), 2);
}

#[test]
fn disallowed_host_is_rejected_before_any_charge() {
    let mut s = initialize();
    let c = caller();
    // Offer no cycles at all: were the charge step reached first, the call
    // would fail with TooFewCycles instead.
    let r = relay_prepare(&mut s, &c, PAYLOAD, "https://evil.example", 1000, 0);
    assert_eq!(r.unwrap_err(), RelayError::HostNotAllowed);
    assert_eq!(s.metrics.json_rpc_requests, 1);
    assert_eq!(s.metrics.json_rpc_request_err_service_url_host_not_allowed, 1);
    assert_eq!(s.metrics.json_rpc_request_cycles_charged, 0);
    assert_eq!(s.metrics.json_rpc_request_cycles_refunded, 0);
    assert_eq!(host_count(&s, "evil.example"), 0);
}

#[test]
fn caller_without_rpc_role_is_rejected() {
    let mut s = GatewayState::with_config(
        Allowlist::from_hosts(vec![HOST.to_string()]),
        false,
    );
    let c = caller();
    let r = relay_prepare(&mut s, &c, PAYLOAD, URL, 1000, u128::MAX);
    assert_eq!(r.unwrap_err(), RelayError::NoPermission);
    assert_eq!(s.metrics.json_rpc_requests, 1);
    assert_eq!(s.metrics.json_rpc_request_err_no_permission, 1);
    assert_eq!(s.metrics.json_rpc_request_cycles_charged, 0);
}

#[test]
fn unparseable_url_is_rejected() {
    let mut s = initialize();
    let r = relay_prepare(&mut s, &caller(), PAYLOAD, "not a url", 1000, u128::MAX);
    assert_eq!(r.unwrap_err(), RelayError::InvalidUrl);
}

#[test]
fn hostless_url_is_rejected() {
    let mut s = initialize();
    let r = relay_prepare(&mut s, &caller(), PAYLOAD, "data:text/plain,x", 1000, u128::MAX);
    assert_eq!(r.unwrap_err(), RelayError::HostMissing);
}

#[test]
fn underfunded_call_is_rejected_with_both_amounts() {
    let mut s = initialize();
    let cost = json_rpc_cycles_cost(PAYLOAD, URL, 1000);
    let r = relay_prepare(&mut s, &caller(), PAYLOAD, URL, 1000, cost - 1);
    assert_eq!(
        r.unwrap_err(),
        RelayError::TooFewCycles { required: cost, available: cost - 1 }
    );
    assert_eq!(s.metrics.json_rpc_request_cycles_charged, 0);
}

#[test]
fn unknown_provider_is_rejected_before_any_fee_work() {
    let mut s = initialize();
    let r = relay_via_provider_prepare(&mut s, &caller(), PAYLOAD, 7, 1000, u128::MAX);
    assert_eq!(r.unwrap_err(), RelayError::ProviderNotFound);
    // Rejected before the request was even counted.
    assert_eq!(s.metrics.json_rpc_requests, 0);
}

#[test]
fn transport_failure_is_returned_and_counted() {
    let mut s = initialize();
    let r = relay_commit(
        &mut s,
        Err(TransportFailure { code: 3, message: "connection reset".to_string() }),
    );
    assert_eq!(
        r.unwrap_err(),
        RelayError::TransportError { code: 3, message: "connection reset".to_string() }
    );
    assert_eq!(s.metrics.json_rpc_request_err_http_request_error, 1);
}
