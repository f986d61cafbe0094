use iceth::cost::{
    json_rpc_cycles_cost, json_rpc_provider_cycles_cost, HTTP_OUTCALL_BYTE_RECEIEVED_COST,
    HTTP_OUTCALL_REQUEST_COST, INGRESS_MESSAGE_BYTE_RECEIVED_COST, INGRESS_MESSAGE_RECEIVED_COST,
};

#[test]
fn check_json_rpc_cycles_cost() {
    let base_cost = json_rpc_cycles_cost(
        "{\"jsonrpc\":\"2.0\",\"method\":\"eth_gasPrice\",\"params\":[],\"id\":1}",
        "https://cloudflare-eth.com",
        1000,
    );
    let s10 = "0123456789";
    let base_cost_s10 = json_rpc_cycles_cost(
        &("{\"jsonrpc\":\"2.0\",\"method\":\"eth_gasPrice\",\"params\":[],\"id\":1}".to_string()
            + s10),
        "https://cloudflare-eth.com",
        1000,
    );
    assert_eq!(
        base_cost + 10 * (INGRESS_MESSAGE_BYTE_RECEIVED_COST + HTTP_OUTCALL_BYTE_RECEIEVED_COST),
        base_cost_s10
    )
}

#[test]
fn cost_exact_value() {
    // payload of 2 bytes, URL of 3 bytes, bound of 50 bytes:
    // ingress = 2 + 3 + 100 = 105
    // fee = 1_200_000 + 2_000 * 105 + 400_000_000 + 100_000 * (105 + 50)
    let expected = INGRESS_MESSAGE_RECEIVED_COST
        + INGRESS_MESSAGE_BYTE_RECEIVED_COST * 105
        + HTTP_OUTCALL_REQUEST_COST
        + HTTP_OUTCALL_BYTE_RECEIEVED_COST * 155;
    assert_eq!(json_rpc_cycles_cost("ab", "xyz", 50), expected);
    assert_eq!(json_rpc_cycles_cost("ab", "xyz", 50), 416_910_000);
}

#[test]
fn cost_strictly_increasing_in_payload() {
    let a = json_rpc_cycles_cost("ab", "xyz", 50);
    let b = json_rpc_cycles_cost("abc", "xyz", 50);
    assert!(a < b);
}

#[test]
fn cost_strictly_increasing_in_url() {
    let a = json_rpc_cycles_cost("ab", "xyz", 50);
    let b = json_rpc_cycles_cost("ab", "xyzw", 50);
    assert!(a < b);
}

#[test]
fn cost_strictly_increasing_in_bound() {
    let a = json_rpc_cycles_cost("ab", "xyz", 50);
    let b = json_rpc_cycles_cost("ab", "xyz", 51);
    assert!(a < b);
}

#[test]
fn provider_cost_exact_value() {
    // The per-byte rate enters as a flat term: 5 + 7 + len("abc").
    assert_eq!(json_rpc_provider_cycles_cost("abc", 5, 7), 15);
    assert_eq!(json_rpc_provider_cycles_cost("", 0, 0), 0);
}
