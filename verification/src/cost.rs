//! Cost model: the cycles fee charged for one relayed JSON-RPC call, as a pure
//! function of the payload size, the target URL size and the caller-chosen
//! bound on the response size.

use vstd::prelude::*;

verus! {

/// Fixed byte padding accounting for envelope and framing cost that is not
/// part of the raw payload.
pub const INGRESS_OVERHEAD_BYTES: u128 = 100;

/// Fixed cost of receiving an ingress message.
pub const INGRESS_MESSAGE_RECEIVED_COST: u128 = 1_200_000;

/// Cost per ingress byte received.
pub const INGRESS_MESSAGE_BYTE_RECEIVED_COST: u128 = 2_000;

/// Fixed cost of issuing one outbound HTTP call.
pub const HTTP_OUTCALL_REQUEST_COST: u128 = 400_000_000;

/// Cost per byte of the outbound call and its response.
pub const HTTP_OUTCALL_BYTE_RECEIEVED_COST: u128 = 100_000;

/// The length in bytes of the UTF-8 encoding of a string, as the running
/// program measures it.
pub open spec fn byte_len(s: Seq<char>) -> nat {
    vstd::utf8::encode_utf8(s).len() as usize as nat
}

/// The fee, in cycles, for relaying a payload of `payload_len` bytes to a URL
/// of `url_len` bytes with at most `max_response_bytes` bytes of response.
pub open spec fn cycles_cost(payload_len: nat, url_len: nat, max_response_bytes: u64) -> int {
    let ingress_bytes = payload_len + url_len + INGRESS_OVERHEAD_BYTES;
    INGRESS_MESSAGE_RECEIVED_COST + INGRESS_MESSAGE_BYTE_RECEIVED_COST * ingress_bytes
        + HTTP_OUTCALL_REQUEST_COST
        + HTTP_OUTCALL_BYTE_RECEIEVED_COST * (ingress_bytes + max_response_bytes)
}

/// The additive fee term of a registered provider: its per-call charge, its
/// per-byte rate taken as a flat term, and the payload size in bytes. The
/// per-byte rate is deliberately not multiplied by the byte count.
pub open spec fn provider_cycles_cost(
    payload_len: nat,
    cycles_per_call: u64,
    cycles_per_message_byte: u64,
) -> int {
    cycles_per_call + cycles_per_message_byte + payload_len
}

/// Fee for one relayed call, computed from the byte lengths of the payload
/// and the target URL and from the response size bound.
pub fn json_rpc_cycles_cost(
    json_rpc_payload: &str,
    service_url: &str,
    max_response_bytes: u64,
) -> (cost: u128)
    ensures
        cost == cycles_cost(
            byte_len(json_rpc_payload@),
            byte_len(service_url@),
            max_response_bytes,
        ),
{
    let ingress_bytes = (json_rpc_payload.len() as u128) + (service_url.len() as u128)
        + INGRESS_OVERHEAD_BYTES;
    INGRESS_MESSAGE_RECEIVED_COST + INGRESS_MESSAGE_BYTE_RECEIVED_COST * ingress_bytes
        + HTTP_OUTCALL_REQUEST_COST
        + HTTP_OUTCALL_BYTE_RECEIEVED_COST * (ingress_bytes + max_response_bytes as u128)
}

/// Additive provider fee term for one relayed call.
pub fn json_rpc_provider_cycles_cost(
    json_rpc_payload: &str,
    provider_cycles_per_call: u64,
    provider_cycles_per_message_byte: u64,
) -> (cost: u128)
    ensures
        cost == provider_cycles_cost(
            byte_len(json_rpc_payload@),
            provider_cycles_per_call,
            provider_cycles_per_message_byte,
        ),
{
    (provider_cycles_per_call as u128) + (provider_cycles_per_message_byte as u128)
        + (json_rpc_payload.len() as u128)
}

/// The fee is strictly increasing in the payload length, in the URL length
/// and in the response size bound.
pub proof fn lemma_cycles_cost_strictly_increasing(
    payload_len1: nat,
    payload_len2: nat,
    url_len1: nat,
    url_len2: nat,
    bound1: u64,
    bound2: u64,
)
    ensures
        payload_len1 < payload_len2 ==> cycles_cost(payload_len1, url_len1, bound1)
            < cycles_cost(payload_len2, url_len1, bound1),
        url_len1 < url_len2 ==> cycles_cost(payload_len1, url_len1, bound1)
            < cycles_cost(payload_len1, url_len2, bound1),
        bound1 < bound2 ==> cycles_cost(payload_len1, url_len1, bound1)
            < cycles_cost(payload_len1, url_len1, bound2),
{
}

/// The UTF-8 encoding of a concatenation is the concatenation of the
/// encodings, so its byte length is the sum of the byte lengths.
proof fn lemma_encode_utf8_concat_len(a: Seq<char>, b: Seq<char>)
    ensures
        vstd::utf8::encode_utf8(a + b).len() == vstd::utf8::encode_utf8(a).len()
            + vstd::utf8::encode_utf8(b).len(),
    decreases a.len(),
{
    if a.len() == 0 {
        assert(a + b =~= b);
    } else {
        assert((a + b)[0] == a[0]);
        assert((a + b).drop_first() =~= a.drop_first() + b);
        lemma_encode_utf8_concat_len(a.drop_first(), b);
    }
}

/// Appending characters to the payload raises the fee by exactly their byte
/// length times the sum of the per-ingress-byte and per-response-byte rates.
/// Stated for payloads whose encoding the running program can hold.
pub proof fn lemma_cycles_cost_concat(payload: Seq<char>, extra: Seq<char>, url_len: nat, bound: u64)
    requires
        vstd::utf8::encode_utf8(payload + extra).len() <= usize::MAX,
    ensures
        cycles_cost(byte_len(payload + extra), url_len, bound) == cycles_cost(
            byte_len(payload),
            url_len,
            bound,
        ) + byte_len(extra) * (INGRESS_MESSAGE_BYTE_RECEIVED_COST
            + HTTP_OUTCALL_BYTE_RECEIEVED_COST),
{
    lemma_encode_utf8_concat_len(payload, extra);
    lemma_cycles_cost_extra_payload_bytes(byte_len(payload), byte_len(extra), url_len, bound);
}

/// Appending `extra` bytes to the payload raises the fee by exactly `extra`
/// times the sum of the per-ingress-byte and per-response-byte rates.
pub proof fn lemma_cycles_cost_extra_payload_bytes(
    payload_len: nat,
    extra: nat,
    url_len: nat,
    bound: u64,
)
    ensures
        cycles_cost(payload_len + extra, url_len, bound) == cycles_cost(payload_len, url_len, bound)
            + extra * (INGRESS_MESSAGE_BYTE_RECEIVED_COST + HTTP_OUTCALL_BYTE_RECEIEVED_COST),
{
    assert(cycles_cost(payload_len + extra, url_len, bound) == cycles_cost(
        payload_len,
        url_len,
        bound,
    ) + extra * (INGRESS_MESSAGE_BYTE_RECEIVED_COST + HTTP_OUTCALL_BYTE_RECEIEVED_COST))
        by (nonlinear_arith);
}

} // verus!
