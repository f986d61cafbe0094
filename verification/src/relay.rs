//! The relay decision pipeline: authorize the caller, compute and charge the
//! fee, accrue the provider's share, enforce the allowlist, build the
//! outbound request, and commit the transport's outcome. The forwarded call
//! itself is the only suspension point and is performed by the surrounding
//! program; between `relay_prepare` and `relay_commit` other operations may
//! run and mutate the registry, which is why accrual happens before the call
//! and commitment touches no provider state.

use vstd::prelude::*;
use vstd::string::StringExecFns;
use crate::allowlist::{Allowlist, host_of, url_host, url_parseable};
use crate::auth::{Auth, AuthTable, spec_has_role};
use crate::cost::{
    byte_len, cycles_cost, json_rpc_cycles_cost, json_rpc_provider_cycles_cost,
    provider_cycles_cost,
};
use crate::errors::RelayError;
use crate::http::{HttpHeader, HttpMethod, HttpResponseData, normalize};
use crate::metrics::Metrics;
use crate::principal::Principal;
use crate::providers::{
    Provider, ProviderRegistry, RegisterProvider, RegisteredProvider, same_but_owed, spec_find,
};
use crate::stable::StableAuthSet;

verus! {

/// Whether every caller holds the Rpc role without an entry in the table.
pub const OPEN_RPC_ACCESS: bool = true;

/// The fee parameters of a resolved provider, carried through the pipeline.
#[derive(Clone, Copy, Debug, PartialEq, Eq, Structural)]
pub struct ProviderFee {
    pub provider_id: u64,
    pub cycles_per_call: u64,
    pub cycles_per_message_byte: u64,
}

/// The fee parameters of a provider record.
pub open spec fn fee_of(p: Provider) -> ProviderFee {
    ProviderFee {
        provider_id: p.provider_id,
        cycles_per_call: p.cycles_per_call,
        cycles_per_message_byte: p.cycles_per_message_byte,
    }
}

/// An outbound call, ready for the transport: method, headers and body are
/// fixed, and `cycles_charged` records what was accepted from the caller.
#[derive(Debug)]
pub struct ForwardRequest {
    pub url: String,
    pub host: String,
    pub method: HttpMethod,
    pub headers: Vec<HttpHeader>,
    pub body: String,
    pub max_response_bytes: u64,
    pub cycles_charged: u128,
}

/// How the transport reported a forwarded call that did not complete.
#[derive(Debug)]
pub struct TransportFailure {
    pub code: u32,
    pub message: String,
}

/// All the state the gateway owns: role table, stable-access set, provider
/// registry, metrics and the allowlist, with the open-access configuration.
#[derive(Debug)]
pub struct GatewayState {
    pub auth: AuthTable,
    pub stable_auth: StableAuthSet,
    pub providers: ProviderRegistry,
    pub metrics: Metrics,
    pub allowlist: Allowlist,
    pub open_rpc_access: bool,
}

impl GatewayState {
    /// Well-formedness of the whole state.
    pub open spec fn wf(&self) -> bool {
        self.providers.wf()
    }

    /// Whether `caller` holds `auth` under this state's configuration.
    pub open spec fn caller_has(&self, caller: Seq<u8>, auth: Auth) -> bool {
        spec_has_role(self.open_rpc_access, self.auth.auth_bits(caller), auth)
    }

    /// A gateway with the given allowlist and open-access setting and
    /// everything else empty.
    pub fn with_config(allowlist: Allowlist, open_rpc_access: bool) -> (s: GatewayState)
        ensures
            s.wf(),
            s.allowlist == allowlist,
            s.open_rpc_access == open_rpc_access,
            forall|id: Seq<u8>| #[trigger] s.auth.auth_bits(id) == 0,
            forall|id: Seq<u8>| !(#[trigger] s.stable_auth.spec_contains(id)),
            s.providers.providers@.len() == 0,
            s.providers.next_provider_id == 0,
            s.metrics.json_rpc_requests == 0,
            s.metrics.json_rpc_request_cycles_charged == 0,
            s.metrics.json_rpc_request_cycles_refunded == 0,
            s.metrics.json_rpc_request_err_no_permission == 0,
            s.metrics.json_rpc_request_err_service_url_host_not_allowed == 0,
            s.metrics.json_rpc_request_err_http_request_error == 0,
            forall|h: Seq<char>| #[trigger] s.metrics.spec_host_requests(h) == 0,
    {
        GatewayState {
            auth: AuthTable::new(),
            stable_auth: StableAuthSet::new(),
            providers: ProviderRegistry::new(),
            metrics: Metrics::new(),
            allowlist,
            open_rpc_access,
        }
    }
}

/// The gateway as it starts: the built-in allowlist, the configured
/// open-access setting, and empty stores.
pub fn initialize() -> (s: GatewayState)
    ensures
        s.wf(),
        crate::allowlist::hosts_view(s.allowlist.hosts@)
            == crate::allowlist::initial_service_hosts(),
        s.open_rpc_access == OPEN_RPC_ACCESS,
        forall|id: Seq<u8>| #[trigger] s.auth.auth_bits(id) == 0,
        forall|id: Seq<u8>| !(#[trigger] s.stable_auth.spec_contains(id)),
        s.providers.providers@.len() == 0,
        s.providers.next_provider_id == 0,
        s.metrics.json_rpc_requests == 0,
        s.metrics.json_rpc_request_cycles_charged == 0,
        s.metrics.json_rpc_request_cycles_refunded == 0,
        s.metrics.json_rpc_request_err_no_permission == 0,
        s.metrics.json_rpc_request_err_service_url_host_not_allowed == 0,
        s.metrics.json_rpc_request_err_http_request_error == 0,
        forall|h: Seq<char>| #[trigger] s.metrics.spec_host_requests(h) == 0,
{
    GatewayState::with_config(Allowlist::initial(), OPEN_RPC_ACCESS)
}

/// The whole fee for one relayed call: the base cost plus, when a provider
/// is targeted, its additive term.
pub open spec fn spec_total_cost(
    payload_len: nat,
    url_len: nat,
    bound: u64,
    provider: Option<ProviderFee>,
) -> int {
    cycles_cost(payload_len, url_len, bound) + (match provider {
        Some(f) => provider_cycles_cost(payload_len, f.cycles_per_call, f.cycles_per_message_byte),
        None => 0,
    })
}

/// The provider's share of the fee.
pub open spec fn spec_provider_share(payload_len: nat, provider: Option<ProviderFee>) -> int {
    match provider {
        Some(f) => provider_cycles_cost(payload_len, f.cycles_per_call, f.cycles_per_message_byte),
        None => 0,
    }
}

/// `post` is `pre` with `amount` cycles accrued to the record carrying `id`:
/// the balance grew by `amount` when the record exists, nothing else changed,
/// and the accrual was a silent no-op when it does not.
pub open spec fn accrued(pre: ProviderRegistry, post: ProviderRegistry, id: u64, amount: u128) -> bool {
    &&& post.next_provider_id == pre.next_provider_id
    &&& post.providers@.len() == pre.providers@.len()
    &&& match spec_find(pre.providers@, id) {
        Some(p) => spec_find(post.providers@, id) matches Some(q) && same_but_owed(
            p,
            q,
            (p.cycles_owed + amount) as u128,
        ),
        None => post.providers@ == pre.providers@,
    }
    &&& forall|id2: u64|
        id2 != id ==> #[trigger] spec_find(post.providers@, id2) == spec_find(pre.providers@, id2)
}

/// The relay decision pipeline's whole contract: how `post` and the result
/// relate to `pre` and the call's inputs, for the anonymous and the provider
/// path alike. Order matters: the caller is authorized first, then the host
/// is validated, and only then is the fee charged and the provider's share
/// accrued, so a rejected call never touches funds.
pub open spec fn relay_prepare_spec(
    pre: GatewayState,
    post: GatewayState,
    caller: Seq<u8>,
    payload: Seq<char>,
    url: Seq<char>,
    bound: u64,
    avail: u128,
    provider: Option<ProviderFee>,
    r: Result<ForwardRequest, RelayError>,
) -> bool {
    let payload_len = byte_len(payload);
    let url_len = byte_len(url);
    let has_rpc = spec_has_role(pre.open_rpc_access, pre.auth.auth_bits(caller), Auth::Rpc);
    let free = spec_has_role(pre.open_rpc_access, pre.auth.auth_bits(caller), Auth::FreeRpc);
    let parseable = url_parseable(url);
    let hostopt = url_host(url);
    let host_ok = parseable && hostopt is Some;
    let allowed = host_ok && pre.allowlist.spec_allows(hostopt.unwrap());
    let total = spec_total_cost(payload_len, url_len, bound, provider);
    let share = spec_provider_share(payload_len, provider);
    let funded = free || avail >= total;
    let success = has_rpc && allowed && funded;
    &&& post.auth == pre.auth
    &&& post.stable_auth == pre.stable_auth
    &&& post.allowlist == pre.allowlist
    &&& post.open_rpc_access == pre.open_rpc_access
    &&& post.wf()
    &&& post.metrics.json_rpc_requests == pre.metrics.json_rpc_requests.saturating_add(1)
    &&& post.metrics.json_rpc_request_err_no_permission == (if !has_rpc {
        pre.metrics.json_rpc_request_err_no_permission.saturating_add(1)
    } else {
        pre.metrics.json_rpc_request_err_no_permission
    })
    &&& post.metrics.json_rpc_request_err_service_url_host_not_allowed == (if has_rpc && host_ok
        && !allowed {
        pre.metrics.json_rpc_request_err_service_url_host_not_allowed.saturating_add(1)
    } else {
        pre.metrics.json_rpc_request_err_service_url_host_not_allowed
    })
    &&& post.metrics.json_rpc_request_err_http_request_error
        == pre.metrics.json_rpc_request_err_http_request_error
    &&& post.metrics.json_rpc_request_cycles_charged == (if success && !free {
        pre.metrics.json_rpc_request_cycles_charged.saturating_add(total as u128)
    } else {
        pre.metrics.json_rpc_request_cycles_charged
    })
    &&& post.metrics.json_rpc_request_cycles_refunded == (if success && !free {
        pre.metrics.json_rpc_request_cycles_refunded.saturating_add((avail - total) as u128)
    } else {
        pre.metrics.json_rpc_request_cycles_refunded
    })
    &&& forall|h: Seq<char>|
        #[trigger] post.metrics.spec_host_requests(h) == (if success && hostopt == Some(h) {
            pre.metrics.spec_host_requests(h).saturating_add(1)
        } else {
            pre.metrics.spec_host_requests(h)
        })
    &&& (if success && !free && provider is Some {
        accrued(pre.providers, post.providers, provider.unwrap().provider_id, share as u128)
    } else {
        post.providers == pre.providers
    })
    &&& (r matches Err(RelayError::NoPermission) <==> !has_rpc)
    &&& (r matches Err(RelayError::InvalidUrl) <==> has_rpc && !parseable)
    &&& (r matches Err(RelayError::HostMissing) <==> has_rpc && parseable && hostopt is None)
    &&& (r matches Err(RelayError::HostNotAllowed) <==> has_rpc && host_ok && !allowed)
    &&& ((r matches Err(e) && e is TooFewCycles) <==> has_rpc && allowed && !funded)
    &&& (match r {
        Err(RelayError::TooFewCycles { required, available }) => required == total as u128
            && available == avail,
        _ => true,
    })
    &&& (r is Ok <==> success)
    &&& (r matches Ok(req) ==> {
        &&& req.url@ == url
        &&& hostopt == Some(req.host@)
        &&& req.method is Post
        &&& req.body@ == payload
        &&& req.max_response_bytes == bound
        &&& req.cycles_charged == (if free {
            0
        } else {
            total as u128
        })
        &&& req.headers@.len() == 2
        &&& req.headers@[0].name@ == "Content-Type"@
        &&& req.headers@[0].value@ == "application/json"@
        &&& req.headers@[1].name@ == "Host"@
        &&& hostopt == Some(req.headers@[1].value@)
    })
}

/// The relay pipeline up to the forwarded call, for a target already
/// resolved to a URL: count the request; reject a caller without the Rpc
/// role; extract and validate the host; compute the fee and reject
/// underfunded calls; accept the fee and accrue the provider's share before
/// any call is issued; and hand back the request to forward.
pub fn json_rpc_request_internal(
    state: &mut GatewayState,
    caller: &Principal,
    json_rpc_payload: &str,
    service_url: &str,
    max_response_bytes: u64,
    cycles_available: u128,
    provider: Option<ProviderFee>,
) -> (r: Result<ForwardRequest, RelayError>)
    requires
        old(state).wf(),
        provider matches Some(f) ==> (spec_find(old(state).providers.providers@, f.provider_id)
            matches Some(p) ==> p.cycles_owed + provider_cycles_cost(
            byte_len(json_rpc_payload@),
            f.cycles_per_call,
            f.cycles_per_message_byte,
        ) <= u128::MAX),
    ensures
        relay_prepare_spec(
            *old(state),
            *final(state),
            caller@,
            json_rpc_payload@,
            service_url@,
            max_response_bytes,
            cycles_available,
            provider,
            r,
        ),
{
    state.metrics.json_rpc_requests = state.metrics.json_rpc_requests.saturating_add(1);
    if !state.auth.has_role(state.open_rpc_access, caller, Auth::Rpc) {
        state.metrics.json_rpc_request_err_no_permission =
            state.metrics.json_rpc_request_err_no_permission.saturating_add(1);
        return Err(RelayError::NoPermission);
    }
    let host = match host_of(service_url) {
        Ok(h) => h,
        Err(e) => {
            return Err(e);
        },
    };
    if !state.allowlist.allows(&host) {
        state.metrics.json_rpc_request_err_service_url_host_not_allowed =
            state.metrics.json_rpc_request_err_service_url_host_not_allowed.saturating_add(1);
        return Err(RelayError::HostNotAllowed);
    }
    let free = state.auth.has_role(state.open_rpc_access, caller, Auth::FreeRpc);
    let mut charged: u128 = 0;
    if !free {
        let provider_cost: u128 = match &provider {
            Some(f) => json_rpc_provider_cycles_cost(
                json_rpc_payload,
                f.cycles_per_call,
                f.cycles_per_message_byte,
            ),
            None => 0,
        };
        let base = json_rpc_cycles_cost(json_rpc_payload, service_url, max_response_bytes);
        let cost = base + provider_cost;
        if cycles_available < cost {
            return Err(RelayError::TooFewCycles { required: cost, available: cycles_available });
        }
        charged = cost;
        if let Some(f) = &provider {
            state.providers.accrue(f.provider_id, provider_cost);
        }
        state.metrics.json_rpc_request_cycles_charged =
            state.metrics.json_rpc_request_cycles_charged.saturating_add(cost);
        state.metrics.json_rpc_request_cycles_refunded =
            state.metrics.json_rpc_request_cycles_refunded.saturating_add(cycles_available - cost);
    }
    state.metrics.inc_host_requests(&host);
    let mut headers: Vec<HttpHeader> = Vec::new();
    headers.push(
        HttpHeader { name: "Content-Type".to_owned(), value: "application/json".to_owned() },
    );
    headers.push(HttpHeader { name: "Host".to_owned(), value: host.clone() });
    Ok(
        ForwardRequest {
            url: service_url.to_owned(),
            host,
            method: HttpMethod::Post,
            headers,
            body: json_rpc_payload.to_owned(),
            max_response_bytes,
            cycles_charged: charged,
        },
    )
}

/// The anonymous relay path: the caller names the target URL itself.
pub fn relay_prepare(
    state: &mut GatewayState,
    caller: &Principal,
    json_rpc_payload: &str,
    service_url: &str,
    max_response_bytes: u64,
    cycles_available: u128,
) -> (r: Result<ForwardRequest, RelayError>)
    requires
        old(state).wf(),
    ensures
        relay_prepare_spec(
            *old(state),
            *final(state),
            caller@,
            json_rpc_payload@,
            service_url@,
            max_response_bytes,
            cycles_available,
            None,
            r,
        ),
{
    json_rpc_request_internal(
        state,
        caller,
        json_rpc_payload,
        service_url,
        max_response_bytes,
        cycles_available,
        None,
    )
}

/// The provider relay path: resolve the provider first — an unknown
/// identifier is rejected before any fee work — then relay to its service
/// URL with the secret key appended, charging its additive fee term.
pub fn relay_via_provider_prepare(
    state: &mut GatewayState,
    caller: &Principal,
    json_rpc_payload: &str,
    provider_id: u64,
    max_response_bytes: u64,
    cycles_available: u128,
) -> (r: Result<ForwardRequest, RelayError>)
    requires
        old(state).wf(),
        spec_find(old(state).providers.providers@, provider_id) matches Some(p) ==> p.cycles_owed
            + provider_cycles_cost(
            byte_len(json_rpc_payload@),
            p.cycles_per_call,
            p.cycles_per_message_byte,
        ) <= u128::MAX,
    ensures
        match spec_find(old(state).providers.providers@, provider_id) {
            None => r matches Err(RelayError::ProviderNotFound) && *final(state) == *old(state),
            Some(p) => relay_prepare_spec(
                *old(state),
                *final(state),
                caller@,
                json_rpc_payload@,
                p.service_url@ + p.api_key@,
                max_response_bytes,
                cycles_available,
                Some(fee_of(p)),
                r,
            ),
        },
{
    let resolved: Option<(String, ProviderFee)> = match state.providers.get(provider_id) {
        None => None,
        Some(p) => {
            let url = p.service_url.clone().concat(p.api_key.as_str());
            Some(
                (
                    url,
                    ProviderFee {
                        provider_id: p.provider_id,
                        cycles_per_call: p.cycles_per_call,
                        cycles_per_message_byte: p.cycles_per_message_byte,
                    },
                ),
            )
        },
    };
    match resolved {
        None => Err(RelayError::ProviderNotFound),
        Some((service_url, fee)) => {
            proof {
                crate::providers::lemma_find_id(old(state).providers.providers@, provider_id);
            }
            json_rpc_request_internal(
                state,
                caller,
                json_rpc_payload,
                service_url.as_str(),
                max_response_bytes,
                cycles_available,
                Some(fee),
            )
        },
    }
}

/// Commit the transport's outcome: a completed call yields the normalized
/// body; a failed one is counted and returned as a transport error. Funds
/// already charged and balances already accrued are not rolled back, and no
/// provider state is touched — in particular, a provider unregistered while
/// the call was in flight needs no accrual here.
pub fn relay_commit(state: &mut GatewayState, outcome: Result<HttpResponseData, TransportFailure>) -> (r: Result<
    Vec<u8>,
    RelayError,
>)
    ensures
        final(state).auth == old(state).auth,
        final(state).stable_auth == old(state).stable_auth,
        final(state).allowlist == old(state).allowlist,
        final(state).open_rpc_access == old(state).open_rpc_access,
        final(state).providers == old(state).providers,
        final(state).metrics.json_rpc_requests == old(state).metrics.json_rpc_requests,
        final(state).metrics.json_rpc_request_cycles_charged == old(state).metrics.json_rpc_request_cycles_charged,
        final(state).metrics.json_rpc_request_cycles_refunded == old(state).metrics.json_rpc_request_cycles_refunded,
        final(state).metrics.json_rpc_request_err_no_permission == old(state).metrics.json_rpc_request_err_no_permission,
        final(state).metrics.json_rpc_request_err_service_url_host_not_allowed == old(state).metrics.json_rpc_request_err_service_url_host_not_allowed,
        final(state).metrics.json_rpc_request_err_http_request_error == (if outcome is Err {
            old(state).metrics.json_rpc_request_err_http_request_error.saturating_add(1)
        } else {
            old(state).metrics.json_rpc_request_err_http_request_error
        }),
        forall|h: Seq<char>|
            #[trigger] final(state).metrics.spec_host_requests(h) == old(state).metrics.spec_host_requests(h),
        r is Ok <==> outcome is Ok,
        outcome matches Ok(resp) ==> r matches Ok(b) && b@ == resp.body@,
        outcome matches Err(f) ==> r matches Err(e) && e is TransportError && e->code == f.code
            && e->message@ == f.message@,
{
    match outcome {
        Ok(resp) => {
            let normalized = normalize(resp);
            Ok(normalized.body)
        },
        Err(f) => {
            state.metrics.json_rpc_request_err_http_request_error =
                state.metrics.json_rpc_request_err_http_request_error.saturating_add(1);
            Err(RelayError::TransportError { code: f.code, message: f.message })
        },
    }
}

/// Grant `auth` to `principal`, creating its entry when absent. Admission is
/// the caller's concern: the surrounding program admits only administrators,
/// through [`crate::auth::is_authorized`].
pub fn authorize(state: &mut GatewayState, principal: &Principal, auth: Auth)
    ensures
        final(state).auth.auth_bits(principal@) == old(state).auth.auth_bits(principal@)
            | crate::auth::spec_role_bit(auth),
        forall|id: Seq<u8>| id != principal@
            ==> #[trigger] final(state).auth.auth_bits(id) == old(state).auth.auth_bits(id),
        final(state).stable_auth == old(state).stable_auth,
        final(state).providers == old(state).providers,
        final(state).metrics == old(state).metrics,
        final(state).allowlist == old(state).allowlist,
        final(state).open_rpc_access == old(state).open_rpc_access,
{
    state.auth.authorize(principal, auth);
}

/// Register a provider under the caller's ownership. Admitted only for
/// callers holding RegisterProvider; the identifier is assigned from the
/// metadata counter atomically with the insertion, and is fresh.
pub fn register_provider(state: &mut GatewayState, caller: &Principal, provider: RegisterProvider) -> (id: u64)
    requires
        old(state).wf(),
        old(state).providers.next_provider_id < u64::MAX,
        old(state).caller_has(caller@, Auth::RegisterProvider),
    ensures
        final(state).wf(),
        id == old(state).providers.next_provider_id,
        final(state).providers.next_provider_id == old(state).providers.next_provider_id + 1,
        forall|k: int|
            0 <= k < old(state).providers.providers@.len() ==> #[trigger] old(state).providers.providers@[k].provider_id != id,
        final(state).providers.providers@.len() == old(state).providers.providers@.len() + 1,
        forall|k: int|
            0 <= k < old(state).providers.providers@.len() ==> #[trigger] final(state).providers.providers@[k] == old(state).providers.providers@[k],
        ({
            let p = final(state).providers.providers@.last();
            &&& p.provider_id == id
            &&& p.owner@ == caller@
            &&& p.chain_id == provider.chain_id
            &&& p.service_url@ == provider.service_url@
            &&& p.api_key@ == provider.api_key@
            &&& p.cycles_per_call == provider.cycles_per_call
            &&& p.cycles_per_message_byte == provider.cycles_per_message_byte
            &&& p.cycles_owed == 0
            &&& spec_find(final(state).providers.providers@, id) == Some(p)
        }),
        forall|id2: u64| id2 != id ==> #[trigger] spec_find(final(state).providers.providers@, id2)
            == spec_find(old(state).providers.providers@, id2),
        final(state).auth == old(state).auth,
        final(state).stable_auth == old(state).stable_auth,
        final(state).metrics == old(state).metrics,
        final(state).allowlist == old(state).allowlist,
        final(state).open_rpc_access == old(state).open_rpc_access,
{
    state.providers.register(caller.duplicate(), provider)
}

/// Remove a provider record. Admitted only for callers holding
/// RegisterProvider; a record may be removed only by its owner or an
/// administrator, and an unknown identifier is a no-op. The metadata counter
/// is untouched, so the identifier is never assigned again.
pub fn unregister_provider(state: &mut GatewayState, caller: &Principal, provider_id: u64)
    requires
        old(state).wf(),
        old(state).caller_has(caller@, Auth::RegisterProvider),
        spec_find(old(state).providers.providers@, provider_id) matches Some(p) ==> (p.owner@
            == caller@ || old(state).caller_has(caller@, Auth::Admin)),
    ensures
        final(state).wf(),
        final(state).providers.next_provider_id == old(state).providers.next_provider_id,
        spec_find(final(state).providers.providers@, provider_id) is None,
        forall|id2: u64| id2 != provider_id ==> #[trigger] spec_find(
            final(state).providers.providers@,
            id2,
        ) == spec_find(old(state).providers.providers@, id2),
        spec_find(old(state).providers.providers@, provider_id) is Some ==> final(state).providers.providers@.len() == old(state).providers.providers@.len() - 1,
        spec_find(old(state).providers.providers@, provider_id) is None ==> final(state).providers.providers@ == old(state).providers.providers@,
        final(state).auth == old(state).auth,
        final(state).stable_auth == old(state).stable_auth,
        final(state).metrics == old(state).metrics,
        final(state).allowlist == old(state).allowlist,
        final(state).open_rpc_access == old(state).open_rpc_access,
{
    let is_admin = state.auth.has_role(state.open_rpc_access, caller, Auth::Admin);
    state.providers.unregister(caller, is_admin, provider_id);
}

/// The balance that a withdrawal would hand to the value-transfer
/// collaborator: the provider's current accrued cycles. Admitted only for
/// callers holding RegisterProvider — any such caller, not only the owner —
/// and the balance is not cleared here.
pub fn withdraw_amount(state: &GatewayState, caller: &Principal, provider_id: u64) -> (r: Option<
    u128,
>)
    requires
        state.caller_has(caller@, Auth::RegisterProvider),
    ensures
        match spec_find(state.providers.providers@, provider_id) {
            Some(p) => r == Some(p.cycles_owed),
            None => r is None,
        },
{
    state.providers.owed_cycles(provider_id)
}

/// The public provider summaries, without the secret key field.
pub fn get_providers(state: &GatewayState) -> (r: Vec<RegisteredProvider>)
    ensures
        r@.len() == state.providers.providers@.len(),
        forall|k: int|
            0 <= k < r@.len() ==> {
                let p = state.providers.providers@[k];
                let q = #[trigger] r@[k];
                &&& q.provider_id == p.provider_id
                &&& q.owner@ == p.owner@
                &&& q.chain_id == p.chain_id
                &&& q.service_url@ == p.service_url@
                &&& q.cycles_per_call == p.cycles_per_call
                &&& q.cycles_per_message_byte == p.cycles_per_message_byte
            },
{
    state.providers.get_providers()
}

/// First-caller bootstrap after a fresh deployment or an upgrade: the
/// deploying identity receives every role and stable access in one step.
pub fn bootstrap(state: &mut GatewayState, caller: &Principal)
    ensures
        final(state).auth.auth_bits(caller@) == old(state).auth.auth_bits(caller@) | 15u32,
        forall|id: Seq<u8>| id != caller@
            ==> #[trigger] final(state).auth.auth_bits(id) == old(state).auth.auth_bits(id),
        forall|id: Seq<u8>|
            #[trigger] final(state).stable_auth.spec_contains(id) <==> (old(state).stable_auth.spec_contains(id) || id == caller@),
        final(state).providers == old(state).providers,
        final(state).metrics == old(state).metrics,
        final(state).allowlist == old(state).allowlist,
        final(state).open_rpc_access == old(state).open_rpc_access,
{
    state.auth.authorize(caller, Auth::Admin);
    state.auth.authorize(caller, Auth::RegisterProvider);
    state.auth.authorize(caller, Auth::Rpc);
    state.auth.authorize(caller, Auth::FreeRpc);
    state.stable_auth.insert(caller.duplicate());
    proof {
        let b = old(state).auth.auth_bits(caller@);
        assert(b | 1u32 | 4u32 | 2u32 | 8u32 == b | 15u32) by (bit_vector);
    }
}

} // verus!
