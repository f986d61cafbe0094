//! HTTP data as the relay sees it: headers, responses, the normalization
//! that strips non-deterministic header fields, and the routing of the
//! gateway's own diagnostic HTTP endpoints.

use vstd::prelude::*;
use vstd::string::StrSliceExecFns;

verus! {

/// The HTTP method of an outbound call. The relay only ever posts.
#[derive(Clone, Copy, Debug, PartialEq, Eq, Structural)]
pub enum HttpMethod {
    Post,
}

/// One HTTP header.
#[derive(Debug)]
pub struct HttpHeader {
    pub name: String,
    pub value: String,
}

/// An HTTP response as the transport hands it back.
#[derive(Debug)]
pub struct HttpResponseData {
    pub status: u64,
    pub body: Vec<u8>,
    pub headers: Vec<HttpHeader>,
}

/// Normalize an upstream response: status and body are preserved verbatim
/// and the header list is replaced by an empty one, unconditionally. Header
/// fields (notably dates) differ across independent executions of the same
/// call and would prevent bit-for-bit agreement on the result.
pub fn normalize(response: HttpResponseData) -> (r: HttpResponseData)
    ensures
        r.status == response.status,
        r.body@ == response.body@,
        r.headers@.len() == 0,
{
    HttpResponseData {
        status: response.status,
        body: response.body,
        headers: Vec::<HttpHeader>::new(),
    }
}

/// The characters of `s` before its first question mark.
pub open spec fn path_prefix(s: Seq<char>) -> Seq<char>
    decreases s.len(),
{
    if s.len() == 0 {
        s
    } else if s[0] == '?' {
        Seq::empty()
    } else {
        seq![s[0]] + path_prefix(s.drop_first())
    }
}

/// Cutting `s` at the index of its first question mark yields exactly the
/// prefix before it.
proof fn lemma_path_prefix_take(s: Seq<char>, k: int)
    requires
        0 <= k <= s.len(),
        forall|j: int| 0 <= j < k ==> s[j] != '?',
        k < s.len() ==> s[k] == '?',
    ensures
        path_prefix(s) == s.take(k),
    decreases k,
{
    if k == 0 {
        if s.len() == 0 {
            assert(s.take(0) =~= s);
        } else {
            assert(s.take(0) =~= Seq::<char>::empty());
        }
    } else {
        assert(forall|j: int| 0 <= j < s.drop_first().len() ==> s.drop_first()[j] == s[j + 1]);
        lemma_path_prefix_take(s.drop_first(), k - 1);
        assert(seq![s[0]] + s.drop_first().take(k - 1) =~= s.take(k));
    }
}

/// The gateway's own diagnostic HTTP endpoints.
#[derive(Clone, Copy, Debug, PartialEq, Eq, Structural)]
pub enum Route {
    /// The metrics exposition endpoint.
    Metrics,
    /// The diagnostic log endpoint.
    Logs,
    /// Any other path.
    NotFound,
}

/// Which endpoint a request URL addresses: its path, taken up to the first
/// question mark, routed by exact match.
pub open spec fn spec_route(url: Seq<char>) -> Route {
    if path_prefix(url) == "/metrics"@ {
        Route::Metrics
    } else if path_prefix(url) == "/logs"@ {
        Route::Logs
    } else {
        Route::NotFound
    }
}

/// The index of the first question mark of `url`, or its length.
fn first_query_mark(url: &str) -> (k: usize)
    ensures
        k <= url@.len(),
        forall|j: int| 0 <= j < k ==> url@[j] != '?',
        k < url@.len() ==> url@[k as int] == '?',
{
    let n = url.unicode_len();
    let mut i: usize = 0;
    while i < n
        invariant
            i <= n,
            n == url@.len(),
            forall|j: int| 0 <= j < i ==> url@[j] != '?',
        decreases n - i,
    {
        if url.get_char(i) == '?' {
            return i;
        }
        i = i + 1;
    }
    n
}

/// Route a request URL to the endpoint its path addresses.
pub fn route(url: &str) -> (r: Route)
    ensures
        r == spec_route(url@),
{
    let k = first_query_mark(url);
    let path = url.substring_char(0, k);
    proof {
        lemma_path_prefix_take(url@, k as int);
    }
    let path_owned = path.to_owned();
    let metrics_path: String = "/metrics".to_owned();
    let logs_path: String = "/logs".to_owned();
    if path_owned == metrics_path {
        Route::Metrics
    } else if path_owned == logs_path {
        Route::Logs
    } else {
        Route::NotFound
    }
}

} // verus!
