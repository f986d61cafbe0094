//! Process-lifetime usage counters. Metrics are observational, not
//! authoritative accounting: counters saturate instead of overflowing, and
//! they are reset when the process restarts.

use vstd::prelude::*;

verus! {

/// Relay request count for one upstream host.
#[derive(Debug)]
pub struct HostRequestCount {
    pub host: String,
    pub count: u64,
}

/// The count recorded for `host` in `entries`: the count of the first entry
/// with that host, or zero when there is none.
pub open spec fn host_count(entries: Seq<HostRequestCount>, host: Seq<char>) -> u64
    decreases entries.len(),
{
    if entries.len() == 0 {
        0
    } else if entries[0].host@ == host {
        entries[0].count
    } else {
        host_count(entries.drop_first(), host)
    }
}

/// Counters kept while the process runs.
#[derive(Debug)]
pub struct Metrics {
    /// Relay calls received, including rejected ones.
    pub json_rpc_requests: u64,
    /// Cycles accepted from callers.
    pub json_rpc_request_cycles_charged: u128,
    /// Cycles offered beyond the fee and left for the transport to return.
    pub json_rpc_request_cycles_refunded: u128,
    /// Relay calls rejected for lack of the Rpc role.
    pub json_rpc_request_err_no_permission: u64,
    /// Relay calls rejected because the host is not allowlisted.
    pub json_rpc_request_err_service_url_host_not_allowed: u64,
    /// Forwarded calls that the transport reported as failed.
    pub json_rpc_request_err_http_request_error: u64,
    /// Relay calls per upstream host.
    pub json_rpc_host_requests: Vec<HostRequestCount>,
}

impl Metrics {
    /// The count recorded for `host` (zero when absent).
    pub open spec fn spec_host_requests(&self, host: Seq<char>) -> u64 {
        host_count(self.json_rpc_host_requests@, host)
    }

    /// Fresh metrics: every counter is zero.
    pub fn new() -> (m: Metrics)
        ensures
            m.json_rpc_requests == 0,
            m.json_rpc_request_cycles_charged == 0,
            m.json_rpc_request_cycles_refunded == 0,
            m.json_rpc_request_err_no_permission == 0,
            m.json_rpc_request_err_service_url_host_not_allowed == 0,
            m.json_rpc_request_err_http_request_error == 0,
            forall|h: Seq<char>| #[trigger] m.spec_host_requests(h) == 0,
    {
        Metrics {
            json_rpc_requests: 0,
            json_rpc_request_cycles_charged: 0,
            json_rpc_request_cycles_refunded: 0,
            json_rpc_request_err_no_permission: 0,
            json_rpc_request_err_service_url_host_not_allowed: 0,
            json_rpc_request_err_http_request_error: 0,
            json_rpc_host_requests: Vec::new(),
        }
    }

    /// Add one to the counter of `host`, creating the entry when absent.
    /// Counts for other hosts are unchanged, as is every other field.
    #[verifier::loop_isolation(false)]
    pub fn inc_host_requests(&mut self, host: &String)
        ensures
            final(self).spec_host_requests(host@) == old(self).spec_host_requests(
                host@,
            ).saturating_add(1),
            forall|h: Seq<char>| h != host@
                ==> #[trigger] final(self).spec_host_requests(h) == old(self).spec_host_requests(h),
            final(self).json_rpc_requests == old(self).json_rpc_requests,
            final(self).json_rpc_request_cycles_charged == old(
                self,
            ).json_rpc_request_cycles_charged,
            final(self).json_rpc_request_cycles_refunded == old(
                self,
            ).json_rpc_request_cycles_refunded,
            final(self).json_rpc_request_err_no_permission == old(
                self,
            ).json_rpc_request_err_no_permission,
            final(self).json_rpc_request_err_service_url_host_not_allowed == old(
                self,
            ).json_rpc_request_err_service_url_host_not_allowed,
            final(self).json_rpc_request_err_http_request_error == old(
                self,
            ).json_rpc_request_err_http_request_error,
    {
        let n = self.json_rpc_host_requests.len();
        let mut i: usize = 0;
        while i < n
            invariant
                i <= n,
                *self == *old(self),
                n == self.json_rpc_host_requests@.len(),
                forall|k: int| 0 <= k < i ==> self.json_rpc_host_requests@[k].host@ != host@,
            decreases n - i,
        {
            if self.json_rpc_host_requests[i].host == *host {
                let ghost old_entries = self.json_rpc_host_requests@;
                let bumped = self.json_rpc_host_requests[i].count.saturating_add(1);
                let entry = HostRequestCount { host: host.clone(), count: bumped };
                self.json_rpc_host_requests.set(i, entry);
                proof {
                    lemma_host_count_skip(old_entries, host@, i as int);
                    assert(old_entries.skip(i as int)[0] == old_entries[i as int]);
                    lemma_host_count_skip(self.json_rpc_host_requests@, host@, i as int);
                    assert(self.json_rpc_host_requests@.skip(i as int)[0]
                        == self.json_rpc_host_requests@[i as int]);
                    assert forall|h: Seq<char>| h != host@ implies
                        #[trigger] host_count(self.json_rpc_host_requests@, h)
                            == host_count(old_entries, h) by {
                        lemma_host_count_update_other(old_entries, i as int, entry, h);
                        assert(self.json_rpc_host_requests@
                            =~= old_entries.update(i as int, entry));
                    }
                }
                return ;
            }
            i = i + 1;
        }
        let ghost old_entries = self.json_rpc_host_requests@;
        let entry = HostRequestCount { host: host.clone(), count: 1 };
        assert(entry.host@ == host@);
        self.json_rpc_host_requests.push(entry);
        proof {
            lemma_host_count_absent(old_entries, host@);
            assert(host_count(old_entries, host@) == 0);
            assert(host_count(old_entries, host@).saturating_add(1) == 1);
            lemma_host_count_push(old_entries, entry, host@);
            assert(host_count(self.json_rpc_host_requests@, host@) == 1);
            assert forall|h: Seq<char>| h != host@ implies
                #[trigger] host_count(self.json_rpc_host_requests@, h)
                    == host_count(old_entries, h) by {
                lemma_host_count_push(old_entries, entry, h);
            }
        }
    }
}

/// A host with no entry has count zero.
proof fn lemma_host_count_absent(entries: Seq<HostRequestCount>, host: Seq<char>)
    requires
        forall|k: int| 0 <= k < entries.len() ==> entries[k].host@ != host,
    ensures
        host_count(entries, host) == 0,
    decreases entries.len(),
{
    if entries.len() > 0 {
        assert(forall|k: int| 0 <= k < entries.drop_first().len()
            ==> entries.drop_first()[k] == entries[k + 1]);
        lemma_host_count_absent(entries.drop_first(), host);
    }
}

/// Looking up a host skips over a prefix with no entry for it.
proof fn lemma_host_count_skip(entries: Seq<HostRequestCount>, host: Seq<char>, i: int)
    requires
        0 <= i <= entries.len(),
        forall|k: int| 0 <= k < i ==> entries[k].host@ != host,
    ensures
        host_count(entries, host) == host_count(entries.skip(i), host),
    decreases i,
{
    if i > 0 {
        assert(entries.drop_first() =~= entries.skip(1));
        lemma_host_count_skip(entries.drop_first(), host, i - 1);
        assert(entries.drop_first().skip(i - 1) =~= entries.skip(i));
    } else {
        assert(entries.skip(0) =~= entries);
    }
}

/// Replacing the entry at `i` with one for the same host leaves every other
/// host's count unchanged.
proof fn lemma_host_count_update_other(
    entries: Seq<HostRequestCount>,
    i: int,
    e: HostRequestCount,
    host: Seq<char>,
)
    requires
        0 <= i < entries.len(),
        e.host@ == entries[i].host@,
        host != e.host@,
    ensures
        host_count(entries.update(i, e), host) == host_count(entries, host),
    decreases entries.len(),
{
    let updated = entries.update(i, e);
    if i == 0 {
        assert(updated.drop_first() =~= entries.drop_first());
    } else {
        assert(updated[0] == entries[0]);
        if entries[0].host@ != host {
            assert(updated.drop_first() =~= entries.drop_first().update(i - 1, e));
            lemma_host_count_update_other(entries.drop_first(), i - 1, e, host);
        }
    }
}

/// Appending an entry changes only its own host's count, and only when that
/// host had no entry before.
proof fn lemma_host_count_push(entries: Seq<HostRequestCount>, e: HostRequestCount, host: Seq<char>)
    ensures
        host != e.host@ ==> host_count(entries.push(e), host) == host_count(entries, host),
        host == e.host@ && (forall|k: int| 0 <= k < entries.len() ==> entries[k].host@ != host)
            ==> host_count(entries.push(e), host) == e.count,
    decreases entries.len(),
{
    let pushed = entries.push(e);
    assert(pushed.len() == entries.len() + 1);
    if entries.len() == 0 {
        assert(pushed[0] == e);
        if host != e.host@ {
            assert(pushed.drop_first() =~= Seq::<HostRequestCount>::empty());
            assert(host_count(Seq::<HostRequestCount>::empty(), host) == 0);
        }
    } else {
        assert(pushed[0] == entries[0]);
        assert(pushed.drop_first() =~= entries.drop_first().push(e));
        if entries[0].host@ != host {
            assert(forall|k: int| 0 <= k < entries.drop_first().len()
                ==> entries.drop_first()[k] == entries[k + 1]);
            lemma_host_count_push(entries.drop_first(), e, host);
        }
    }
}

} // verus!
