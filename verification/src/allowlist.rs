//! Allowlist enforcement: a fixed-at-startup set of permitted upstream
//! hostnames, tested by exact string match on the host component of the
//! target URL.

use vstd::prelude::*;
use crate::errors::RelayError;

verus! {

/// Whether `url::Url::parse` accepts the string as an absolute URL. Parsing
/// is a pure function of the string alone.
pub uninterp spec fn url_parseable(s: Seq<char>) -> bool;

/// The host component that `url::Url::host_str` reports for the parsed URL,
/// absent for URLs without a host. A pure function of the string alone;
/// meaningful only when the string is parseable.
pub uninterp spec fn url_host(s: Seq<char>) -> Option<Seq<char>>;

/// How extracting the host from a URL string went.
pub enum HostExtraction {
    /// The string is not an absolute URL.
    Invalid,
    /// The URL parses but has no host component.
    NoHost,
    /// The host component of the URL.
    Host(String),
}

/// Relies on `url::Url::parse` and `url::Url::host_str` of the `url` crate:
/// parsing accepts exactly the absolute URLs, and `host_str` reports the host
/// component of a parsed URL, absent for cannot-be-a-base URLs. Both are
/// deterministic functions of the input string.
#[verifier::external_body]
fn extract_host(service_url: &str) -> (r: HostExtraction)
    ensures
        match r {
            HostExtraction::Invalid => !url_parseable(service_url@),
            HostExtraction::NoHost => url_parseable(service_url@) && url_host(
                service_url@,
            ) is None,
            HostExtraction::Host(h) => url_parseable(service_url@) && url_host(service_url@)
                == Some(h@),
        },
{
    match url::Url::parse(service_url) {
        Err(_) => HostExtraction::Invalid,
        Ok(parsed) => match parsed.host_str() {
            None => HostExtraction::NoHost,
            Some(h) => HostExtraction::Host(h.to_string()),
        },
    }
}

/// The host component of `service_url`, or the error that says why there is
/// none: `InvalidUrl` when the string does not parse, `HostMissing` when it
/// parses but has no host.
pub fn host_of(service_url: &str) -> (r: Result<String, RelayError>)
    ensures
        match r {
            Ok(h) => url_parseable(service_url@) && url_host(service_url@) == Some(h@),
            Err(RelayError::InvalidUrl) => !url_parseable(service_url@),
            Err(RelayError::HostMissing) => url_parseable(service_url@) && url_host(
                service_url@,
            ) is None,
            Err(_) => false,
        },
{
    match extract_host(service_url) {
        HostExtraction::Invalid => Err(RelayError::InvalidUrl),
        HostExtraction::NoHost => Err(RelayError::HostMissing),
        HostExtraction::Host(h) => Ok(h),
    }
}

/// The char sequences of a sequence of strings.
pub open spec fn hosts_view(hosts: Seq<String>) -> Seq<Seq<char>> {
    Seq::new(hosts.len(), |i: int| hosts[i]@)
}

/// The hostnames permitted at startup.
pub open spec fn initial_service_hosts() -> Seq<Seq<char>> {
    seq![
        "cloudflare-eth.com"@,
        "ethereum.publicnode.com"@,
        "eth-mainnet.g.alchemy.com"@,
        "eth-goerli.g.alchemy.com"@,
        "rpc.flashbots.net"@,
        "eth-mainnet.blastapi.io"@,
        "ethereumnodelight.app.runonflux.io"@,
        "eth.nownodes.io"@,
        "rpc.ankr.com/eth_goerli"@,
        "mainnet.infura.io"@,
        "eth.getblock.io"@,
        "rpc.kriptonio.com"@,
        "api.0x.org"@,
        "erigon-mainnet--rpc.datahub.figment.io"@,
        "archivenode.io"@,
        "eth-mainnet.nodereal.io"@,
        "ethereum-mainnet.s.chainbase.online"@,
        "eth.llamarpc.com"@,
        "ethereum-mainnet-rpc.allthatnode.com"@,
        "api.zmok.io"@,
        "in-light.eth.linkpool.iono"@,
        "api.mycryptoapi.com"@,
        "mainnet.eth.cloud.ava.dono"@,
        "eth-mainnet.gateway.pokt.network"@,
    ]
}

/// The set of permitted upstream hostnames. Not mutable at runtime.
#[derive(Debug)]
pub struct Allowlist {
    pub hosts: Vec<String>,
}

impl Allowlist {
    /// Whether `host` is, byte for byte, one of the configured hostnames.
    pub open spec fn spec_allows(&self, host: Seq<char>) -> bool {
        exists|k: int| 0 <= k < self.hosts@.len() && self.hosts@[k]@ == host
    }

    /// An allowlist of exactly the given hostnames.
    pub fn from_hosts(hosts: Vec<String>) -> (a: Allowlist)
        ensures
            a.hosts@ == hosts@,
    {
        Allowlist { hosts }
    }

    /// The allowlist configured at startup.
    pub fn initial() -> (a: Allowlist)
        ensures
            hosts_view(a.hosts@) == initial_service_hosts(),
    {
        let mut hosts: Vec<String> = Vec::new();
        hosts.push("cloudflare-eth.com".to_owned());
        hosts.push("ethereum.publicnode.com".to_owned());
        hosts.push("eth-mainnet.g.alchemy.com".to_owned());
        hosts.push("eth-goerli.g.alchemy.com".to_owned());
        hosts.push("rpc.flashbots.net".to_owned());
        hosts.push("eth-mainnet.blastapi.io".to_owned());
        hosts.push("ethereumnodelight.app.runonflux.io".to_owned());
        hosts.push("eth.nownodes.io".to_owned());
        hosts.push("rpc.ankr.com/eth_goerli".to_owned());
        hosts.push("mainnet.infura.io".to_owned());
        hosts.push("eth.getblock.io".to_owned());
        hosts.push("rpc.kriptonio.com".to_owned());
        hosts.push("api.0x.org".to_owned());
        hosts.push("erigon-mainnet--rpc.datahub.figment.io".to_owned());
        hosts.push("archivenode.io".to_owned());
        hosts.push("eth-mainnet.nodereal.io".to_owned());
        hosts.push("ethereum-mainnet.s.chainbase.online".to_owned());
        hosts.push("eth.llamarpc.com".to_owned());
        hosts.push("ethereum-mainnet-rpc.allthatnode.com".to_owned());
        hosts.push("api.zmok.io".to_owned());
        hosts.push("in-light.eth.linkpool.iono".to_owned());
        hosts.push("api.mycryptoapi.com".to_owned());
        hosts.push("mainnet.eth.cloud.ava.dono".to_owned());
        hosts.push("eth-mainnet.gateway.pokt.network".to_owned());
        proof {
            assert(hosts_view(hosts@) =~= initial_service_hosts());
        }
        Allowlist { hosts }
    }

    /// Whether `host` is permitted: true exactly when it is byte-identical
    /// to a configured entry. No prefix, suffix or case-folding match.
    pub fn allows(&self, host: &String) -> (r: bool)
        ensures
            r == self.spec_allows(host@),
    {
        let n = self.hosts.len();
        let mut i: usize = 0;
        while i < n
            invariant
                i <= n,
                n == self.hosts@.len(),
                forall|k: int| 0 <= k < i ==> self.hosts@[k]@ != host@,
            decreases n - i,
        {
            if self.hosts[i] == *host {
                return true;
            }
            i = i + 1;
        }
        false
    }
}

} // verus!
