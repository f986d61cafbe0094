use iceth::allowlist::{host_of, Allowlist};
use iceth::errors::RelayError;

fn small_allowlist() -> Allowlist {
    Allowlist::from_hosts(vec![
        "cloudflare-eth.com".to_string(),
        "eth-mainnet.g.alchemy.com".to_string(),
    ])
}

#[test]
fn allows_exact_match_only() {
    let a = small_allowlist();
    assert!(a.allows(&"cloudflare-eth.com".to_string()));
    assert!(a.allows(&"eth-mainnet.g.alchemy.com".to_string()));
    assert!(!a.allows(&"example.com".to_string()));
    // No prefix or suffix matches.
    assert!(!a.allows(&"cloudflare-eth.com.evil.example".to_string()));
    assert!(!a.allows(&"sub.cloudflare-eth.com".to_string()));
}

#[test]
fn allows_is_case_sensitive() {
    let a = small_allowlist();
    assert!(!a.allows(&"Cloudflare-eth.com".to_string()));
    assert!(!a.allows(&"CLOUDFLARE-ETH.COM".to_string()));
}

#[test]
fn allows_rejects_trailing_slash() {
    let a = small_allowlist();
    assert!(!a.allows(&"cloudflare-eth.com/".to_string()));
}

#[test]
fn initial_allowlist_holds_the_default_hosts() {
    let a = Allowlist::initial();
    assert!(a.allows(&"cloudflare-eth.com".to_string()));
    assert!(a.allows(&"eth-mainnet.gateway.pokt.network".to_string()));
    assert!(!a.allows(&"example.com".to_string()));
}

#[test]
fn host_of_extracts_the_host() {
    assert_eq!(
        host_of("https://cloudflare-eth.com"),
        Ok("cloudflare-eth.com".to_string())
    );
    // The host differs from the raw URL: scheme, path and query are gone.
    assert_eq!(
        host_of("https://example.com/v1/path?key=value"),
        Ok("example.com".to_string())
    );
}

#[test]
fn host_of_rejects_unparseable_urls() {
    assert_eq!(host_of("not a url"), Err(RelayError::InvalidUrl));
    assert_eq!(host_of(""), Err(RelayError::InvalidUrl));
}

#[test]
fn host_of_rejects_hostless_urls() {
    assert_eq!(host_of("data:text/plain,hello"), Err(RelayError::HostMissing));
    assert_eq!(host_of("unix:/run/service.socket"), Err(RelayError::HostMissing));
}
