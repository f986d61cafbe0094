//! Core of a metered JSON-RPC relay gateway: callers are authorized through a
//! bit-flag role table, charged a cycles fee computed from request and response
//! sizes, and their payloads are forwarded to allowlisted upstream hosts.
//! Registered providers carry their own fee schedule and accrue an owed
//! balance; upstream responses are normalized so that independent executions
//! agree on the result bit for bit.

pub mod allowlist;
pub mod auth;
pub mod cost;
pub mod errors;
pub mod http;
pub mod metrics;
pub mod principal;
pub mod providers;
pub mod relay;
pub mod stable;
