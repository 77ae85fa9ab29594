//! A proxy-liveness and trust-filtering library.
//!
//! Candidate `ip:port` proxies are probed through a TLS identity endpoint;
//! a candidate is accepted only when the probed identity differs from the
//! caller's own baseline address and no blocklist filter rejects it.
//! Accepted candidates are enriched with geographic and network-ownership
//! metadata and rendered as flat records.

pub mod evaluate;
pub mod filter;
pub mod geo;
pub mod http;
pub mod ip;
pub mod persist;
pub mod scheduler;
pub mod text;
