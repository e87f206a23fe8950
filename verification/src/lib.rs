//! A verified core for a proxy broker: candidate deduplication, judge
//! selection, per-protocol negotiation packets, HTTP response parsing and
//! scoring, anonymity classification, proxy statistics and the live pool.
//!
//! Network and file I/O stay outside this crate; the logic here is stated in
//! contracts and checked by Verus.

pub mod argument;
pub mod checker;
pub mod geo;
pub mod judge;
pub mod negotiators;
pub mod pool;
pub mod proto;
pub mod provider;
pub mod proxy;
pub mod queue;
pub mod resolver;
pub mod response;
pub mod serializer;
pub mod server;
pub mod strutil;
