//! Verified core of a catalog-ingestion pipeline: proxy-pool management,
//! a retrying fetch client modelled as a state machine, a chunked task
//! dispatcher, and idempotent upsert persistence over an in-memory store
//! model. Network, database and runtime plumbing live outside the library
//! and hand plain values in and out.

pub mod dispatch;
pub mod fetch;
pub mod pages;
pub mod proxy;
pub mod records;
pub mod staff;
pub mod store;
pub mod table;

use vstd::prelude::*;

verus! {

/// Errors surfaced by the pipeline. Transport and status failures are
/// retried inside a fetch; the remaining variants are terminal for the
/// item or for the run.
#[derive(Debug, Clone, PartialEq, Eq)]
pub enum CustomError {
    /// The proxy pool is empty; no fetch can be attempted.
    NoProxiesAvailable,
    /// Every allowed attempt of one fetch failed.
    FailedToFetchAfterRetries,
    /// A 2xx response carried a body that failed structural decode.
    DecodeError,
    /// One of the proxy-list sources could not be fetched.
    SourceUnavailable,
    /// Any other failure, described by a message.
    Other(String),
}

} // verus!
