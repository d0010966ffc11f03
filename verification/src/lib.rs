//! Incremental ingestion-and-backfill engine for a governance proposal feed.
//!
//! The library keeps a local relational store synchronized with a remote
//! proposal feed and drives an enrichment pipeline that attaches analysis
//! to proposals lacking one.  Everything algorithmic lives here, verified:
//! cursor-based pagination over two time axes, dedup/merge of the two axis
//! windows, transactional idempotent upsert semantics, backfill selection,
//! and the recurring two-phase scheduler.  Network, database and process
//! plumbing stay outside, handing the library plain values.

pub mod collector;
pub mod config;
pub mod errors;
pub mod generation;
pub mod proposal;
pub mod recommendation;
pub mod scheduler;
pub mod store;

pub use errors::CoreError;

use vstd::prelude::*;

verus! {

/// Query parameters of the read boundary's by-date proposals listing.
pub struct ProposalsQueryParams {
    pub date: String,
}

} // verus!
