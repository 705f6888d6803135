//! A deduplicating query pipeline: queries are ingested one at a time, answered
//! from a cache when they were seen before, and handed to a lookup capability
//! otherwise.

use vstd::prelude::*;

pub mod api;
pub mod cache;
pub mod external;
pub mod ingestion;
pub mod pipeline;
pub mod processor;
pub mod trace;

verus! {

/// The text of a query. Two queries are the same query exactly when their
/// characters are the same.
pub type Query = String;

/// The text that a lookup gives for a query.
pub type Response = String;

} // verus!
