//! The lookup capability: one operation from a query to its response.

use crate::external::{api_call, response_text};
use vstd::prelude::*;

verus! {

/// A lookup capability: one operation that answers a query.
///
/// What a capability answers is its own affair. `answers` is the promise that
/// an implementation makes about it; unless an implementation says more, it
/// holds of every response.
pub trait ApiCaller: Send + Sync {
    /// Whether `response` is an answer that this capability may give to
    /// `query`.
    open spec fn answers(&self, query: Seq<char>, response: Seq<char>) -> bool {
        true
    }

    /// Answers `query`.
    fn call(&self, query: &str) -> (response: String)
        ensures
            self.answers(query@, response@),
    ;
}

/// The capability that asks the stand-in service.
pub struct RealApi;

impl ApiCaller for RealApi {
    /// The stand-in service has one answer to each query.
    open spec fn answers(&self, query: Seq<char>, response: Seq<char>) -> bool {
        response == response_text(query)
    }

    fn call(&self, query: &str) -> (response: String) {
        api_call(query)
    }
}

} // verus!
