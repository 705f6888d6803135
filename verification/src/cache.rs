//! The answer cache: a map from queries to responses in which the first answer
//! recorded for a query stays.

use crate::{Query, Response};
use vstd::hash_map::StringHashMap;
use vstd::prelude::*;

verus! {

/// What a cache holds, as a map from the characters of a query to the
/// characters of its response.
pub type Answers = Map<Seq<char>, Seq<char>>;

/// `answers` after `response` was offered for `query`: a query that already has
/// an answer keeps it, a new one gets `response`.
pub open spec fn recorded(answers: Answers, query: Seq<char>, response: Seq<char>) -> Answers {
    if answers.contains_key(query) {
        answers
    } else {
        answers.insert(query, response)
    }
}

/// The answers found so far, keyed by query.
pub struct Cache {
    entries: StringHashMap<Response>,
}

impl View for Cache {
    type V = Answers;

    closed spec fn view(&self) -> Answers {
        self.entries@.map_values(|response: Response| response@)
    }
}

impl Cache {
    #[verifier::type_invariant]
    spec fn finite(&self) -> bool {
        self.entries@.dom().finite()
    }

    /// A cache without answers.
    pub fn new() -> (cache: Cache)
        ensures
            cache@ == Answers::empty(),
    {
        let cache = Cache { entries: StringHashMap::new() };
        assert(cache@ =~= Answers::empty());
        cache
    }

    /// The number of queries that have an answer. There are finitely many.
    pub fn len(&self) -> (count: usize)
        ensures
            self@.dom().finite(),
            count == self@.len(),
    {
        proof {
            use_type_invariant(self);
            assert(self@.dom() =~= self.entries@.dom());
        }
        self.entries.len()
    }

    /// Whether `query` has an answer.
    pub fn contains(&self, query: &str) -> (known: bool)
        ensures
            known == self@.contains_key(query@),
    {
        self.entries.contains_key(query)
    }

    /// The answer recorded for `query`, if there is one.
    pub fn get(&self, query: &str) -> (answer: Option<Response>)
        ensures
            match answer {
                Some(response) => self@.contains_key(query@) && response@ == self@[query@],
                None => !self@.contains_key(query@),
            },
    {
        match self.entries.get(query) {
            Some(response) => Some(response.clone()),
            None => None,
        }
    }

    /// Records `response` as the answer to `query` unless the query already
    /// has one. Returns whether the answer was recorded. The cache held
    /// finitely many answers, and so it does afterwards.
    pub fn insert(&mut self, query: Query, response: Response) -> (inserted: bool)
        ensures
            old(self)@.dom().finite(),
            inserted == !old(self)@.contains_key(query@),
            final(self)@ == recorded(old(self)@, query@, response@),
    {
        proof {
            use_type_invariant(&*self);
            assert(self@.dom() =~= self.entries@.dom());
        }
        if self.entries.contains_key(query.as_str()) {
            false
        } else {
            // The entries are taken out, extended and put back, so that
            // `self` is a whole cache at every step.
            let mut taken = Cache::new();
            core::mem::swap(self, &mut taken);
            let Cache { entries } = taken;
            let mut entries = entries;
            entries.insert(query, response);
            *self = Cache { entries };
            assert(self@ =~= old(self)@.insert(query@, response@));
            true
        }
    }
}

} // verus!
