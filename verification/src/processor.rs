//! The processor: it takes queries in arrival order, answers a query it has
//! seen from its cache, and asks the lookup capability about every other one.
//!
//! The processor does no waiting of its own. `Processor::receive` says what a
//! message from the queue calls for; where that is a lookup, the caller makes
//! it and hands the response to `PendingLookup::resolve`. `process` runs the
//! same steps over a batch of queries with a capability that answers at once.

use crate::api::ApiCaller;
use crate::cache::{Answers, Cache};
use crate::trace::{
    is_run, lemma_replay_push, lemma_run_push, queries_of, replay, ResolutionView,
};
use crate::{Query, Response};
use vstd::prelude::*;

verus! {

/// What became of one query: the response it got, and whether that response
/// came from the cache (a hit) or from a lookup (a miss).
#[derive(Debug)]
pub struct Resolution {
    pub query: Query,
    pub response: Response,
    pub cached: bool,
}

impl View for Resolution {
    type V = ResolutionView;

    open spec fn view(&self) -> ResolutionView {
        ResolutionView { query: self.query@, response: self.response@, cached: self.cached }
    }
}

/// The resolutions of a log, each by its view.
pub open spec fn views(log: Seq<Resolution>) -> Seq<ResolutionView> {
    log.map_values(|resolution: Resolution| resolution@)
}

/// The queries of a batch, each as its sequence of characters.
pub open spec fn texts(queries: Seq<Query>) -> Seq<Seq<char>> {
    queries.map_values(|query: Query| query@)
}

/// A processor between two queries. Its view is the answers in its cache.
pub struct Processor {
    cache: Cache,
}

impl View for Processor {
    type V = Answers;

    closed spec fn view(&self) -> Answers {
        self.cache@
    }
}

/// A processor that waits for the response to a lookup.
pub struct PendingLookup {
    processor: Processor,
    query: Query,
}

/// What a `PendingLookup` stands for: the answers held while the lookup is
/// under way, and the query that was asked.
pub struct PendingView {
    pub answers: Answers,
    pub query: Seq<char>,
}

impl View for PendingLookup {
    type V = PendingView;

    closed spec fn view(&self) -> PendingView {
        PendingView { answers: self.processor@, query: self.query@ }
    }
}

/// What a message from the queue calls for.
pub enum Step {
    /// The query was answered from the cache; the processor is ready for the
    /// next message.
    Hit(Processor, Resolution),
    /// The query has no answer yet: the lookup capability is to be asked.
    Miss(PendingLookup),
    /// The queue is closed and drained: the processor has ended and hands
    /// over its cache.
    Closed(Cache),
}

impl Processor {
    /// A processor with an empty cache.
    pub fn new() -> (processor: Processor)
        ensures
            processor@ == Answers::empty(),
    {
        Processor { cache: Cache::new() }
    }

    /// Takes the next message from the queue: a query, or `None` once the
    /// queue is closed and drained.
    ///
    /// A query that has an answer is a hit, and the cache stays as it is. Any
    /// other query is a miss: nothing is recorded until the lookup is resolved.
    pub fn receive(self, message: Option<Query>) -> (step: Step)
        ensures
            match step {
                Step::Hit(next, resolution) => {
                    &&& message matches Some(query)
                    &&& self@.contains_key(query@)
                    &&& next@ == self@
                    &&& resolution@ == (ResolutionView {
                        query: query@,
                        response: self@[query@],
                        cached: true,
                    })
                },
                Step::Miss(pending) => {
                    &&& message matches Some(query)
                    &&& !self@.contains_key(query@)
                    &&& pending@ == (PendingView { answers: self@, query: query@ })
                },
                Step::Closed(cache) => message is None && cache@ == self@,
            },
    {
        match message {
            None => Step::Closed(self.cache),
            Some(query) => match self.cache.get(query.as_str()) {
                Some(response) => Step::Hit(self, Resolution { query, response, cached: true }),
                None => Step::Miss(PendingLookup { processor: self, query }),
            },
        }
    }
}

impl PendingLookup {
    #[verifier::type_invariant]
    spec fn unanswered(&self) -> bool {
        !self.processor@.contains_key(self.query@)
    }

    /// The query to ask the lookup capability.
    pub fn query(&self) -> (query: &str)
        ensures
            query@ == self@.query,
    {
        self.query.as_str()
    }

    /// Records `response` as the answer to the pending query, which had none:
    /// the cache gains that one entry, and no other answer changes.
    pub fn resolve(self, response: Response) -> (out: (Processor, Resolution))
        ensures
            self@.answers.dom().finite(),
            !self@.answers.contains_key(self@.query),
            out.0@ == self@.answers.insert(self@.query, response@),
            out.0@.len() == self@.answers.len() + 1,
            out.1@ == (ResolutionView { query: self@.query, response: response@, cached: false }),
    {
        proof {
            use_type_invariant(&self);
        }
        let PendingLookup { processor, query } = self;
        let Processor { cache } = processor;
        let mut cache = cache;
        cache.insert(query.clone(), response.clone());
        (Processor { cache }, Resolution { query, response, cached: false })
    }

    /// Gives the lookup up, as after a failed call: nothing is recorded, so the
    /// same query is a miss again when it next arrives.
    pub fn abandon(self) -> (next: Processor)
        ensures
            !self@.answers.contains_key(self@.query),
            next@ == self@.answers,
    {
        proof {
            use_type_invariant(&self);
        }
        self.processor
    }
}

/// Runs a processor over `queries`, in order, with a capability that answers
/// at once, until the batch is drained and the processor ends. Returns the
/// cache as the processor left it and the log of what became of each query.
///
/// The log is a run from the empty cache with one resolution for each query,
/// in the order of the batch. The response of a miss is an answer of the
/// capability to the query of that miss; everything else is fixed: which
/// queries are hits, what each hit reports and what the cache holds at the end.
pub fn process<A: ApiCaller>(queries: &[Query], api: &A) -> (out: (Cache, Vec<Resolution>))
    ensures
        queries_of(views(out.1@)) == texts(queries@),
        is_run(Answers::empty(), views(out.1@)),
        out.0@ == replay(Answers::empty(), views(out.1@)),
        forall|i: int|
            0 <= i < out.1@.len() && !(#[trigger] out.1@[i]).cached ==> api.answers(
                out.1@[i].query@,
                out.1@[i].response@,
            ),
{
    let mut processor = Processor::new();
    let mut log: Vec<Resolution> = Vec::new();
    let mut next: usize = 0;
    loop
        invariant
            next <= queries.len(),
            queries_of(views(log@)) == texts(queries@.take(next as int)),
            is_run(Answers::empty(), views(log@)),
            processor@ == replay(Answers::empty(), views(log@)),
            forall|i: int|
                0 <= i < log@.len() && !(#[trigger] log@[i]).cached ==> api.answers(
                    log@[i].query@,
                    log@[i].response@,
                ),
        decreases queries.len() - next,
    {
        let message = if next < queries.len() {
            Some(queries[next].clone())
        } else {
            None
        };
        let (ready, resolution) = match processor.receive(message) {
            Step::Closed(cache) => {
                assert(queries@.take(next as int) =~= queries@);
                return (cache, log);
            },
            Step::Hit(ready, resolution) => (ready, resolution),
            Step::Miss(pending) => {
                let response = api.call(pending.query());
                pending.resolve(response)
            },
        };
        proof {
            let before = views(log@);
            lemma_replay_push(Answers::empty(), before, resolution@);
            lemma_run_push(Answers::empty(), before, resolution@);
            assert(views(log@.push(resolution)) =~= before.push(resolution@));
            assert(queries@.take(next + 1) =~= queries@.take(next as int).push(
                queries@[next as int],
            ));
            assert(queries_of(before.push(resolution@)) =~= queries_of(before).push(
                resolution@.query,
            ));
            assert(texts(queries@.take(next as int).push(queries@[next as int])) =~= texts(
                queries@.take(next as int),
            ).push(queries@[next as int]@));
        }
        processor = ready;
        log.push(resolution);
        next = next + 1;
    }
}

} // verus!
