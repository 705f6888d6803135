//! The ingestor: it takes queries from a source one at a time and offers each
//! to the processor's queue, until the source ends or the queue is closed.
//!
//! The ingestor does no waiting of its own. `Ingestor::offer` says what the
//! next item of the source calls for; where that is a send, the caller makes it
//! (waiting while the queue is full) and reports how it ended. An ingestor
//! takes no further item while a send is under way, so no query overtakes
//! another and none is left out.

use crate::Query;
use vstd::prelude::*;

verus! {

/// A query could not be delivered: the queue was closed. Queries delivered
/// before it stay delivered.
#[derive(Debug)]
pub struct DeliveryError {
    /// The query that was turned away.
    pub query: Query,
}

/// An ingestor between two items of its source. Its view is the queries it has
/// delivered so far, in the order of delivery.
pub struct Ingestor {
    delivered: Ghost<Seq<Seq<char>>>,
}

impl View for Ingestor {
    type V = Seq<Seq<char>>;

    closed spec fn view(&self) -> Seq<Seq<char>> {
        self.delivered@
    }
}

/// An ingestor that waits for the queue to take a query.
pub struct PendingSend {
    delivered: Ghost<Seq<Seq<char>>>,
    query: Query,
}

/// What a `PendingSend` stands for: the queries delivered before, and the one
/// on offer.
pub struct PendingSendView {
    pub delivered: Seq<Seq<char>>,
    pub query: Seq<char>,
}

impl View for PendingSend {
    type V = PendingSendView;

    closed spec fn view(&self) -> PendingSendView {
        PendingSendView { delivered: self.delivered@, query: self.query@ }
    }
}

/// What the next item of the source calls for.
pub enum Pull {
    /// The source gave a query: it is to be sent to the queue.
    Send(PendingSend),
    /// The source has ended: the ingestion is complete.
    Finished(Ingestor),
}

/// The deliveries of an ingestor that had delivered `delivered` and then saw
/// the queue take each query of `source`, one after another.
pub open spec fn deliveries(delivered: Seq<Seq<char>>, source: Seq<Seq<char>>) -> Seq<Seq<char>>
    decreases source.len(),
{
    if source.len() == 0 {
        delivered
    } else {
        deliveries(delivered.push(source.first()), source.drop_first())
    }
}

impl Ingestor {
    /// An ingestor that has delivered nothing.
    pub fn new() -> (ingestor: Ingestor)
        ensures
            ingestor@ == Seq::<Seq<char>>::empty(),
    {
        Ingestor { delivered: Ghost(Seq::empty()) }
    }

    /// Takes the next item of the source: a query, or `None` once the source
    /// has ended. A query is put on offer as it is; nothing is delivered yet.
    pub fn offer(self, item: Option<Query>) -> (pull: Pull)
        ensures
            match pull {
                Pull::Send(pending) => {
                    &&& item matches Some(query)
                    &&& pending@ == (PendingSendView { delivered: self@, query: query@ })
                },
                Pull::Finished(ingestor) => item is None && ingestor@ == self@,
            },
    {
        match item {
            Some(query) => Pull::Send(PendingSend { delivered: self.delivered, query }),
            None => Pull::Finished(self),
        }
    }
}

impl PendingSend {
    /// The query to send to the queue.
    pub fn query(&self) -> (query: &str)
        ensures
            query@ == self@.query,
    {
        self.query.as_str()
    }

    /// The queue took the query: it is the latest delivery, and the ingestor is
    /// ready for the next item.
    pub fn delivered(self) -> (ingestor: Ingestor)
        ensures
            ingestor@ == self@.delivered.push(self@.query),
    {
        Ingestor { delivered: Ghost(self.delivered@.push(self.query@)) }
    }

    /// The queue was closed: the ingestion ends with the error that names the
    /// query on offer.
    pub fn rejected(self) -> (error: DeliveryError)
        ensures
            error.query@ == self@.query,
    {
        DeliveryError { query: self.query }
    }
}

/// Order is kept and nothing is lost: an ingestor whose queue takes every
/// query of `source` has delivered, after what it had delivered before,
/// exactly the queries of `source` in their order.
pub proof fn lemma_deliveries_keep_order(delivered: Seq<Seq<char>>, source: Seq<Seq<char>>)
    ensures
        deliveries(delivered, source) == delivered + source,
    decreases source.len(),
{
    if source.len() == 0 {
        assert(delivered + source =~= delivered);
    } else {
        lemma_deliveries_keep_order(delivered.push(source.first()), source.drop_first());
        assert(delivered.push(source.first()) + source.drop_first() =~= delivered + source);
    }
}

} // verus!
