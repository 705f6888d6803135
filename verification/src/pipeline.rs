//! The wiring between ingestors and a processor: the bounded queue that
//! carries the queries, and what holds of a query's way through it.

use crate::ingestion::{deliveries, lemma_deliveries_keep_order};
use crate::trace::{queries_of, ResolutionView};
use crate::Query;
use tokio::sync::mpsc::{Receiver, Sender};
use vstd::prelude::*;

verus! {

/// The sending side of a bounded channel of tokio. Nothing of its state is
/// known here: it changes as other tasks send and receive.
#[verifier::external_type_specification]
#[verifier::external_body]
#[verifier::reject_recursive_types(T)]
pub struct ExSender<T>(Sender<T>);

/// The receiving side of a bounded channel of tokio.
#[verifier::external_type_specification]
#[verifier::external_body]
#[verifier::reject_recursive_types(T)]
pub struct ExReceiver<T>(Receiver<T>);

/// The bound that the channel behind `sender` was made with: the number of
/// queries it holds at most, which `Sender::max_capacity` reports and which
/// never changes.
pub uninterp spec fn bound_of(sender: Sender<Query>) -> nat;

/// The number of queries that the queue in front of a processor holds before
/// a sender has to wait.
pub const QUEUE_CAPACITY: usize = 1000;

/// `tokio::sync::mpsc::channel`: makes a channel that holds up to `capacity`
/// queries and returns its two sides. tokio panics on a capacity of zero and
/// on one above `usize::MAX >> 3`, so neither is let in. Believed of tokio,
/// not proved: the bound of the channel is the capacity asked for.
#[verifier::external_body]
fn channel(capacity: usize) -> (ends: (Sender<Query>, Receiver<Query>))
    requires
        0 < capacity <= usize::MAX / 8,
    ensures
        bound_of(ends.0) == capacity,
{
    tokio::sync::mpsc::channel(capacity)
}

/// Makes the queue of a processor: a channel bounded by `QUEUE_CAPACITY`.
/// The sending side goes to the ingestors, the receiving side to the
/// processor's task.
pub fn open_queue() -> (ends: (Sender<Query>, Receiver<Query>))
    ensures
        bound_of(ends.0) == QUEUE_CAPACITY,
{
    channel(QUEUE_CAPACITY)
}

/// Order is kept along the pipeline. An ingestor has delivered the first
/// `sent` queries of `source`; the queue hands queries on in the order in
/// which it took them; the processor has so far resolved the first of those
/// deliveries, one resolution each. Then the processor's log holds the queries
/// of the source in the order of the source.
pub proof fn lemma_pipeline_keeps_order(
    source: Seq<Seq<char>>,
    sent: int,
    log: Seq<ResolutionView>,
)
    requires
        0 <= sent <= source.len(),
        log.len() <= sent,
        queries_of(log) == deliveries(Seq::empty(), source.take(sent)).take(log.len() as int),
    ensures
        queries_of(log) == source.take(log.len() as int),
        forall|i: int| 0 <= i < log.len() ==> (#[trigger] log[i]).query == source[i],
{
    lemma_deliveries_keep_order(Seq::empty(), source.take(sent));
    assert(Seq::<Seq<char>>::empty() + source.take(sent) =~= source.take(sent));
    assert(source.take(sent).take(log.len() as int) =~= source.take(log.len() as int));
    assert forall|i: int| 0 <= i < log.len() implies (#[trigger] log[i]).query == source[i] by {
        assert(queries_of(log)[i] == log[i].query);
    }
}

} // verus!
