use std::sync::{Arc, Mutex};

use futures::stream;
use futures::{Stream, StreamExt};
use supra_exercise::api::{ApiCaller, RealApi};
use supra_exercise::ingestion::{DeliveryError, Ingestor, Pull};
use supra_exercise::pipeline::{open_queue, QUEUE_CAPACITY};
use supra_exercise::processor::{Processor, Step};
use tokio::sync::mpsc;

/// A capability that records each call and answers `mocked: <query>`.
struct RecordingApi {
    seen: Arc<Mutex<Vec<String>>>,
}

impl ApiCaller for RecordingApi {
    fn call(&self, query: &str) -> String {
        self.seen.lock().unwrap().push(query.to_string());
        format!("mocked: {}", query)
    }
}

/// Starts a processor task behind the queue `(tx, rx)`. The task sends the
/// entries of its cache, sorted, once the queue is closed and drained.
fn spawn_processor<A: ApiCaller + 'static>(
    api: Arc<A>,
    (tx, mut rx): (mpsc::Sender<String>, mpsc::Receiver<String>),
    done: mpsc::Sender<Vec<(String, String)>>,
) -> mpsc::Sender<String> {
    tokio::spawn(async move {
        let mut queries = Vec::new();
        let mut processor = Processor::new();
        loop {
            processor = match processor.receive(rx.recv().await) {
                Step::Closed(cache) => {
                    queries.sort();
                    queries.dedup();
                    let entries = queries
                        .into_iter()
                        .map(|query: String| {
                            let response = cache.get(&query).unwrap();
                            (query, response)
                        })
                        .collect();
                    done.send(entries).await.unwrap();
                    return;
                }
                Step::Hit(processor, resolution) => {
                    queries.push(resolution.query);
                    processor
                }
                Step::Miss(pending) => {
                    tokio::task::yield_now().await;
                    let response = api.call(pending.query());
                    let (processor, resolution) = pending.resolve(response);
                    queries.push(resolution.query);
                    processor
                }
            };
        }
    });
    tx
}

async fn ingest_stream<S>(mut source: S, sender: mpsc::Sender<String>) -> Result<(), DeliveryError>
where
    S: Stream<Item = String> + Unpin,
{
    let mut ingestor = Ingestor::new();
    loop {
        match ingestor.offer(source.next().await) {
            Pull::Finished(_) => return Ok(()),
            Pull::Send(pending) => match sender.send(pending.query().to_string()).await {
                Ok(()) => ingestor = pending.delivered(),
                Err(_) => return Err(pending.rejected()),
            },
        }
    }
}

fn runtime() -> tokio::runtime::Runtime {
    tokio::runtime::Builder::new_current_thread().enable_time().build().unwrap()
}

fn strings(queries: &[&str]) -> Vec<String> {
    queries.iter().map(|query| query.to_string()).collect()
}

#[test]
fn integration_test_ingest_and_process() {
    runtime().block_on(async {
        let queries: Vec<String> = vec!["one".into(), "two".into(), "one".into()];
        let (done, mut finished) = mpsc::channel(1);

        let api = Arc::new(RealApi);
        let processor_tx = spawn_processor(api, open_queue(), done);

        let query_stream = stream::iter(queries.clone());
        let ingest_result = ingest_stream(query_stream, processor_tx).await;

        assert!(ingest_result.is_ok());
        let entries = finished.recv().await.unwrap();
        assert_eq!(
            entries,
            vec![
                ("one".to_string(), "response for 'one'".to_string()),
                ("two".to_string(), "response for 'two'".to_string()),
            ]
        );
    });
}

#[test]
fn duplicates_through_the_queue_are_looked_up_once() {
    runtime().block_on(async {
        let seen = Arc::new(Mutex::new(Vec::new()));
        let api = Arc::new(RecordingApi { seen: seen.clone() });
        let (done, mut finished) = mpsc::channel(1);

        let tx = spawn_processor(api, open_queue(), done);
        let source = stream::iter(strings(&["a", "b", "a", "c", "b"]));
        ingest_stream(source, tx).await.unwrap();

        let entries = finished.recv().await.unwrap();
        assert_eq!(*seen.lock().unwrap(), vec!["a", "b", "c"]);
        assert_eq!(entries.len(), 3);
    });
}

#[test]
fn full_queue_holds_the_ingestor_back_and_drops_nothing() {
    runtime().block_on(async {
        let seen = Arc::new(Mutex::new(Vec::new()));
        let api = Arc::new(RecordingApi { seen: seen.clone() });
        let (done, mut finished) = mpsc::channel(1);
        let queries: Vec<String> = (0..50).map(|n| format!("q{}", n)).collect();

        let tx = spawn_processor(api, mpsc::channel(1), done);
        ingest_stream(stream::iter(queries.clone()), tx).await.unwrap();

        let entries = finished.recv().await.unwrap();
        assert_eq!(*seen.lock().unwrap(), queries);
        assert_eq!(entries.len(), 50);
    });
}

#[test]
fn queue_holds_a_thousand_queries() {
    let (tx, rx) = open_queue();

    assert_eq!(QUEUE_CAPACITY, 1000);
    assert_eq!(tx.max_capacity(), 1000);
    assert_eq!(rx.max_capacity(), 1000);
    assert_eq!(tx.capacity(), 1000);
    assert!(rx.is_empty());
    assert!(!tx.is_closed());
}

#[test]
fn closed_queue_gives_a_delivery_error_on_the_first_send() {
    runtime().block_on(async {
        let (tx, rx) = open_queue();
        drop(rx);

        let result = ingest_stream(stream::iter(strings(&["lost", "never sent"])), tx).await;

        assert_eq!(result.unwrap_err().query, "lost");
    });
}

#[test]
fn queue_closed_and_drained_ends_the_processor() {
    runtime().block_on(async {
        let seen = Arc::new(Mutex::new(Vec::new()));
        let api = Arc::new(RecordingApi { seen: seen.clone() });
        let (done, mut finished) = mpsc::channel(1);

        let tx = spawn_processor(api, open_queue(), done);
        tx.send("x".to_string()).await.unwrap();
        drop(tx);

        let entries = finished.recv().await.unwrap();
        assert_eq!(entries, vec![("x".to_string(), "mocked: x".to_string())]);
        assert_eq!(*seen.lock().unwrap(), vec!["x"]);
    });
}
