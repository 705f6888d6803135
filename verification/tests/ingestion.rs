use supra_exercise::ingestion::{DeliveryError, Ingestor, Pull};

/// Ingests `source` into a destination that takes `room` queries and is closed
/// after that. Returns what was delivered and how the ingestion ended.
fn ingest(source: &[&str], room: usize) -> (Vec<String>, Result<(), DeliveryError>) {
    let mut items = source.iter().map(|query| query.to_string());
    let mut delivered = Vec::new();
    let mut ingestor = Ingestor::new();
    loop {
        match ingestor.offer(items.next()) {
            Pull::Finished(_) => return (delivered, Ok(())),
            Pull::Send(pending) => {
                if delivered.len() < room {
                    delivered.push(pending.query().to_string());
                    ingestor = pending.delivered();
                } else {
                    return (delivered, Err(pending.rejected()));
                }
            }
        }
    }
}

#[test]
fn every_query_is_offered_in_source_order() {
    let (delivered, result) = ingest(&["a", "b", "a", "c", "b"], 100);

    assert!(result.is_ok());
    assert_eq!(delivered, vec!["a", "b", "a", "c", "b"]);
}

#[test]
fn empty_source_finishes_at_once() {
    let (delivered, result) = ingest(&[], 0);

    assert!(result.is_ok());
    assert!(delivered.is_empty());
}

#[test]
fn closed_destination_fails_on_the_first_query() {
    let (delivered, result) = ingest(&["first", "second"], 0);

    assert!(delivered.is_empty());
    assert_eq!(result.unwrap_err().query, "first");
}

#[test]
fn destination_closed_midway_keeps_what_was_delivered() {
    let (delivered, result) = ingest(&["a", "b", "c", "d"], 2);

    assert_eq!(delivered, vec!["a", "b"]);
    assert_eq!(result.unwrap_err().query, "c");
}

#[test]
fn offer_puts_the_query_on_offer_unchanged() {
    match Ingestor::new().offer(Some(" Mixed Case ".to_string())) {
        Pull::Send(pending) => {
            assert_eq!(pending.query(), " Mixed Case ");
            assert_eq!(pending.rejected().query, " Mixed Case ");
        }
        Pull::Finished(_) => panic!("a query is to be sent"),
    }
}

#[test]
fn end_of_source_finishes() {
    assert!(matches!(Ingestor::new().offer(None), Pull::Finished(_)));
}
