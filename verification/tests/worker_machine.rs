use betterstack_shipper::{
    delivery_report, normalize_event, record_to_json, FieldMap, FieldValue, LogRecord,
    ShipperWorker, WorkerEvent,
};

fn rec(tag: &str) -> LogRecord {
    let mut fields = FieldMap::new();
    fields.insert("message".to_string(), FieldValue::Str(tag.to_string()));
    normalize_event(
        "2024-01-01T00:00:00.000Z".to_string(),
        "INFO".to_string(),
        "t".to_string(),
        fields,
        None,
    )
}

fn tags(batch: &[LogRecord]) -> Vec<String> {
    batch
        .iter()
        .map(|r| match &r.message {
            FieldValue::Str(s) => s.clone(),
            _ => panic!("unexpected message value"),
        })
        .collect()
}

#[test]
fn below_threshold_nothing_is_delivered_until_timer() {
    let mut w = ShipperWorker::new(5);
    for i in 0..4 {
        let flush = w.step(WorkerEvent::Record(rec(&format!("e{i}"))));
        assert!(flush.is_none());
    }
    assert_eq!(w.buffered(), 4);
    let flush = w.step(WorkerEvent::Tick).expect("timer flushes the batch");
    assert_eq!(tags(&flush), vec!["e0", "e1", "e2", "e3"]);
    assert_eq!(w.buffered(), 0);
}

#[test]
fn empty_batch_timer_is_a_no_op() {
    let mut w = ShipperWorker::new(3);
    assert!(w.step(WorkerEvent::Tick).is_none());
    assert!(w.is_running());
}

#[test]
fn full_batches_flush_immediately_in_order() {
    let mut w = ShipperWorker::new(2);
    let mut flushes: Vec<Vec<String>> = Vec::new();
    for i in 0..5 {
        if let Some(batch) = w.step(WorkerEvent::Record(rec(&format!("e{i}")))) {
            flushes.push(tags(&batch));
        }
    }
    if let Some(batch) = w.step(WorkerEvent::Tick) {
        flushes.push(tags(&batch));
    }
    // ceil(5 / 2) deliveries, at most 2 records each, order kept
    assert_eq!(
        flushes,
        vec![vec!["e0", "e1"], vec!["e2", "e3"], vec!["e4"]]
    );
}

#[test]
fn three_records_batch_size_two() {
    // source token "tok_abc" is carried by the delivery client; the worker
    // sees only the records
    let mut w = ShipperWorker::new(2);
    let e1 = rec("hi");
    let expected_first = record_to_json(&e1);
    assert!(expected_first.contains("\"level\":\"INFO\""));
    assert!(!expected_first.contains("\"span\""));
    assert!(!expected_first.contains("\"fields\""));
    assert!(w.step(WorkerEvent::Record(e1)).is_none());
    let first = w
        .step(WorkerEvent::Record(rec("e2")))
        .expect("second record fills the batch");
    assert_eq!(first.len(), 2);
    assert_eq!(record_to_json(&first[0]), expected_first);
    assert!(w.step(WorkerEvent::Record(rec("e3"))).is_none());
    let second = w.step(WorkerEvent::Tick).expect("timer flushes the rest");
    assert_eq!(tags(&second), vec!["e3"]);
}

#[test]
fn shutdown_drains_buffered_records_only() {
    let mut w = ShipperWorker::new(2);
    assert!(w.step(WorkerEvent::Shutdown).is_none());
    assert!(!w.is_running());
    let mut flushes: Vec<Vec<String>> = Vec::new();
    for i in 0..3 {
        if let Some(batch) = w.drain_step(Some(rec(&format!("k{i}")))) {
            flushes.push(tags(&batch));
        }
    }
    if let Some(batch) = w.drain_step(None) {
        flushes.push(tags(&batch));
    }
    assert!(w.is_stopped());
    // ceil(3 / 2) delivery calls
    assert_eq!(flushes, vec![vec!["k0", "k1"], vec!["k2"]]);
}

#[test]
fn shutdown_with_nothing_buffered_delivers_nothing() {
    let mut w = ShipperWorker::new(2);
    assert!(w.step(WorkerEvent::Shutdown).is_none());
    assert!(w.drain_step(None).is_none());
    assert!(w.is_stopped());
}

#[test]
fn channel_close_flushes_remainder_and_stops() {
    let mut w = ShipperWorker::new(10);
    assert!(w.step(WorkerEvent::Record(rec("a"))).is_none());
    let last = w
        .step(WorkerEvent::ChannelClosed)
        .expect("remainder is flushed");
    assert_eq!(tags(&last), vec!["a"]);
    assert!(w.is_stopped());
}

#[test]
fn delivery_failure_discards_batch_and_worker_continues() {
    let mut w = ShipperWorker::new(1);
    let batch = w
        .step(WorkerEvent::Record(rec("lost")))
        .expect("batch of one flushes at once");
    // the endpoint answers HTTP 500: the failure is reported, the batch is
    // dropped, nothing is requeued
    let line = delivery_report(Some(500)).expect("a non-2xx status is a failure");
    assert_eq!(line, "delivery failed: HTTP status 500");
    drop(batch);
    assert!(w.is_running());
    assert_eq!(w.buffered(), 0);
    let next = w.step(WorkerEvent::Record(rec("next"))).expect("next record ships");
    assert_eq!(tags(&next), vec!["next"]);
}
