use veecle_telemetry::id::{ProcessId, SpanId, ThreadId};
use veecle_telemetry::protocol::{
    InstanceMessage, KeyValue, SpanAddEventMessage, SpanCloseMessage, SpanCreateMessage,
    TelemetryMessage, TracingMessage, Value,
};
use veecle_telemetry::store::Store;
use veecle_telemetry::timeline::{convert, span_depth, span_logs};

fn feed(store: &mut Store, message: TracingMessage) {
    let message = InstanceMessage {
        thread_id: ThreadId::from_raw(ProcessId::from_raw(1), 1),
        message: TelemetryMessage::Tracing(message),
    };
    assert!(store.accepts(&message));
    store.process_message(message);
}

fn span(store: &mut Store, id: u64, parent: Option<u64>, actor: &str, start: u64, end: u64) {
    feed(
        store,
        TracingMessage::CreateSpan(SpanCreateMessage {
            span_id: SpanId(id),
            parent_span_id: parent.map(SpanId),
            name: format!("s{id}"),
            start_time_unix_nano: start,
            attributes: vec![KeyValue::new("actor".to_string(), Value::String(actor.to_string()))],
        }),
    );
    feed(
        store,
        TracingMessage::CloseSpan(SpanCloseMessage { span_id: SpanId(id), end_time_unix_nano: end }),
    );
}

#[test]
fn overlapping_spans_go_to_new_rows() {
    let mut store = Store::default();
    span(&mut store, 1, None, "a", 0, 10);
    span(&mut store, 2, None, "a", 5, 15);
    span(&mut store, 3, None, "a", 10, 20);
    span(&mut store, 4, None, "b", 100, 200);
    span(&mut store, 5, Some(4), "b", 110, 120);
    span(&mut store, 6, Some(5), "b", 111, 112);

    let roots = store.root_spans();
    assert_eq!(roots.len(), 4);
    assert_eq!(span_depth(roots[3]), 3);
    assert_eq!(span_depth(roots[0]), 1);

    let data = convert(&roots);
    assert_eq!(data.range.0.as_ns(), 0);
    assert_eq!(data.range.1.as_ns(), 200);
    assert_eq!(data.actors.len(), 2);
    let (name, rows) = &data.actors[0];
    assert_eq!(name, "a");
    assert_eq!(rows.len(), 2);
    let ids = |row: usize| rows[row].spans.iter().map(|s| s.span().context.span_id.0).collect::<Vec<_>>();
    // Span 3 starts when span 1 ends, so it shares the first row.
    assert_eq!(ids(0), vec![1, 3]);
    assert_eq!(ids(1), vec![2]);
    assert_eq!(data.actors[1].0, "b");
    assert_eq!(data.actors[1].1[0].max_depth, 3);
}

#[test]
fn empty_layout_range() {
    let store = Store::default();
    let data = convert(&store.root_spans());
    assert!(data.actors.is_empty());
    assert_eq!(data.range.0.as_ns(), i64::MAX);
    assert_eq!(data.range.1.as_ns(), i64::MAX);
}

#[test]
fn logs_of_a_span_and_its_subtree() {
    let mut store = Store::default();
    span(&mut store, 1, None, "a", 0, 10);
    span(&mut store, 2, Some(1), "a", 1, 2);
    span(&mut store, 3, Some(1), "a", 3, 4);
    for (id, name) in [(2, "two"), (1, "one"), (3, "three"), (2, "two again")] {
        feed(
            &mut store,
            TracingMessage::AddEvent(SpanAddEventMessage {
                span_id: Some(SpanId(id)),
                name: name.to_string(),
                time_unix_nano: 5,
                attributes: vec![],
            }),
        );
    }
    let root = store.root_spans()[0];
    let own: Vec<String> = span_logs(root, false).iter().map(|l| l.log().body.clone()).collect();
    assert_eq!(own, vec!["one"]);
    let all: Vec<String> = span_logs(root, true).iter().map(|l| l.log().body.clone()).collect();
    assert_eq!(all, vec!["one", "two", "two again", "three"]);
}
