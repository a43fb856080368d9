use veecle_telemetry::id::{ProcessId, SpanContext, SpanId, ThreadId};
use veecle_telemetry::protocol::{
    InstanceMessage, KeyValue, LogMessage, Severity, SpanAddEventMessage, SpanAddLinkMessage,
    SpanCloseMessage, SpanCreateMessage, SpanEnterMessage, SpanExitMessage,
    SpanSetAttributeMessage, TelemetryMessage, TimeSyncMessage, TracingMessage, Value,
};
use veecle_telemetry::store::{Level, LogId, Store, Timestamp, Value as FieldValue};

fn thread() -> ThreadId {
    ThreadId::from_raw(ProcessId::from_raw(7), 1)
}

fn tracing(message: TracingMessage) -> InstanceMessage {
    InstanceMessage {
        thread_id: thread(),
        message: TelemetryMessage::Tracing(message),
    }
}

fn create(span: u64, parent: Option<u64>, name: &str, time: u64, attributes: Vec<KeyValue>) -> InstanceMessage {
    tracing(TracingMessage::CreateSpan(SpanCreateMessage {
        span_id: SpanId(span),
        parent_span_id: parent.map(SpanId),
        name: name.to_string(),
        start_time_unix_nano: time,
        attributes,
    }))
}

fn actor(name: &str) -> KeyValue {
    KeyValue::new("actor".to_string(), Value::String(name.to_string()))
}

fn context(span: u64) -> SpanContext {
    SpanContext::new(ProcessId::from_raw(7), SpanId(span))
}

fn program() -> SpanContext {
    SpanContext::new(ProcessId::from_raw(0), SpanId(0))
}

fn feed(store: &mut Store, message: InstanceMessage) {
    assert!(store.accepts(&message));
    store.process_message(message);
}

#[test]
fn empty_store() {
    let store = Store::default();
    assert_eq!(store.start, Timestamp::max_value());
    assert_eq!(store.end, Timestamp::min_value());
    assert!(!store.continuous);
    assert!(store.root_spans().is_empty());
    assert!(store.logs().is_empty());
    assert!(store.actors().is_empty());
    assert!(store.get_span(program()).is_none());
}

#[test]
fn span_lifecycle() {
    let mut store = Store::default();
    feed(&mut store, create(1, None, "root", 100, vec![actor("a1")]));
    feed(
        &mut store,
        tracing(TracingMessage::EnterSpan(SpanEnterMessage { span_id: SpanId(1), time_unix_nano: 90 })),
    );
    feed(
        &mut store,
        tracing(TracingMessage::ExitSpan(SpanExitMessage { span_id: SpanId(1), time_unix_nano: 150 })),
    );
    feed(
        &mut store,
        tracing(TracingMessage::CloseSpan(SpanCloseMessage { span_id: SpanId(1), end_time_unix_nano: 200 })),
    );

    let root = store.get_span(context(1)).unwrap();
    let span = root.span();
    assert_eq!(span.start.as_ns(), 90);
    // The end snaps back to the end of the last activity period.
    assert_eq!(span.end.as_ns(), 150);
    assert_eq!(span.activity.len(), 1);
    assert_eq!(span.activity[0].start.as_ns(), 90);
    assert_eq!(span.activity[0].end.as_ns(), 150);
    assert_eq!(span.actor, "a1");
    assert_eq!(span.metadata.name, "root");
    assert_eq!(span.metadata.target, "unknown");
    assert_eq!(span.metadata.level, Level::Info);
    assert_eq!(span.parent, None);
    assert_eq!(span.duration().as_ns(), 60);

    // The program span exists and its end follows the latest exit.
    let program_span = store.get_span(program()).unwrap();
    assert_eq!(program_span.span().end.as_ns(), 150);
    assert_eq!(program_span.span().metadata.name, "program");
    assert_eq!(program_span.span().actor, "None");

    assert_eq!(store.start.as_ns(), 90);
    assert_eq!(store.end.as_ns(), 200);
    assert_eq!(store.actors(), vec!["a1"]);
    let roots = store.root_spans();
    assert_eq!(roots.len(), 1);
    assert_eq!(roots[0].span().context, context(1));
}

#[test]
fn close_without_activity_ends_at_close_time() {
    let mut store = Store::default();
    feed(&mut store, create(1, None, "root", 10, vec![]));
    feed(
        &mut store,
        tracing(TracingMessage::CloseSpan(SpanCloseMessage { span_id: SpanId(1), end_time_unix_nano: 40 })),
    );
    assert_eq!(store.get_span(context(1)).unwrap().span().end.as_ns(), 40);
}

#[test]
fn children_inherit_actor_and_are_linked() {
    let mut store = Store::default();
    feed(&mut store, create(1, None, "parent", 1, vec![actor("worker")]));
    feed(&mut store, create(2, Some(1), "child", 2, vec![]));
    feed(&mut store, create(3, Some(1), "other", 3, vec![actor("helper")]));

    let parent = store.get_span(context(1)).unwrap();
    let children = parent.children();
    assert_eq!(children.len(), 2);
    assert_eq!(children[0].span().context, context(2));
    assert_eq!(children[0].span().actor, "worker");
    assert_eq!(children[0].span().parent, Some(context(1)));
    assert_eq!(children[1].span().actor, "helper");
    assert_eq!(store.root_spans().len(), 1);
    assert_eq!(store.actors(), vec!["worker", "helper"]);
}

#[test]
fn a_non_string_actor_field_is_ignored() {
    let mut store = Store::default();
    feed(
        &mut store,
        create(1, None, "root", 1, vec![KeyValue::new("actor".to_string(), Value::I64(3))]),
    );
    assert_eq!(store.get_span(context(1)).unwrap().span().actor, "None");
    assert_eq!(store.actors(), vec!["None"]);
}

#[test]
fn events_links_and_attributes() {
    let mut store = Store::default();
    feed(&mut store, create(1, None, "root", 1, vec![actor("a")]));
    feed(
        &mut store,
        tracing(TracingMessage::AddEvent(SpanAddEventMessage {
            span_id: Some(SpanId(1)),
            name: "ping".to_string(),
            time_unix_nano: 5,
            attributes: vec![KeyValue::new("n".to_string(), Value::I64(1))],
        })),
    );
    feed(
        &mut store,
        tracing(TracingMessage::AddLink(SpanAddLinkMessage { span_id: Some(SpanId(1)), link: context(9) })),
    );
    feed(
        &mut store,
        tracing(TracingMessage::SetAttribute(SpanSetAttributeMessage {
            span_id: Some(SpanId(1)),
            attribute: KeyValue::new("k".to_string(), Value::Bool(true)),
        })),
    );
    feed(
        &mut store,
        tracing(TracingMessage::SetAttribute(SpanSetAttributeMessage {
            span_id: Some(SpanId(1)),
            attribute: KeyValue::new("actor".to_string(), Value::String("b".to_string())),
        })),
    );

    let root = store.get_span(context(1)).unwrap();
    let span = root.span();
    assert_eq!(span.links, vec![context(9)]);
    let keys: Vec<&String> = span.fields.keys().collect();
    assert_eq!(keys, vec!["actor", "k"]);
    assert_eq!(span.fields.get("actor").unwrap().as_str(), Some("b"));
    let logs = root.logs();
    assert_eq!(logs.len(), 1);
    let log = logs[0].log();
    assert_eq!(log.id, LogId::from(0));
    assert_eq!(log.body, "ping");
    assert_eq!(log.actor, "a");
    assert_eq!(log.timestamp.as_ns(), 5);
    assert_eq!(log.span_context, context(1));
    assert!(matches!(log.fields.get("n"), Some(FieldValue::I64(1))));
    assert_eq!(store.get_log(LogId::from(0)).unwrap().log().body, "ping");
    assert!(store.get_log(LogId::from(1)).is_none());
}

#[test]
fn logs_without_a_known_span_go_to_the_program_span() {
    let mut store = Store::default();
    let log = |span_id: Option<u64>, body: &str| InstanceMessage {
        thread_id: thread(),
        message: TelemetryMessage::Log(LogMessage {
            span_id: span_id.map(SpanId),
            time_unix_nano: 3_000,
            severity: Severity::Fatal,
            body: body.to_string(),
            attributes: vec![],
        }),
    };
    feed(&mut store, log(None, "free"));
    feed(&mut store, log(Some(42), "lost"));

    let program_span = store.get_span(program()).unwrap();
    assert_eq!(program_span.span().logs, vec![LogId::from(0), LogId::from(1)]);
    let logs = store.logs();
    assert_eq!(logs.len(), 2);
    assert_eq!(logs[0].log().span_context, program());
    // The log keeps the context it named, though it is attached to the program span.
    assert_eq!(logs[1].log().span_context, context(42));
    assert_eq!(logs[1].log().metadata.level, Level::Error);
    assert_eq!(logs[1].log().metadata.name, "log");
    assert_eq!(logs[1].log().actor, "None");
    assert_eq!(logs[1].log().id.index(), 1);
}

#[test]
fn messages_naming_missing_spans_are_refused() {
    let mut store = Store::default();
    let enter = tracing(TracingMessage::EnterSpan(SpanEnterMessage { span_id: SpanId(5), time_unix_nano: 1 }));
    assert!(!store.accepts(&enter));
    let child = create(2, Some(1), "child", 1, vec![]);
    assert!(!store.accepts(&child));
    feed(&mut store, create(1, None, "root", 1, vec![]));
    assert!(store.accepts(&child));
    // Exiting a span that never ran has no activity period to end.
    let exit = tracing(TracingMessage::ExitSpan(SpanExitMessage { span_id: SpanId(1), time_unix_nano: 2 }));
    assert!(!store.accepts(&exit));
    // The program span can always be a parent.
    let under_program = InstanceMessage {
        thread_id: ThreadId::from_raw(ProcessId::from_raw(0), 1),
        message: TelemetryMessage::Tracing(TracingMessage::CreateSpan(SpanCreateMessage {
            span_id: SpanId(3),
            parent_span_id: Some(SpanId(0)),
            name: "x".to_string(),
            start_time_unix_nano: 1,
            attributes: vec![],
        })),
    };
    assert!(store.accepts(&under_program));
}

#[test]
fn recreating_a_span_replaces_it_in_place() {
    let mut store = Store::default();
    feed(&mut store, create(1, None, "first", 10, vec![]));
    feed(&mut store, create(1, None, "second", 20, vec![]));
    assert_eq!(store.root_spans().len(), 1);
    let span = store.get_span(context(1)).unwrap();
    assert_eq!(span.span().metadata.name, "second");
    assert_eq!(span.span().start.as_ns(), 20);
    assert_eq!(span.span().end, Timestamp::max_value());
}

#[test]
fn time_sync_only_ensures_the_program_span() {
    let mut store = Store::default();
    feed(
        &mut store,
        InstanceMessage {
            thread_id: thread(),
            message: TelemetryMessage::TimeSync(TimeSyncMessage { local_timestamp: 1, since_epoch: 2 }),
        },
    );
    assert!(store.get_span(program()).is_some());
    assert_eq!(store.start, Timestamp::max_value());
    assert!(store.logs().is_empty());
}

#[test]
fn clear_resets_everything() {
    let mut store = Store::default();
    feed(&mut store, create(1, None, "root", 10, vec![actor("a")]));
    store.continuous = true;
    store.clear();
    assert!(store.get_span(context(1)).is_none());
    assert!(store.root_spans().is_empty());
    assert!(store.actors().is_empty());
    assert_eq!(store.start, Timestamp::max_value());
    assert_eq!(store.end, Timestamp::min_value());
    assert!(!store.continuous);
}

#[test]
fn levels_and_timestamps() {
    assert_eq!(Level::from_severity(Severity::Trace), Level::Trace);
    assert_eq!(Level::from_severity(Severity::Warn), Level::Warn);
    assert_eq!(Level::from_severity(Severity::Fatal), Level::Error);
    assert_eq!(Level::from(Severity::Debug), Level::Debug);
    assert!(matches!(FieldValue::from(Value::I64(-4)), FieldValue::I64(-4)));
    assert_eq!(Level::Debug.as_str(), "DEBUG");
    assert_eq!(Level::Error.as_str(), "ERROR");
    let a = Timestamp::from_ns(5);
    let b = Timestamp::from_ns(-3);
    assert_eq!(a.min(b).as_ns(), -3);
    assert_eq!(a.max(b).as_ns(), 5);
    assert_eq!(FieldValue::from_telemetry(&Value::Bool(true)).as_str(), None);
    assert_eq!(FieldValue::Str("x".to_string()).as_str(), Some("x"));
}

#[test]
fn program_span_is_ensured_once() {
    let mut store = Store::default();
    store.ensure_program_span();
    let program_span = store.get_span(program()).unwrap();
    assert_eq!(program_span.span().actor, "None");
    store.ensure_program_span();
    assert!(store.root_spans().is_empty());
    assert!(store.logs().is_empty());
    assert_eq!(store.start, Timestamp::max_value());
    assert_eq!(store.end, Timestamp::min_value());
}

#[test]
fn time_bounds_widen_with_each_timestamp() {
    let mut store = Store::default();
    feed(&mut store, create(1, None, "a", 50, vec![]));
    assert_eq!(store.start(), Timestamp::from_ns(50));
    assert_eq!(store.end(), Timestamp::from_ns(50));
    assert!(!store.is_continuous());
    feed(&mut store, create(2, None, "b", 20, vec![]));
    feed(&mut store, create(3, None, "c", 90, vec![]));
    assert_eq!(store.start, Timestamp::from_ns(20));
    assert_eq!(store.end, Timestamp::from_ns(90));
    feed(&mut store, tracing(TracingMessage::AddLink(SpanAddLinkMessage { span_id: Some(SpanId(1)), link: context(2) })));
    assert_eq!(store.start, Timestamp::from_ns(20));
    assert_eq!(store.end, Timestamp::from_ns(90));
}

#[test]
fn unnamed_span_goes_to_the_program_span_and_threads_are_recorded() {
    let mut store = Store::default();
    feed(&mut store, create(1, None, "root", 1, vec![]));
    feed(
        &mut store,
        tracing(TracingMessage::AddEvent(SpanAddEventMessage {
            span_id: None,
            name: "orphan".to_string(),
            time_unix_nano: 5,
            attributes: vec![],
        })),
    );
    let program_span = store.get_span(program()).unwrap();
    assert_eq!(program_span.span().logs, vec![LogId::from(0usize)]);
    assert_eq!(store.logs()[0].log().span_context, program());
    assert_eq!(store.logs()[0].log().thread_id, veecle_telemetry::protocol::ThreadId(1));
    assert_eq!(
        store.get_span(context(1)).unwrap().span().thread_id,
        veecle_telemetry::protocol::ThreadId(1)
    );
    assert_eq!(program_span.span().thread_id, veecle_telemetry::protocol::ThreadId(0));
}
