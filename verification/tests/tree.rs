use veecle_telemetry::id::{ProcessId, SpanContext, SpanId, ThreadId};
use veecle_telemetry::protocol::{
    InstanceMessage, KeyValue, LogMessage, Severity, SpanAddEventMessage, SpanAddLinkMessage,
    SpanCreateMessage, SpanEnterMessage, SpanExitMessage, SpanSetAttributeMessage,
    TelemetryMessage, TracingMessage, Value,
};
use veecle_telemetry::test_helpers::{format_tree, is_drawable, telemetry_tree, TreeEntry, TreeItem};

fn on(thread: u64, message: TelemetryMessage) -> InstanceMessage {
    InstanceMessage { thread_id: ThreadId::from_raw(ProcessId::from_raw(1), thread), message }
}

fn tracing(thread: u64, message: TracingMessage) -> InstanceMessage {
    on(thread, TelemetryMessage::Tracing(message))
}

fn create(thread: u64, id: u64, name: &str) -> InstanceMessage {
    tracing(
        thread,
        TracingMessage::CreateSpan(SpanCreateMessage {
            span_id: SpanId(id),
            parent_span_id: None,
            name: name.to_string(),
            start_time_unix_nano: 0,
            attributes: vec![KeyValue::new("k".to_string(), Value::I64(id as i64))],
        }),
    )
}

fn enter(thread: u64, id: u64) -> InstanceMessage {
    tracing(thread, TracingMessage::EnterSpan(SpanEnterMessage { span_id: SpanId(id), time_unix_nano: 0 }))
}

fn exit(thread: u64, id: u64) -> InstanceMessage {
    tracing(thread, TracingMessage::ExitSpan(SpanExitMessage { span_id: SpanId(id), time_unix_nano: 0 }))
}

fn log(thread: u64, body: &str) -> InstanceMessage {
    on(
        thread,
        TelemetryMessage::Log(LogMessage {
            span_id: None,
            time_unix_nano: 0,
            severity: Severity::Info,
            body: body.to_string(),
            attributes: vec![],
        }),
    )
}

fn shape(entries: &[TreeEntry]) -> Vec<String> {
    entries
        .iter()
        .map(|e| {
            let what = match &e.item {
                TreeItem::Span { name, attributes } => format!("span {name} ({})", attributes.len()),
                TreeItem::Attribute(kv) => format!("attr {}", kv.key),
                TreeItem::Link(c) => format!("link {}", c.span_id.0),
                TreeItem::Event { name, .. } => format!("event {name}"),
                TreeItem::Log { severity, body, .. } => format!("log {severity:?} {body}"),
            };
            format!("{}{what}", "  ".repeat(e.depth))
        })
        .collect()
}

#[test]
fn spans_nest_under_the_entered_span() {
    let messages = vec![
        create(1, 1, "root"),
        enter(1, 1),
        create(1, 2, "child"),
        log(1, "inside"),
        tracing(
            1,
            TracingMessage::AddEvent(SpanAddEventMessage {
                span_id: Some(SpanId(1)),
                name: "tick".to_string(),
                time_unix_nano: 0,
                attributes: vec![],
            }),
        ),
        tracing(
            1,
            TracingMessage::SetAttribute(SpanSetAttributeMessage {
                span_id: Some(SpanId(2)),
                attribute: KeyValue::new("late".to_string(), Value::Bool(true)),
            }),
        ),
        tracing(
            1,
            TracingMessage::AddLink(SpanAddLinkMessage {
                span_id: Some(SpanId(2)),
                link: SpanContext::new(ProcessId::from_raw(1), SpanId(9)),
            }),
        ),
        exit(1, 1),
        log(1, "outside"),
        // Another thread has its own current span.
        create(2, 3, "other"),
    ];
    assert!(is_drawable(&messages));
    let tree = telemetry_tree(messages);
    assert_eq!(
        shape(&tree),
        vec![
            "span root (1)",
            "  event tick",
            "  log Info inside",
            "  span child (1)",
            "    attr late",
            "    link 9",
            "span other (1)",
            "log Info outside",
        ]
    );
}

#[test]
fn mismatched_exit_has_no_tree() {
    let messages = vec![create(1, 1, "a"), enter(1, 1), exit(1, 2)];
    assert!(!is_drawable(&messages));
    assert!(!is_drawable(&vec![exit(1, 1)]));
    assert!(is_drawable(&vec![]));
    assert!(telemetry_tree(vec![]).is_empty());
}

#[test]
fn a_span_nested_under_its_own_id_has_no_tree() {
    let messages = vec![create(1, 1, "a"), enter(1, 1), create(1, 1, "again")];
    assert!(!is_drawable(&messages));
}

fn value_text(value: &Value) -> String {
    match value {
        Value::String(s) => format!("{s:?}"),
        Value::Bool(b) => format!("{b}"),
        Value::I64(i) => format!("{i}"),
        Value::F64(bits) => format!("{}", f64::from_bits(*bits)),
    }
}

fn texts_of(attributes: &[KeyValue]) -> Vec<String> {
    attributes.iter().map(|kv| format!("{}: {}", kv.key, value_text(&kv.value))).collect()
}

#[test]
fn tree_is_written_one_line_per_entry() {
    let messages = vec![
        create(1, 1, "root"),
        enter(1, 1),
        create(1, 2, "child"),
        log(1, "inside"),
        tracing(
            1,
            TracingMessage::SetAttribute(SpanSetAttributeMessage {
                span_id: Some(SpanId(2)),
                attribute: KeyValue::new("late".to_string(), Value::String("yes".to_string())),
            }),
        ),
        tracing(
            1,
            TracingMessage::AddLink(SpanAddLinkMessage {
                span_id: Some(SpanId(2)),
                link: SpanContext::new(ProcessId::from_raw(1), SpanId(9)),
            }),
        ),
        exit(1, 1),
        log(1, "outside"),
    ];
    let tree = telemetry_tree(messages);
    let texts: Vec<Vec<String>> = tree
        .iter()
        .map(|entry| match &entry.item {
            TreeItem::Span { attributes, .. } => texts_of(attributes),
            TreeItem::Attribute(kv) => texts_of(std::slice::from_ref(kv)),
            TreeItem::Link(_) => vec![],
            TreeItem::Event { attributes, .. } => texts_of(attributes),
            TreeItem::Log { attributes, .. } => texts_of(attributes),
        })
        .collect();
    assert_eq!(
        format_tree(&tree, &texts),
        [
            "root [k: 1]\n",
            "    + log: [Info] inside []\n",
            "    child [k: 2]\n",
            "        + attr: late: \"yes\"\n",
            "        + link: span=00000000000000000000000000000001:0000000000000009\n",
            "+ log: [Info] outside []\n",
        ]
        .concat()
    );
}

#[test]
fn unnamed_span_means_the_current_span() {
    let messages = vec![
        create(1, 1, "root"),
        enter(1, 1),
        tracing(
            1,
            TracingMessage::AddEvent(SpanAddEventMessage {
                span_id: None,
                name: "tick".to_string(),
                time_unix_nano: 0,
                attributes: vec![],
            }),
        ),
        exit(1, 1),
        // Outside any span, an unnamed attribute belongs to no span and is not shown.
        tracing(
            1,
            TracingMessage::SetAttribute(SpanSetAttributeMessage {
                span_id: None,
                attribute: KeyValue::new("lost".to_string(), Value::Bool(true)),
            }),
        ),
    ];
    let tree = telemetry_tree(messages);
    assert_eq!(shape(&tree), vec!["span root (1)", "  event tick"]);
}
