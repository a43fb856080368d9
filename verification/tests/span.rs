use veecle_telemetry::id::{ProcessId, SpanContext, SpanId, SpanIdCounter};
use veecle_telemetry::protocol::{KeyValue, Value};
use veecle_telemetry::span::{CurrentSpan, Span, ThreadSpans};

fn key_value(key: &str, value: &str) -> KeyValue {
    KeyValue::new(key.to_string(), Value::String(value.to_string()))
}

fn new_span(spans: &ThreadSpans, ids: &mut SpanIdCounter, name: &str, attributes: Vec<KeyValue>) -> Span {
    Span::new(spans, ids, name.to_string(), attributes, 0).0
}


#[test]
fn entering_and_exiting_restores_the_current_span() {
    let mut spans = ThreadSpans::default();
    let mut ids = SpanIdCounter::new();
    let (outer, created) = Span::new(&spans, &mut ids, "outer".to_string(), vec![], 10);
    assert_eq!(created.parent_span_id, None);
    let (outer_guard, entered) = outer.enter(&mut spans, 11);
    assert_eq!(entered.unwrap().span_id, SpanId(1));
    assert_eq!(spans.current, Some(SpanId(1)));

    let (inner, created) = Span::new(&spans, &mut ids, "inner".to_string(), vec![], 12);
    assert_eq!(created.parent_span_id, Some(SpanId(1)));
    let (inner_guard, _) = inner.enter(&mut spans, 13);
    assert_eq!(spans.current, Some(SpanId(2)));
    let exited = inner_guard.exit(&mut spans, 14).unwrap();
    assert_eq!(exited.span_id, SpanId(2));
    assert_eq!(spans.current, Some(SpanId(1)));
    outer_guard.exit(&mut spans, 15);
    assert_eq!(spans.current, None);
}

#[test]
fn noop_spans_record_nothing() {
    let mut spans = ThreadSpans::default();
    let mut span = Span::noop();
    assert!(span.context(ProcessId::from_raw(3)).is_none());
    let (guard, message) = span.enter(&mut spans, 1);
    assert!(message.is_none());
    assert_eq!(spans.current, None);
    assert!(guard.exit(&mut spans, 2).is_none());
    assert!(span.add_link(SpanContext::new(ProcessId::from_raw(1), SpanId(1))).is_none());
    assert!(span.close(3).is_none());
}

#[test]
fn span_messages_carry_its_id() {
    let spans = ThreadSpans::default();
    let mut ids = SpanIdCounter::new();
    for _ in 0..6 {
        SpanId::next_id(&mut ids);
    }
    let (mut span, _) = Span::new(&spans, &mut ids, "s".to_string(), vec![], 0);
    assert_eq!(
        span.context(ProcessId::from_raw(3)),
        Some(SpanContext::new(ProcessId::from_raw(3), SpanId(7)))
    );
    let link = SpanContext::new(ProcessId::from_raw(1), SpanId(1));
    assert_eq!(span.add_link(link).unwrap().link, link);
    let event = span.add_event("e".to_string(), vec![], 5).unwrap();
    assert_eq!(event.span_id, Some(SpanId(7)));
    let attr = span.set_attribute(KeyValue::new("k".to_string(), Value::Bool(false))).unwrap();
    assert_eq!(attr.attribute.key, "k");
    let close = span.close(9).unwrap();
    assert_eq!(close.end_time_unix_nano, 9);
    assert!(span.close(10).is_none());
}

#[test]
fn current_span_operations_need_a_current_span() {
    let mut spans = ThreadSpans::default();
    let link = SpanContext::new(ProcessId::from_raw(1), SpanId(1));
    assert!(CurrentSpan::add_link(&spans, link).is_none());
    spans.current = Some(SpanId(4));
    assert_eq!(CurrentSpan::add_link(&spans, link).unwrap().span_id, Some(SpanId(4)));
    assert!(CurrentSpan::add_event(&spans, "e".to_string(), vec![], 0).is_some());
}

#[test]
fn span_noop() {
    let span = Span::noop();
    assert!(span.context(ProcessId::from_raw(0)).is_none());
}

#[test]
fn span_new_without_parent() {
    let mut ids = SpanIdCounter::new();
    let spans = ThreadSpans { current: None };

    let span = new_span(&spans, &mut ids, "test_span", vec![]);
    assert!(span.context(ProcessId::from_raw(0)).is_some());
}

#[test]
fn span_new_with_parent() {
    let mut ids = SpanIdCounter::new();
    let parent_span_id = SpanId::next_id(&mut ids);
    let spans = ThreadSpans { current: Some(parent_span_id) };

    let (span, created) = Span::new(&spans, &mut ids, "child_span".to_string(), vec![], 0);
    let span_id = span.context(ProcessId::from_raw(0)).unwrap().span_id;
    assert_ne!(span_id, parent_span_id);
    assert_eq!(created.parent_span_id, Some(parent_span_id));
}

#[test]
fn span_root() {
    let mut ids = SpanIdCounter::new();
    let span = new_span(&ThreadSpans::default(), &mut ids, "root_span", vec![]);
    let span_id = span.context(ProcessId::from_raw(0)).unwrap().span_id;
    assert_ne!(span_id, SpanId(0));
}

#[test]
fn span_context_from_span() {
    let mut ids = SpanIdCounter::new();
    let process_id = ProcessId::from_raw(0x1234);
    let span = new_span(&ThreadSpans::default(), &mut ids, "test_span", vec![]);

    let extracted_context = span.context(process_id);
    let context = extracted_context.unwrap();
    assert_eq!(context.process_id, process_id);
}

#[test]
fn span_context_from_noop_span() {
    let span = Span::noop();
    let extracted_context = span.context(ProcessId::from_raw(0x1234));
    assert!(extracted_context.is_none());
}

#[test]
fn span_enter_and_current_context() {
    let mut ids = SpanIdCounter::new();
    let process_id = ProcessId::from_raw(0x1234);
    let mut spans = ThreadSpans { current: None };

    assert!(spans.current.is_none());

    let span = new_span(&spans, &mut ids, "test_span", vec![]);

    {
        let (guard, _) = span.enter(&mut spans, 1);
        let current = SpanContext::new(process_id, spans.current.unwrap());
        assert_eq!(current, span.context(process_id).unwrap());
        guard.exit(&mut spans, 2);
    }

    assert!(spans.current.is_none());
}

#[test]
fn span_entered_guard() {
    let mut ids = SpanIdCounter::new();
    let mut spans = ThreadSpans { current: None };

    let span = new_span(&spans, &mut ids, "test_span", vec![]);

    {
        let (guard, _) = span.entered(&mut spans, 1);
        let current_context = spans.current;
        assert!(current_context.is_some());
        let (exit, close) = guard.exit(&mut spans, 2);
        assert_eq!(exit.unwrap().span_id, current_context.unwrap());
        assert_eq!(close.unwrap().end_time_unix_nano, 2);
    }

    assert!(spans.current.is_none());
}

#[test]
fn noop_span_operations() {
    let mut spans = ThreadSpans::default();
    let noop_span = Span::noop();

    {
        let (guard, _) = noop_span.enter(&mut spans, 1);
        assert!(spans.current.is_none());
        guard.exit(&mut spans, 2);
    }

    let (_entered_guard, _) = noop_span.entered(&mut spans, 3);
    assert!(spans.current.is_none());
}

#[test]
fn nested_spans() {
    let mut ids = SpanIdCounter::new();
    let process_id = ProcessId::from_raw(0x1234);
    let mut spans = ThreadSpans { current: None };

    let root_span = new_span(&spans, &mut ids, "test_span", vec![]);
    let root_context = root_span.context(process_id).unwrap();
    let (_root_guard, _) = root_span.entered(&mut spans, 1);

    let (child_span, created) = Span::new(&spans, &mut ids, "child".to_string(), vec![], 2);
    assert_ne!(child_span.context(process_id).unwrap().span_id, root_context.span_id);
    assert_eq!(created.parent_span_id, Some(root_context.span_id));
}

#[test]
fn span_event() {
    let mut ids = SpanIdCounter::new();
    let span = new_span(&ThreadSpans::default(), &mut ids, "test_span", vec![]);

    let event_attributes = vec![key_value("event_key", "event_value")];

    let event = span.add_event("test_event".to_string(), event_attributes.clone(), 1).unwrap();
    assert_eq!(event.name, "test_event");
    assert_eq!(event.attributes.len(), 1);

    let noop_span = Span::noop();
    assert!(noop_span.add_event("noop_event".to_string(), event_attributes, 2).is_none());
}

#[test]
fn span_link() {
    let mut ids = SpanIdCounter::new();
    let span = new_span(&ThreadSpans::default(), &mut ids, "test_span", vec![]);

    let link_context = SpanContext::new(ProcessId::from_raw(0), SpanId(0));
    assert_eq!(span.add_link(link_context).unwrap().link, link_context);

    let noop_span = Span::noop();
    assert!(noop_span.add_link(link_context).is_none());
}

#[test]
fn span_attribute() {
    let mut ids = SpanIdCounter::new();
    let span = new_span(&ThreadSpans::default(), &mut ids, "test_span", vec![]);

    let attribute = key_value("test_key", "test_value");
    assert_eq!(span.set_attribute(attribute.clone()).unwrap().attribute.key, "test_key");

    let noop_span = Span::noop();
    assert!(noop_span.set_attribute(attribute).is_none());
}

#[test]
fn span_methods_with_entered_span() {
    let mut ids = SpanIdCounter::new();
    let mut spans = ThreadSpans::default();
    let span = new_span(&spans, &mut ids, "test_span", vec![]);

    let (_guard, _) = span.enter(&mut spans, 1);

    assert!(span.add_event("entered_event".to_string(), vec![], 2).is_some());
    assert!(span.add_link(SpanContext::new(ProcessId::from_raw(0), SpanId(0))).is_some());
    assert!(span.set_attribute(KeyValue::new("entered_key".to_string(), Value::Bool(true))).is_some());
}

#[test]
fn current_span_event_with_active_span() {
    let mut ids = SpanIdCounter::new();
    let mut spans = ThreadSpans { current: None };

    let (_root_guard, _) = new_span(&spans, &mut ids, "test_span", vec![]).entered(&mut spans, 1);

    let event_attributes = vec![key_value("current_event_key", "current_event_value")];
    let event = CurrentSpan::add_event(&spans, "current_test_event".to_string(), event_attributes, 2);
    assert_eq!(event.unwrap().span_id, spans.current);
}

#[test]
fn current_span_link_with_active_span() {
    let mut ids = SpanIdCounter::new();
    let mut spans = ThreadSpans { current: None };

    let (_root_guard, _) = new_span(&spans, &mut ids, "test_span", vec![]).entered(&mut spans, 1);

    let link_context = SpanContext::new(ProcessId::from_raw(0), SpanId(0));
    let link = CurrentSpan::add_link(&spans, link_context).unwrap();
    assert_eq!(link.span_id, spans.current);
    assert_eq!(link.link, link_context);
}

#[test]
fn current_span_attribute_with_active_span() {
    let mut ids = SpanIdCounter::new();
    let mut spans = ThreadSpans { current: None };

    let span = new_span(&spans, &mut ids, "test_span", vec![]);

    let (_guard, _) = span.enter(&mut spans, 1);
    let attribute = key_value("current_attr_key", "current_attr_value");
    let set = CurrentSpan::set_attribute(&spans, attribute).unwrap();
    assert_eq!(set.span_id, spans.current);
}
