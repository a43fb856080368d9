use veecle_telemetry::server::{create_message, next_message, should_report, TracingLineData, MAX_ITEMS};

fn data(n: usize) -> TracingLineData {
    let mut data = TracingLineData::default();
    for i in 0..n {
        assert_eq!(data.push_line(format!("line {i}")), i + 1);
    }
    data
}

#[test]
fn messages_carry_at_most_fifty_lines() {
    let data = data(120);
    let first = create_message(&data, 0);
    assert_eq!(first.total, 120);
    assert!(!first.done);
    assert_eq!(first.lines.len(), MAX_ITEMS);
    assert_eq!(first.lines[0], "line 0");
    let last = create_message(&data, 100);
    assert_eq!(last.lines.len(), 20);
    assert_eq!(last.lines[19], "line 119");
    assert!(create_message(&data, 120).lines.is_empty());
    assert!(create_message(&data, 500).lines.is_empty());
}

#[test]
fn batches_deliver_every_line_once() {
    let mut data = data(123);
    data.set_done();
    let mut sent = 0;
    let mut received = Vec::new();
    while let Some((message, next)) = next_message(&data, sent) {
        assert!(message.done);
        received.extend(message.lines);
        sent = next;
    }
    assert_eq!(sent, 123);
    assert_eq!(received, data.lines);
}

#[test]
fn progress_report_rule() {
    assert!(should_report(20, 0));
    assert!(!should_report(21, 99));
    assert!(should_report(21, 100));
}
