use veecle_telemetry::connection::{
    Connection, ConnectionMessage, FileContents, FileContentsConnection, PipeConnection, Received,
};

fn lines_of(bytes: &[u8]) -> Vec<ConnectionMessage> {
    let mut connection = FileContentsConnection::new(FileContents {
        name: "trace.jsonl".to_string(),
        bytes: bytes.to_vec(),
    });
    assert_eq!(connection.file_name(), "trace.jsonl");
    assert!(!connection.is_continuous());
    let mut out = Vec::new();
    while let Some(message) = connection.try_recv() {
        out.push(message);
    }
    assert!(connection.is_done());
    out
}

#[test]
fn file_is_read_line_by_line() {
    let messages = lines_of(b"one\ntwo\n\nlast");
    let lines: Vec<String> = messages
        .into_iter()
        .map(|m| match m {
            ConnectionMessage::Line(line) => line,
            other => panic!("unexpected {other:?}"),
        })
        .collect();
    assert_eq!(lines, vec!["one\n", "two\n", "\n", "last"]);
}

#[test]
fn empty_file_is_done_at_once() {
    assert!(lines_of(b"").is_empty());
}

#[test]
fn invalid_utf8_gives_an_error_and_reading_goes_on() {
    let messages = lines_of(b"\xff\xfe\nok\n");
    assert_eq!(messages.len(), 2);
    assert!(matches!(&messages[0], ConnectionMessage::Error(_)));
    assert!(matches!(&messages[1], ConnectionMessage::Line(l) if l == "ok\n"));
}

#[test]
fn pipe_connection_reports_lines_and_disconnect() {
    let (sender, receiver) = std::sync::mpsc::channel();
    let mut connection = PipeConnection::new_boxed(receiver);
    assert!(connection.is_continuous());
    assert!(connection.try_recv().is_none());
    sender.send("hello".to_string()).unwrap();
    assert!(matches!(connection.try_recv(), Some(ConnectionMessage::Line(l)) if l == "hello"));
    drop(sender);
    assert!(connection.try_recv().is_none());
    assert!(connection.is_done());
}

#[test]
fn pipe_connection_handles_each_receive_outcome() {
    let (_sender, receiver) = std::sync::mpsc::channel::<String>();
    let mut pipe = PipeConnection::new(receiver);
    assert!(!pipe.is_done());
    match pipe.on_received(Received::Value("line".to_string())) {
        Some(ConnectionMessage::Line(line)) => assert_eq!(line, "line"),
        other => panic!("expected a line, got {other:?}"),
    }
    assert!(!pipe.is_done());
    assert!(pipe.on_received(Received::Empty).is_none());
    assert!(!pipe.is_done());
    assert!(pipe.on_received(Received::Disconnected).is_none());
    assert!(pipe.is_done());
}

#[test]
fn received_values_are_passed_on() {
    assert_eq!(Received::Value(7u32).ok(), Some(7));
    assert_eq!(Received::<u32>::Empty.ok(), None);
    assert_eq!(Received::<u32>::Disconnected.ok(), None);
}

#[test]
fn connections_name_themselves() {
    let (_sender, receiver) = std::sync::mpsc::channel::<String>();
    assert_eq!(PipeConnection::new(receiver).to_string(), "stdin pipe");
    let file = FileContentsConnection::new(FileContents {
        name: "trace.jsonl".to_string(),
        bytes: vec![],
    });
    assert_eq!(file.to_string(), "file (trace.jsonl)");
}
