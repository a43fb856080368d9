use veecle_telemetry::command::{command_channel, SystemCommand, UICommand};
use veecle_telemetry::connection::{FileContents, FileContentsConnection};
use veecle_telemetry::viewer::WebSocketModal;
use veecle_telemetry::filter::{contains_chars, Filters, SetFilter, StringFilter};
use veecle_telemetry::id::{ProcessId, SpanContext, SpanId};
use veecle_telemetry::selection::{Item, SelectionChange, SelectionState};
use veecle_telemetry::state::{AppState, PanelState, PanelStates};
use veecle_telemetry::id::ThreadId;
use veecle_telemetry::protocol::{
    InstanceMessage, KeyValue, LogMessage, Severity, SpanCreateMessage, TelemetryMessage,
    TracingMessage, Value,
};
use veecle_telemetry::store::{Level, LogId, Store};

#[test]
fn string_filter_matches_ignoring_case() {
    let mut filter = StringFilter::default();
    assert!(filter.matches("anything"));
    assert!(filter.is_empty());
    filter.set("NeT".to_string());
    assert_eq!(filter.as_str(), "NeT");
    assert!(filter.matches("network"));
    assert!(filter.matches("the INTERNET"));
    assert!(!filter.matches("ne t"));
    assert!(!filter.matches(""));
    filter.set("ß".to_string());
    assert!(filter.matches("STRASSE ß"));
}

#[test]
fn substring_search() {
    let chars = |s: &str| s.chars().collect::<Vec<char>>();
    assert!(contains_chars(&chars("abcabd"), &chars("abd")));
    assert!(contains_chars(&chars("abc"), &chars("")));
    assert!(!contains_chars(&chars("ab"), &chars("abc")));
    assert!(!contains_chars(&chars("abcabc"), &chars("abd")));
}

#[test]
fn set_filter_admits_all_while_empty() {
    let mut filter: SetFilter<veecle_telemetry::protocol::ThreadId> = SetFilter::default();
    assert!(filter.matches(&veecle_telemetry::protocol::ThreadId(3)));
    assert!(filter.is_empty());
    filter.set(vec![veecle_telemetry::protocol::ThreadId(1), veecle_telemetry::protocol::ThreadId(2)]);
    assert!(filter.matches(&veecle_telemetry::protocol::ThreadId(2)));
    assert!(!filter.matches(&veecle_telemetry::protocol::ThreadId(3)));
    assert_eq!(filter.values().len(), 2);
}

#[test]
fn filters_report_and_clear() {
    let mut filters = Filters::default();
    assert!(!filters.has_active_filters());
    filters.message.set("x".to_string());
    assert!(filters.has_active_filters());
    filters.clear();
    assert!(!filters.has_active_filters());
    filters.level.set(vec![Level::Warn]);
    assert!(filters.has_active_filters());
    assert!(filters.level.matches(&Level::Warn));
    assert!(!filters.level.matches(&Level::Info));
    filters.clear();
    filters.actor.set(vec!["a".to_string()]);
    assert!(filters.has_active_filters());
}

fn span_item(span: u64) -> Item {
    Item::Span(SpanContext::new(ProcessId::from_raw(1), SpanId(span)))
}

#[test]
fn hover_is_seen_one_frame_later() {
    let mut selection = SelectionState::default();
    selection.set_hovered(span_item(1));
    assert!(!selection.is_hovered(span_item(1)));
    assert_eq!(selection.on_frame_start(), SelectionChange::NoChange);
    assert!(selection.is_hovered(span_item(1)));
    assert!(!selection.is_hovered(span_item(2)));
    selection.on_frame_start();
    assert!(!selection.is_hovered(span_item(1)));
}

#[test]
fn selection_persists_and_reports_changes() {
    let mut selection = SelectionState::default();
    selection.set_selected(Item::from(LogId::from(4)));
    assert_eq!(selection.get_selected(), None);
    assert_eq!(selection.on_frame_start(), SelectionChange::SelectionChanged);
    assert!(selection.is_selected(Item::Log(LogId::from(4))));
    assert_eq!(selection.on_frame_start(), SelectionChange::NoChange);
    assert_eq!(selection.get_selected(), Some(Item::Log(LogId::from(4))));
    selection.clear_selected();
    assert_eq!(selection.on_frame_start(), SelectionChange::SelectionChanged);
    assert_eq!(selection.get_selected(), None);
}

#[test]
fn panels_toggle_and_follow_selection() {
    assert!(PanelState::Expanded.is_expanded());
    assert_eq!(PanelState::Hidden.toggle(), PanelState::Expanded);
    assert_eq!(PanelState::default(), PanelState::Expanded);
    let panels = PanelStates::default();
    assert_eq!(panels.filter_panel, PanelState::Expanded);
    assert_eq!(panels.selection_panel, PanelState::Hidden);

    let (sender, receiver) = command_channel();
    let mut app = AppState::new(sender);
    app.toggle_filter_panel();
    assert_eq!(app.panel().filter_panel, PanelState::Hidden);
    app.toggle_selection_panel();
    assert_eq!(app.panel().selection_panel, PanelState::Expanded);
    app.toggle_selection_panel();

    app.selection_mut().set_selected(span_item(3));
    app.on_frame_start();
    assert_eq!(app.panel().selection_panel, PanelState::Expanded);
    assert!(app.selection().is_selected(span_item(3)));
    app.selection_mut().clear_selected();
    app.on_frame_start();
    assert_eq!(app.panel().selection_panel, PanelState::Hidden);

    app.filter_mut().target.set("x".to_string());
    assert!(app.filter().has_active_filters());

    app.send_ui(UICommand::ToggleFilterPanel);
    app.send_system(SystemCommand::ClearFilter);
    assert_eq!(receiver.recv_ui(), Some(UICommand::ToggleFilterPanel));
    assert!(matches!(receiver.recv_system(), Some(SystemCommand::ClearFilter)));
    assert_eq!(receiver.recv_ui(), None);
}

#[test]
fn filters_select_logs_and_spans() {
    let thread = ThreadId::from_raw(ProcessId::from_raw(1), 1);
    let mut store = Store::default();
    for (body, severity) in [("Disk FULL", Severity::Error), ("all fine", Severity::Info), ("disk ok", Severity::Info)] {
        let m = InstanceMessage {
            thread_id: thread,
            message: TelemetryMessage::Log(LogMessage {
                span_id: None,
                time_unix_nano: 1,
                severity,
                body: body.to_string(),
                attributes: vec![],
            }),
        };
        store.process_message(m);
    }
    let create = InstanceMessage {
        thread_id: thread,
        message: TelemetryMessage::Tracing(TracingMessage::CreateSpan(SpanCreateMessage {
            span_id: SpanId(1),
            parent_span_id: None,
            name: "s".to_string(),
            start_time_unix_nano: 1,
            attributes: vec![KeyValue::new("actor".to_string(), Value::String("worker".to_string()))],
        })),
    };
    store.process_message(create);

    let mut filters = Filters::default();
    assert_eq!(filters.filter_logs(&store).len(), 3);
    filters.message.set("disk".to_string());
    let bodies: Vec<String> = filters.filter_logs(&store).iter().map(|l| l.log().body.clone()).collect();
    assert_eq!(bodies, vec!["Disk FULL", "disk ok"]);
    filters.level.set(vec![Level::Info]);
    assert_eq!(filters.filter_logs(&store).len(), 1);

    let root = store.get_span(SpanContext::new(ProcessId::from_raw(1), SpanId(1))).unwrap();
    assert!(filters.span_matches(&root));
    filters.actor.set(vec!["other".to_string()]);
    assert!(!filters.span_matches(&root));
    filters.actor.set(vec!["worker".to_string()]);
    assert!(filters.span_matches(&root));
    filters.target.set("UNKNOWN".to_string());
    assert!(filters.span_matches(&root));
    filters.file.set("x".to_string());
    assert!(!filters.span_matches(&root));
    filters.file.set(String::new());
    filters.thread.set(vec![veecle_telemetry::protocol::ThreadId(2)]);
    assert!(!filters.span_matches(&root));
    filters.actor.set(vec![]);
    assert_eq!(filters.filter_logs(&store).len(), 0);
    filters.actor.set(vec!["worker".to_string()]);
    filters.thread.set(vec![veecle_telemetry::protocol::ThreadId(1)]);
    assert!(filters.span_matches(&root));
    filters.actor.set(vec![]);
    assert_eq!(filters.filter_logs(&store).len(), 1);
}

#[test]
fn viewer_commands_and_connection_events() {
    let (sender, _receiver) = command_channel();
    let mut viewer = veecle_telemetry::viewer::Viewer::new(sender);
    assert!(!viewer.connection_error);
    viewer.run_system_command(SystemCommand::SetMessageFilter("x".to_string()));
    assert!(viewer.state.filter().has_active_filters());
    viewer.run_system_command(SystemCommand::ClearFilter);
    assert!(!viewer.state.filter().has_active_filters());
    viewer.run_system_command(SystemCommand::SetThreadFilter(vec![veecle_telemetry::protocol::ThreadId(3)]));
    assert!(viewer.state.filter().has_active_filters());

    let action = viewer.run_ui_command(UICommand::Open);
    assert_eq!(action, veecle_telemetry::viewer::UiAction::OpenFile);
    assert_eq!(viewer.run_ui_command(UICommand::ToggleFilterPanel), veecle_telemetry::viewer::UiAction::Nothing);
    assert_eq!(viewer.state.panel().filter_panel, PanelState::Hidden);

    viewer.run_system_command(SystemCommand::Connect(FileContentsConnection::new_boxed(FileContents {
        name: "f".to_string(),
        bytes: b"line\n".to_vec(),
    })));
    assert!(!viewer.store.continuous);
    assert!(viewer.next_message().is_some());
    viewer.handle_line(Err("bad".to_string()));
    assert!(viewer.connection_error);
    assert!(!viewer.takes_lines());
    viewer.handle_restart();
    assert!(!viewer.connection_error);
    viewer.handle_error();
    assert!(viewer.connection_error);
}

#[test]
fn websocket_modal_shows_and_hides() {
    let mut modal = WebSocketModal::default();
    assert!(!modal.is_visible());
    assert_eq!(modal.url(), "ws://127.0.0.1:9000");
    modal.show();
    assert!(modal.is_visible());
    modal.url_mut().push_str("/x");
    assert_eq!(modal.url(), "ws://127.0.0.1:9000/x");
    modal.close();
    assert!(!modal.is_visible());
}

#[test]
fn viewer_stops_being_live_when_its_connection_is_done() {
    let (sender, _receiver) = command_channel();
    let mut viewer = veecle_telemetry::viewer::Viewer::new(sender);
    assert!(viewer.next_message().is_none());

    let (line_sender, line_receiver) = std::sync::mpsc::channel::<String>();
    viewer.run_system_command(SystemCommand::Connect(
        veecle_telemetry::connection::PipeConnection::new_boxed(line_receiver),
    ));
    assert!(viewer.store.continuous);
    line_sender.send("a line".to_string()).unwrap();
    assert!(viewer.next_message().is_some());
    viewer.finish_if_done();
    assert!(viewer.store.continuous);

    drop(line_sender);
    assert!(viewer.next_message().is_none());
    viewer.finish_if_done();
    assert!(!viewer.store.continuous);
}

#[test]
fn filter_commands_change_only_their_filter() {
    let (sender, _receiver) = command_channel();
    let mut viewer = veecle_telemetry::viewer::Viewer::new(sender);
    viewer.run_system_command(SystemCommand::SetMessageFilter("disk".to_string()));
    viewer.run_system_command(SystemCommand::SetLevelFilter(vec![Level::Warn]));
    assert_eq!(viewer.state.filter().message.as_str(), "disk");
    assert_eq!(viewer.state.filter().level.values(), &vec![Level::Warn]);
    assert_eq!(viewer.state.panel().filter_panel, PanelState::Expanded);
    viewer.run_system_command(SystemCommand::SetActorFilter(vec!["worker".to_string()]));
    assert_eq!(viewer.state.filter().message.as_str(), "disk");
    assert_eq!(viewer.state.filter().level.values(), &vec![Level::Warn]);
}

#[test]
fn filter_checkboxes_add_and_remove_their_value() {
    let mut levels: SetFilter<Level> = SetFilter::default();
    assert_eq!(levels.toggled(Level::Warn, true), vec![Level::Warn]);
    levels.set(vec![Level::Warn, Level::Info]);
    assert_eq!(levels.toggled(Level::Warn, true), vec![Level::Warn, Level::Info]);
    assert_eq!(levels.toggled(Level::Warn, false), vec![Level::Info]);
    assert_eq!(levels.toggled(Level::Error, false), vec![Level::Warn, Level::Info]);

    let mut actors: SetFilter<String> = SetFilter::default();
    actors.set(vec!["a".to_string(), "b".to_string()]);
    assert_eq!(actors.toggled("c", true), vec!["a", "b", "c"]);
    assert_eq!(actors.toggled("a", true), vec!["a", "b"]);
    assert_eq!(actors.toggled("a", false), vec!["b"]);
}
