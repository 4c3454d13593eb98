use neuromancer::chat::app::{ClipboardProvider, FocusPane};
use neuromancer::chat::keys::{Event, KeyCode, KeyEvent, KeyEventKind, KeyModifiers};
use neuromancer::chat::paint::Color;
use neuromancer::chat::run_app::{RunAction, RunsApp};
use neuromancer::chat::run_cards::{parse_run_id_from_text, RunItem};
use neuromancer::chat::run_screen::{split_body, Split};
use neuromancer::chat::thread::SYSTEM_THREAD_ID;
use neuromancer::chat::timeline::MessageRoleTag;
use neuromancer::json::Json;
use neuromancer::rpc::{DelegatedRun, OrchestratorThreadMessage, OrchestratorToolInvocation};

struct MockClipboard {
    value: Option<String>,
}

impl ClipboardProvider for MockClipboard {
    fn read_text(&mut self) -> Result<Option<String>, String> {
        Ok(self.value.take())
    }
}

fn key(code: KeyCode) -> KeyEvent {
    key_with_modifiers(code, KeyModifiers::none())
}

fn key_with_modifiers(code: KeyCode, modifiers: KeyModifiers) -> KeyEvent {
    KeyEvent {
        code,
        modifiers,
        kind: KeyEventKind::Press,
    }
}

fn run(run_id: &str, agent_id: &str, state: &str, summary: Option<&str>) -> DelegatedRun {
    DelegatedRun {
        run_id: run_id.to_string(),
        agent_id: agent_id.to_string(),
        state: state.to_string(),
        summary: summary.map(|s| s.to_string()),
        thread_id: None,
        initial_instruction: None,
        error: None,
    }
}

#[test]
fn testbackend_renders_multiline_cursor_position() {
    let mut app = RunsApp::new();
    app.focus = FocusPane::Input;
    app.composer.insert_str("alpha\nbeta\ngamma");
    app.composer.set_cursor_line_col(2, 2);

    let rows = app.fit_input(16);
    let _ = app.place_cursor(78, rows - 2);

    assert_eq!(app.last_input_cursor_rel, Some((4, 2)));
}

#[test]
fn enter_submits_and_shift_enter_inserts_newline() {
    let mut app = RunsApp::new();
    app.focus = FocusPane::Input;
    app.composer.insert_str("hello");
    let mut clipboard = MockClipboard { value: None };

    let action = app.handle_event(Event::Key(key(KeyCode::Enter)), &mut clipboard);
    assert!(matches!(action, RunAction::SendTurn(_)));

    app.composer.insert_str("hello");
    let shift = KeyModifiers {
        shift: true,
        control: false,
        other: false,
    };
    let action = app.handle_event(
        Event::Key(key_with_modifiers(KeyCode::Enter, shift)),
        &mut clipboard,
    );
    assert_eq!(action, RunAction::Idle);
    assert_eq!(app.composer.buffer, "hello\n");
}

#[test]
fn sub_agent_threads_keep_input_read_only() {
    let mut app = RunsApp::new();
    app.sync_runs(vec![run("run-123", "planner", "completed", Some("done"))]);
    app.sidebar_selected = 1;
    app.active_thread = 1;
    app.focus = FocusPane::Input;

    let mut clipboard = MockClipboard { value: None };
    let _ = app.handle_event(Event::Key(key(KeyCode::Char('x'))), &mut clipboard);

    assert!(app.composer.buffer.is_empty());
}

#[test]
fn ctrl_v_uses_paste_path_with_normalized_line_endings() {
    let mut app = RunsApp::new();
    app.focus = FocusPane::Input;

    let mut clipboard = MockClipboard {
        value: Some("line1\r\nline2".to_string()),
    };
    let control = KeyModifiers {
        shift: false,
        control: true,
        other: false,
    };

    let _ = app.handle_event(
        Event::Key(key_with_modifiers(KeyCode::Char('v'), control)),
        &mut clipboard,
    );

    assert_eq!(app.composer.buffer, "line1\nline2");
}

#[test]
fn main_enter_on_delegate_invocation_opens_sub_agent_thread() {
    let mut app = RunsApp::new();
    app.sync_runs(vec![run("run-123", "planner", "completed", Some("done"))]);
    app.append_system_item(RunItem::ToolInvocation {
        call_id: "call-1".to_string(),
        tool_id: "delegate_to_agent".to_string(),
        status: "success".to_string(),
        arguments: Json::no_fields().with("agent_id", Json::Text("planner".to_string())),
        output: Json::no_fields().with("run_id", Json::Text("run-123".to_string())),
        expanded: false,
    });
    app.focus = FocusPane::Main;
    app.active_thread = 0;
    app.sidebar_selected = 0;

    let mut clipboard = MockClipboard { value: None };
    let action = app.handle_event(Event::Key(key(KeyCode::Enter)), &mut clipboard);
    assert_eq!(action, RunAction::LoadRun("run-123".to_string()));
    assert_eq!(app.active_thread, 1);
    assert_eq!(app.sidebar_selected, 1);
}

#[test]
fn sync_runs_keeps_completed_and_failed_threads_visible() {
    let mut app = RunsApp::new();
    app.sync_runs(vec![
        run("run-1", "planner", "completed", None),
        run("run-2", "browser", "failed", None),
    ]);

    assert_eq!(app.threads.len(), 3);
    assert!(
        app.threads
            .iter()
            .any(|thread| thread.state.as_deref() == Some("completed")),
        "completed thread should be visible"
    );
    assert!(
        app.threads
            .iter()
            .any(|thread| thread.state.as_deref() == Some("failed")),
        "failed thread should be visible"
    );
}

#[test]
fn the_last_run_comes_first() {
    let mut app = RunsApp::new();
    app.sync_runs(vec![
        run("run-1", "planner", "completed", None),
        run("run-2-and-more", "browser", "failed", None),
    ]);
    assert_eq!(app.threads[1].title, "browser (run-2-an)");
    assert_eq!(app.threads[2].title, "planner (run-1)");
    assert!(app.threads[1].read_only);
}

#[test]
fn load_system_context_maps_messages_into_timeline_items() {
    let mut app = RunsApp::new();
    app.load_system_context(vec![
        OrchestratorThreadMessage::Text {
            role: "user".to_string(),
            content: "hello".to_string(),
        },
        OrchestratorThreadMessage::ToolInvocation {
            call_id: "call-1".to_string(),
            tool_id: "read_config".to_string(),
            arguments: Json::no_fields(),
            status: "success".to_string(),
            output: Json::no_fields().with("ok", Json::Bool(true)),
        },
    ]);

    let system_thread = app
        .threads
        .iter()
        .find(|thread| thread.id == SYSTEM_THREAD_ID)
        .expect("system thread should exist");
    assert_eq!(system_thread.items.len(), 2);
    assert!(matches!(
        &system_thread.items[0],
        RunItem::Text { role, .. } if *role == MessageRoleTag::User
    ));
    assert!(matches!(
        &system_thread.items[1],
        RunItem::ToolInvocation { tool_id, .. } if tool_id == "read_config"
    ));
}

#[test]
fn long_text_messages_start_collapsed_and_toggle() {
    let long_text = "line1\nline2\nline3\nline4\nline5";
    let mut item = RunItem::text(MessageRoleTag::Assistant, long_text.to_string());

    assert!(item.is_toggleable());
    assert!(matches!(
        &item,
        RunItem::Text { expanded, .. } if !expanded
    ));

    item.toggle();
    assert!(matches!(
        &item,
        RunItem::Text { expanded, .. } if *expanded
    ));
}

#[test]
fn a_card_is_drawn_row_by_row() {
    let item = RunItem::ToolInvocation {
        call_id: "call-1".to_string(),
        tool_id: "read_config".to_string(),
        status: "success".to_string(),
        arguments: Json::no_fields(),
        output: Json::no_fields().with("ok", Json::Bool(true)),
        expanded: true,
    };
    let drawn = item.to_list_item(true);
    let rows: Vec<String> = drawn
        .lines
        .iter()
        .map(|line| line.spans.iter().map(|s| s.content.as_str()).collect())
        .collect();
    assert_eq!(
        rows,
        vec![
            "[TOOL] read_config status=success [expanded]",
            "  call id: call-1",
            "  arguments:",
            "    {}",
            "  output:",
            "    {",
            "      \"ok\": true",
            "    }",
            "",
        ]
    );
    assert_eq!(drawn.style.bg, Some(Color::DarkGray));
    assert_eq!(drawn.lines[0].spans[4].style.fg, Some(Color::Green));
}

#[test]
fn a_turn_is_told_in_order() {
    let mut app = RunsApp::new();
    app.begin_system_turn("do it");
    app.take_system_turn(
        "done",
        &vec![OrchestratorToolInvocation {
            call_id: "call-1".to_string(),
            tool_id: "search".to_string(),
            arguments: Json::Null,
            status: "success".to_string(),
            output: Json::Null,
        }],
        &vec![run("run-9", "planner", "running", None)],
    );
    app.end_system_turn(vec![run("run-9", "planner", "running", None)]);
    assert_eq!(app.threads[0].items.len(), 4);
    assert_eq!(
        app.threads[0].items[3].linked_run_id().as_deref(),
        Some("run-9")
    );
    assert_eq!(app.status.as_deref(), Some("Turn completed"));
    assert_eq!(
        parse_run_id_from_text("delegated run run-9 agent=planner"),
        Some("run-9".to_string())
    );
    assert_eq!(parse_run_id_from_text("delegated run "), None);
    assert_eq!(parse_run_id_from_text("run run-9"), None);
}

#[test]
fn a_run_that_is_not_listed_cannot_be_refreshed() {
    let mut app = RunsApp::new();
    app.sync_runs(vec![run("run-1", "planner", "running", None)]);
    assert!(app
        .refresh_run_thread("run-1", run("run-1", "planner", "completed", Some("ok")))
        .is_ok());
    assert_eq!(app.threads[1].state.as_deref(), Some("completed"));
    let err = app
        .refresh_run_thread("run-2", run("run-2", "planner", "completed", None))
        .expect_err("not listed");
    assert_eq!(err.to_text(), "delegated run thread 'run-2' not found");
    assert_eq!(err.exit_code(), 2);
}

#[test]
fn wide_and_narrow_screens_are_split_differently() {
    assert_eq!(split_body(83, 60), Split::Above(10));
    assert_eq!(split_body(83, 12), Split::Above(5));
    assert_eq!(split_body(84, 60), Split::Beside(25));
    assert_eq!(split_body(200, 60), Split::Beside(38));
}
