use neuromancer::chat::app::{
    AppAction, ChatApp, ClipboardProvider, FocusPane, InteractionMode,
};
use neuromancer::chat::demo::build_demo_threads;
use neuromancer::chat::events::{timeline_items_from_events, ThreadKind};
use neuromancer::chat::keys::{Event, KeyCode, KeyEvent, KeyEventKind, KeyModifiers};
use neuromancer::chat::paint::Line;
use neuromancer::chat::run::{Request, Step};
use neuromancer::chat::thread::{
    build_thread_lines, MainFilter, ThreadView, SYSTEM_THREAD_ID,
};
use neuromancer::chat::timeline::{MessageRoleTag, TimelineItem};
use neuromancer::json::Json;
use neuromancer::rpc::{ThreadEvent, ThreadSummary};

struct MockClipboard {
    value: Option<String>,
}

impl ClipboardProvider for MockClipboard {
    fn read_text(&mut self) -> Result<Option<String>, String> {
        Ok(self.value.take())
    }
}

const NOW: u64 = 1_000_000_000;

fn none() -> KeyModifiers {
    KeyModifiers::none()
}

fn control() -> KeyModifiers {
    KeyModifiers {
        shift: false,
        control: true,
        other: false,
    }
}

fn shift() -> KeyModifiers {
    KeyModifiers {
        shift: true,
        control: false,
        other: false,
    }
}

fn key(code: KeyCode) -> KeyEvent {
    key_with_modifiers(code, none())
}

fn key_with_modifiers(code: KeyCode, modifiers: KeyModifiers) -> KeyEvent {
    KeyEvent {
        code,
        modifiers,
        kind: KeyEventKind::Press,
    }
}

fn press(app: &mut ChatApp, key: KeyEvent) -> AppAction {
    let mut clipboard = MockClipboard { value: None };
    app.handle_event(Event::Key(key), &mut clipboard, NOW)
}

fn subagent_summary(id: &str, active: bool, resurrected: bool) -> ThreadSummary {
    ThreadSummary {
        thread_id: id.to_string(),
        kind: "subagent".to_string(),
        agent_id: Some("planner".to_string()),
        latest_run_id: Some("run-1".to_string()),
        state: if active {
            "running".to_string()
        } else {
            "completed".to_string()
        },
        updated_at: "2026-02-14T00:00:00Z".to_string(),
        resurrected,
        active,
    }
}

fn line_text(line: &Line) -> String {
    line.spans
        .iter()
        .map(|span| span.content.as_str())
        .collect::<String>()
}

#[test]
fn shift_tab_cycles_focus_backwards() {
    let mut app = ChatApp::new();
    app.focus = FocusPane::Input;
    let _ = press(&mut app, key(KeyCode::BackTab));
    assert_eq!(app.focus, FocusPane::Main);
}

#[test]
fn ctrl_n_inserts_newline() {
    let mut app = ChatApp::new();
    app.focus = FocusPane::Input;
    app.composer.insert_str("hello");
    let _ = press(&mut app, key_with_modifiers(KeyCode::Char('n'), control()));
    assert_eq!(app.composer.buffer, "hello\n");
}

#[test]
fn double_escape_enters_navigation_mode() {
    let mut app = ChatApp::new();
    app.focus = FocusPane::Input;
    let _ = press(&mut app, key(KeyCode::Esc));
    assert_eq!(app.mode, InteractionMode::Compose);
    let _ = press(&mut app, key(KeyCode::Esc));
    assert_eq!(app.mode, InteractionMode::Navigate);
    assert_eq!(app.focus, FocusPane::Main);
}

#[test]
fn two_slow_escapes_stay_in_compose_mode() {
    let mut app = ChatApp::new();
    let mut clipboard = MockClipboard { value: None };
    let _ = app.handle_event(Event::Key(key(KeyCode::Esc)), &mut clipboard, NOW);
    let later = NOW + 851_000_000;
    let _ = app.handle_event(Event::Key(key(KeyCode::Esc)), &mut clipboard, later);
    assert_eq!(app.mode, InteractionMode::Compose);
}

#[test]
fn navigation_mode_scrolls_and_exits_with_i() {
    let mut app = ChatApp::new();
    if let Some(system) = app
        .threads
        .iter_mut()
        .find(|thread| thread.id == SYSTEM_THREAD_ID)
    {
        system
            .items
            .push(TimelineItem::text(MessageRoleTag::User, "first".to_string()));
        system.items.push(TimelineItem::text(
            MessageRoleTag::Assistant,
            "second".to_string(),
        ));
    }
    app.selected_item_by_thread
        .insert(SYSTEM_THREAD_ID.to_string(), 0);
    app.mode = InteractionMode::Navigate;
    app.focus = FocusPane::Main;

    let _ = press(&mut app, key(KeyCode::Down));
    assert_eq!(app.current_thread_selected_item(), 1);

    let _ = press(&mut app, key(KeyCode::Char('i')));
    assert_eq!(app.mode, InteractionMode::Compose);
    assert_eq!(app.focus, FocusPane::Input);
}

#[test]
fn ctrl_b_collapses_sidebar_and_skips_sidebar_focus() {
    let mut app = ChatApp::new();
    app.focus = FocusPane::Sidebar;
    let _ = press(&mut app, key_with_modifiers(KeyCode::Char('b'), control()));
    assert!(app.sidebar_collapsed);
    assert_eq!(app.focus, FocusPane::Main);

    app.focus = FocusPane::Input;
    let _ = press(&mut app, key(KeyCode::Tab));
    assert_eq!(app.focus, FocusPane::Main);
}

#[test]
fn saved_subagent_threads_are_read_only_until_resurrected() {
    let mut app = ChatApp::new();
    app.sync_thread_summaries(vec![subagent_summary("thread-1", false, false)]);
    let thread = app
        .threads
        .iter()
        .find(|thread| thread.id == "thread-1")
        .expect("thread should exist");
    assert!(thread.read_only);

    app.sync_thread_summaries(vec![subagent_summary("thread-1", true, true)]);
    let thread = app
        .threads
        .iter()
        .find(|thread| thread.id == "thread-1")
        .expect("thread should exist");
    assert!(!thread.read_only);
}

#[test]
fn delegate_card_enter_opens_subagent_thread() {
    let mut app = ChatApp::new();
    app.sync_thread_summaries(vec![subagent_summary("thread-abc", false, false)]);

    if let Some(system) = app
        .threads
        .iter_mut()
        .find(|thread| thread.id == SYSTEM_THREAD_ID)
    {
        system.items.push(TimelineItem::DelegateInvocation {
            call_id: "call-1".to_string(),
            status: "success".to_string(),
            target_agent: Some("planner".to_string()),
            thread_id: Some("thread-abc".to_string()),
            run_id: Some("run-1".to_string()),
            instruction: Some("do it".to_string()),
            summary: Some("done".to_string()),
            error: None,
            arguments: Json::no_fields(),
            output: Json::no_fields(),
            meta: None,
            expanded: false,
        });
    }
    app.focus = FocusPane::Main;
    app.active_thread = 0;
    app.sidebar_selected = 0;
    app.selected_item_by_thread
        .insert(SYSTEM_THREAD_ID.to_string(), 0);

    let action = press(&mut app, key(KeyCode::Enter));
    assert_eq!(
        action,
        AppAction::OpenThread {
            thread_id: "thread-abc".to_string(),
            resurrect: true,
        }
    );
}

#[test]
fn assistant_badge_uses_system_and_agent_names() {
    let mut system = ThreadView::system();
    system.items.push(TimelineItem::text(
        MessageRoleTag::Assistant,
        "system reply".to_string(),
    ));
    let (system_lines, _, _) = build_thread_lines(&system, 0, 1, MainFilter::All, true);
    assert!(
        line_text(&system_lines[1]).contains("system0"),
        "system assistant label should be System0"
    );

    let mut subagent = ThreadView::from_summary(&subagent_summary("thread-2", true, false));
    subagent.items.push(TimelineItem::text(
        MessageRoleTag::Assistant,
        "agent reply".to_string(),
    ));
    let (subagent_lines, _, _) = build_thread_lines(&subagent, 0, 1, MainFilter::All, true);
    assert!(
        line_text(&subagent_lines[1]).contains("planner"),
        "sub-agent assistant label should use the agent id"
    );
}

#[test]
fn horizontal_scroll_updates_for_main_focus() {
    let mut app = ChatApp::new();
    app.focus = FocusPane::Main;
    let _ = press(&mut app, key(KeyCode::Right));
    assert_eq!(app.current_thread_horizontal_offset(), 1);
    let _ = press(&mut app, key_with_modifiers(KeyCode::Left, shift()));
    assert_eq!(app.current_thread_horizontal_offset(), 0);
}

#[test]
fn start_local_send_appends_user_and_placeholder() {
    let mut app = ChatApp::new();
    app.focus = FocusPane::Input;
    let action = app.start_local_send("hello".to_string());
    assert_eq!(action, AppAction::SubmitSystemTurn("hello".to_string()));
    let system = app
        .threads
        .iter()
        .find(|thread| thread.id == SYSTEM_THREAD_ID)
        .expect("system thread should exist");
    assert_eq!(system.items.len(), 2);
}

#[test]
fn timeline_adds_legacy_instruction_fallback_for_subagent_threads() {
    let events = vec![ThreadEvent {
        event_id: "e1".to_string(),
        thread_id: "thread-1".to_string(),
        thread_kind: "subagent".to_string(),
        seq: 1,
        ts: "2026-02-14T00:00:00Z".to_string(),
        event_type: "message_assistant".to_string(),
        agent_id: Some("planner".to_string()),
        run_id: Some("run-1".to_string()),
        payload: Json::no_fields().with("content", Json::Text("hello".to_string())),
        redaction_applied: false,
        turn_id: None,
        parent_event_id: None,
        call_id: None,
        attempt: None,
        duration_ms: None,
        meta: None,
    }];

    let items = timeline_items_from_events(&ThreadKind::Subagent, &events);
    assert!(matches!(
        &items[0],
        TimelineItem::Text { role: MessageRoleTag::System, text, .. }
            if text.contains("Initial instruction unavailable")
    ));
}

#[test]
fn delegate_summary_is_previewed_when_collapsed() {
    let item = TimelineItem::DelegateInvocation {
        call_id: "call-1".to_string(),
        status: "success".to_string(),
        target_agent: Some("planner".to_string()),
        thread_id: Some("thread-abc".to_string()),
        run_id: Some("run-1".to_string()),
        instruction: Some("Summarize the request".to_string()),
        summary: Some("x".repeat(500)),
        error: None,
        arguments: Json::no_fields(),
        output: Json::no_fields(),
        meta: None,
        expanded: false,
    };

    let lines = item.lines(false, "System0", None, true);
    let output_line = lines
        .iter()
        .map(line_text)
        .find(|line| line.contains("Output"))
        .expect("collapsed output line should exist");
    assert!(
        output_line.len() < 250,
        "output line should be previewed, got {} chars",
        output_line.len()
    );
}

#[test]
fn demo_threads_cover_all_visual_components() {
    let (threads, active) = build_demo_threads();

    // At least 3 threads with System0 first
    assert!(threads.len() >= 3);
    assert_eq!(threads[0].kind, ThreadKind::System);
    assert_eq!(active, 0);

    let all_items: Vec<&TimelineItem> = threads.iter().flat_map(|t| &t.items).collect();

    // All 3 TimelineItem variants present
    assert!(all_items
        .iter()
        .any(|i| matches!(i, TimelineItem::Text { .. })));
    assert!(all_items
        .iter()
        .any(|i| matches!(i, TimelineItem::ToolInvocation { .. })));
    assert!(all_items
        .iter()
        .any(|i| matches!(i, TimelineItem::DelegateInvocation { .. })));

    // All 3 MessageRoleTag roles present
    assert!(all_items.iter().any(|i| matches!(
        i,
        TimelineItem::Text {
            role: MessageRoleTag::System,
            ..
        }
    )));
    assert!(all_items.iter().any(|i| matches!(
        i,
        TimelineItem::Text {
            role: MessageRoleTag::User,
            ..
        }
    )));
    assert!(all_items.iter().any(|i| matches!(
        i,
        TimelineItem::Text {
            role: MessageRoleTag::Assistant,
            ..
        }
    )));

    // Tool badge categories covered
    let tool_ids: Vec<&str> = all_items
        .iter()
        .filter_map(|i| match i {
            TimelineItem::ToolInvocation { tool_id, .. } => Some(tool_id.as_str()),
            _ => None,
        })
        .collect();
    assert!(tool_ids.contains(&"list_agents"), "missing list_agents");
    assert!(tool_ids.contains(&"read_config"), "missing read_config");
    assert!(tool_ids.contains(&"modify_skill"), "missing modify_skill");
    assert!(
        tool_ids.contains(&"propose_config_change"),
        "missing propose_config_change"
    );
    assert!(
        tool_ids.contains(&"authorize_proposal"),
        "missing authorize_proposal"
    );
    assert!(tool_ids.contains(&"score_skills"), "missing score_skills");

    // At least one error status
    let has_error = all_items.iter().any(|i| match i {
        TimelineItem::ToolInvocation { status, .. } => status == "error",
        TimelineItem::DelegateInvocation { status, error, .. } => {
            status == "error" || error.is_some()
        }
        _ => false,
    });
    assert!(has_error, "should have at least one error status");

    // At least one read-only subagent thread
    assert!(
        threads
            .iter()
            .any(|t| t.kind == ThreadKind::Subagent && t.read_only),
        "should have at least one read-only subagent thread"
    );
}

#[test]
fn the_demonstration_sends_nothing() {
    let mut app = ChatApp::new();
    app.bootstrap_demo();
    assert_eq!(app.status.as_deref(), Some("DEMO MODE"));
    assert_eq!(app.current_thread_selected_item(), 16);
    assert_eq!(app.threads[1].title, "planner (thread-p)");
    assert!(app.demo_step(AppAction::SubmitSystemTurn("x".to_string())));
    assert_eq!(app.status.as_deref(), Some("Demo mode: sends disabled"));
    assert!(app.demo_step(AppAction::OpenThread {
        thread_id: "thread-planner-abc12345".to_string(),
        resurrect: false,
    }));
    assert_eq!(app.status.as_deref(), Some("Loaded thread thread-p (demo)"));
    assert!(!app.demo_step(AppAction::Quit));
}

#[test]
fn one_request_at_a_time() {
    let mut app = ChatApp::new();
    let step = app.next_step(AppAction::SubmitSystemTurn("hello".to_string()), false);
    assert!(matches!(
        step,
        Step::Ask(Request::SystemTurn { message }) if message == "hello"
    ));
    let step = app.next_step(AppAction::SubmitSystemTurn("hello".to_string()), true);
    assert!(matches!(step, Step::Stay));
    assert_eq!(app.status.as_deref(), Some("Request already in progress"));
    assert!(matches!(app.next_step(AppAction::Quit, true), Step::Quit));
}
