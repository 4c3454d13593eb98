use neuromancer::chat::app::{ChatApp, FocusPane, InteractionMode};
use neuromancer::chat::composer::ComposerState;
use neuromancer::chat::events::{EventPages, DEFAULT_THREAD_PAGE_LIMIT};
use neuromancer::chat::paint::{ink, on, plain, Color, Line};
use neuromancer::chat::preview::{
    compact_id, contains_redaction_marker, pretty_status, preview_json_value, short_thread_id,
    sorted_keys, text_is_collapsible, text_preview_lines,
};
use neuromancer::chat::replies::PendingOutcome;
use neuromancer::chat::run_app::RunsApp;
use neuromancer::chat::run_cards::RunItem;
use neuromancer::chat::screen::{focus_gutter_lines, input_background, input_focus_color};
use neuromancer::chat::thread::{MainFilter, SYSTEM_THREAD_ID};
use neuromancer::chat::timeline::{MessageRoleTag, TimelineItem};
use neuromancer::json::Json;
use neuromancer::rpc::{DelegatedRun, OrchestratorThreadGetResult, ThreadEvent, ThreadSummary};

fn line_text(line: &Line) -> String {
    line.spans
        .iter()
        .map(|span| span.content.as_str())
        .collect::<String>()
}

fn columns(line: &Line) -> usize {
    line.spans
        .iter()
        .map(|span| ratatui::text::Span::raw(span.content.as_str()).width())
        .sum()
}

fn summary(id: &str, kind: &str, updated_at: &str) -> ThreadSummary {
    ThreadSummary {
        thread_id: id.to_string(),
        kind: kind.to_string(),
        agent_id: Some("planner".to_string()),
        latest_run_id: None,
        state: "running".to_string(),
        updated_at: updated_at.to_string(),
        resurrected: false,
        active: true,
    }
}

fn event(seq: u64, event_type: &str, payload: Json) -> ThreadEvent {
    ThreadEvent {
        event_id: format!("event-{seq}"),
        thread_id: SYSTEM_THREAD_ID.to_string(),
        thread_kind: "system".to_string(),
        seq,
        ts: "2026-02-14T00:00:00Z".to_string(),
        event_type: event_type.to_string(),
        agent_id: None,
        run_id: None,
        payload,
        redaction_applied: false,
        turn_id: None,
        parent_event_id: None,
        call_id: None,
        attempt: None,
        duration_ms: None,
        meta: None,
    }
}

fn message(seq: u64, role: &str, content: &str) -> ThreadEvent {
    let kind = match role {
        "user" => "message_user",
        _ => "message_assistant",
    };
    event(
        seq,
        kind,
        Json::no_fields()
            .with("role", Json::Text(role.to_string()))
            .with("content", Json::Text(content.to_string())),
    )
}

// ---- dividing a frame ------------------------------------------------------------------

#[test]
fn a_wide_frame_has_a_list_of_threads() {
    let mut app = ChatApp::new();
    let plan = app.prepare_frame(100, 40).expect("a frame");
    assert_eq!(plan.sidebar_columns, Some(28));
    assert_eq!(plan.input_rows, 3);
    assert_eq!(app.composer.max_visible_lines, 10);

    let plan = app.prepare_frame(200, 40).expect("a frame");
    assert_eq!(plan.sidebar_columns, Some(38));
}

#[test]
fn a_narrow_frame_has_no_list_of_threads() {
    let mut app = ChatApp::new();
    app.focus = FocusPane::Sidebar;
    let plan = app.prepare_frame(91, 20).expect("a frame");
    assert_eq!(plan.sidebar_columns, None);
    assert_eq!(app.focus, FocusPane::Main);
    assert!(!app.sidebar_visible());
    assert_eq!(app.composer.max_visible_lines, 4);
    assert!(app.prepare_frame(0, 20).is_none());
    assert!(app.prepare_frame(80, 0).is_none());
}

#[test]
fn the_input_grows_with_its_lines() {
    let mut app = ChatApp::new();
    app.composer.insert_str("a\nb\nc\nd\ne\nf\ng\nh");
    assert_eq!(app.prepare_frame(100, 40).map(|plan| plan.input_rows), Some(10));
    assert_eq!(app.prepare_frame(100, 30).map(|plan| plan.input_rows), Some(8));
    assert_eq!(app.prepare_frame(100, 9).map(|plan| plan.input_rows), Some(3));
}

// ---- drawing the conversation ------------------------------------------------------------

#[test]
fn cards_are_filled_to_the_width() {
    let item = TimelineItem::text(MessageRoleTag::User, "漢字 and more".to_string());
    let lines = item.lines(true, "SYSTEM0", Some(60), true);
    assert!(lines.iter().any(|line| line_text(line).contains("漢字")));
    for line in &lines {
        assert_eq!(columns(line), 60);
    }
    let idle = item.lines(false, "SYSTEM0", Some(60), true);
    assert_eq!(idle.len(), lines.len());
    for (a, b) in lines.iter().zip(&idle) {
        let (a, b) = (line_text(a), line_text(b));
        assert_eq!(a.strip_prefix("┃ ").expect("a bar"), b.strip_prefix("  ").expect("no bar"));
    }
    for width in [0, 1, 2, 3] {
        let narrow = item.lines(true, "SYSTEM0", Some(width), true);
        assert!(narrow.iter().all(|line| columns(line) >= width));
    }
    let bare = item.lines(true, "SYSTEM0", None, true);
    assert_eq!(bare.len(), lines.len());
    assert!(bare.iter().all(|line| columns(line) < 60));
}

#[test]
fn the_selected_card_is_scrolled_into_view() {
    let mut app = ChatApp::new();
    app.bootstrap_demo();
    let frame = app.draw_thread(80, 10);
    assert_eq!(app.last_main_viewport_rows, 10);
    assert!(frame.lines.len() > 10);
    assert!(frame.vertical as usize + 10 <= frame.lines.len());
    assert_eq!(frame.horizontal, 0);

    app.set_current_thread_selected_item(0);
    let frame = app.draw_thread(80, 10);
    assert_eq!(frame.vertical, 0);
}

#[test]
fn the_list_of_threads_names_titles_and_states() {
    let mut app = ChatApp::new();
    app.accept_thread_summaries(vec![summary(
        "thread-abcdef123456",
        "subagent",
        "2026-02-14T00:00:00Z",
    )]);
    let rows: Vec<String> = app.sidebar_lines().iter().map(line_text).collect();
    assert_eq!(rows.len(), 2);
    assert_eq!(rows[0], "system0");
    assert_eq!(rows[1], format!("{} running", app.threads[1].title));
    assert_eq!(app.sidebar_position(), 0);
}

#[test]
fn the_bottom_line_tells_the_mode() {
    let mut app = ChatApp::new();
    app.status = None;
    assert!(app
        .status_line()
        .starts_with("Mode:input Sidebar:open Filter:all | Esc Esc: navigation mode"));
    app.mode = InteractionMode::Navigate;
    app.toggle_sidebar();
    app.set_main_filter(MainFilter::FailuresOnly);
    app.status = None;
    assert!(app
        .status_line()
        .starts_with("Mode:navigation Sidebar:hidden Filter:failures | "));
    app.status = Some("Turn completed".to_string());
    assert_eq!(app.status_line(), "Turn completed");
}

#[test]
fn the_bar_beside_the_input_shows_the_focus() {
    let active = focus_gutter_lines(2, true);
    assert_eq!(active.len(), 2);
    assert_eq!(line_text(&active[0]), "┃");
    assert_eq!(
        active[1].spans[0].style,
        on(input_focus_color(), input_background())
    );
    let idle = focus_gutter_lines(1, false);
    assert_eq!(line_text(&idle[0]), " ");

    let mut app = ChatApp::new();
    app.focus = FocusPane::Input;
    assert!(app.input_focused());
    app.focus = FocusPane::Main;
    assert!(!app.input_focused());
}

#[test]
fn filters_show_their_cards() {
    let mut app = ChatApp::new();
    app.bootstrap_demo();
    let all = app.current_visible_item_indices().len();
    assert_eq!(all, app.current_thread().items.len());
    app.set_main_filter(MainFilter::DelegatesOnly);
    let delegates = app.current_visible_item_indices();
    assert!(!delegates.is_empty() && delegates.len() < all);
    for i in delegates {
        assert!(matches!(
            app.current_thread().items[i],
            TimelineItem::DelegateInvocation { .. }
        ));
    }
}

// ---- the input ---------------------------------------------------------------------------

#[test]
fn every_line_of_input_has_the_prompt() {
    let mut composer = ComposerState::new();
    composer.insert_str("a\r\nbé\rc");
    assert_eq!(composer.buffer, "a\nbé\nc");
    assert_eq!(composer.prefixed_lines(), ["> a", "> bé", "> c"]);
    assert_eq!(composer.logical_lines(), ["a", "bé", "c"]);
    assert_eq!(composer.line_starts(), [0, 2, 6]);
    assert_eq!(composer.logical_line_count(), 3);
    assert_eq!(composer.cursor_line_col(), (2, 1));
    composer.cursor_left();
    composer.cursor_left();
    assert_eq!(composer.cursor_line_col(), (1, 2));
    composer.cursor_right();
    composer.cursor_right();
    assert_eq!(composer.cursor_line_col(), (2, 1));
    composer.insert_char('!');
    composer.backspace();
    assert_eq!(composer.buffer, "a\nbé\nc");
    assert_eq!(composer.submit(), Some("a\nbé\nc".to_string()));
    assert_eq!(composer.buffer, "");
    composer.insert_str(" \n ");
    assert_eq!(composer.submit(), None);
}

// ---- what comes back ---------------------------------------------------------------------

fn page(events: Vec<ThreadEvent>, total: usize, offset: usize) -> OrchestratorThreadGetResult {
    OrchestratorThreadGetResult {
        thread_id: SYSTEM_THREAD_ID.to_string(),
        events,
        total,
        offset,
        limit: DEFAULT_THREAD_PAGE_LIMIT,
    }
}

#[test]
fn pages_are_asked_for_until_the_total() {
    let mut pages = EventPages::new(SYSTEM_THREAD_ID.to_string());
    assert_eq!(pages.request().offset, Some(0));
    assert_eq!(pages.request().limit, Some(200));
    let first = vec![message(3, "user", "c"), message(1, "user", "a")];
    assert!(pages.accept(page(first, 3, 0)));
    assert_eq!(pages.request().offset, Some(2));
    assert!(!pages.accept(page(vec![message(2, "user", "b")], 3, 2)));
    let order: Vec<u64> = pages.finish().iter().map(|event| event.seq).collect();
    assert_eq!(order, [1, 2, 3]);

    let mut empty = EventPages::new(SYSTEM_THREAD_ID.to_string());
    assert!(!empty.accept(page(vec![], 7, 0)));
    assert!(empty.finish().is_empty());
}

#[test]
fn a_finished_turn_is_followed_up() {
    let mut app = ChatApp::new();
    let _ = app.start_local_send("hello".to_string());
    assert_eq!(app.pending_thread_id, Some(SYSTEM_THREAD_ID.to_string()));

    let follow = app
        .begin_outcome(PendingOutcome::SystemTurn(Ok(())))
        .expect("something to follow");
    assert!(app.follow_summaries(&follow, Ok(vec![])));
    app.follow_events(
        &follow,
        Ok(vec![message(1, "user", "hello"), message(2, "assistant", "hi")]),
    );
    assert_eq!(app.status, Some("Turn completed".to_string()));
    assert_eq!(app.pending_thread_id, None);
    let texts: Vec<&str> = app
        .current_thread()
        .items
        .iter()
        .filter_map(|item| match item {
            TimelineItem::Text { text, .. } => Some(text.as_str()),
            _ => None,
        })
        .collect();
    assert_eq!(texts, ["hello", "hi"]);
}

#[test]
fn a_failed_turn_keeps_what_was_said() {
    let mut app = ChatApp::new();
    let _ = app.start_local_send("hello".to_string());
    let before = app.current_thread().items.len();
    assert!(app
        .begin_outcome(PendingOutcome::WorkerFailed("gone".to_string()))
        .is_none());
    assert_eq!(app.status, Some("request worker failed: gone".to_string()));
    assert_eq!(app.pending_thread_id, None);
    assert_eq!(app.current_thread().items.len(), before);
    assert!(matches!(
        &app.current_thread().items[0],
        TimelineItem::Text { text, .. } if text == "hello"
    ));
}

#[test]
fn an_unanswered_follow_up_stops() {
    let mut app = ChatApp::new();
    let follow = app
        .begin_outcome(PendingOutcome::OpenThread {
            thread_id: "thread-1".to_string(),
            result: Ok(()),
        })
        .expect("something to follow");
    assert!(!app.follow_summaries(&follow, Err("no route".to_string())));
    assert_eq!(app.status, Some("no route".to_string()));
}

// ---- short forms -------------------------------------------------------------------------

#[test]
fn long_texts_are_previewed() {
    assert!(!text_is_collapsible("short"));
    assert!(text_is_collapsible("1\n2\n3\n4\n5"));
    assert!(text_is_collapsible(&"x".repeat(281)));
    assert_eq!(text_preview_lines("a\nb\nc", 2, 100).len(), 2);
    assert_eq!(
        preview_json_value(&Json::Text("abcdef".to_string()), 100),
        "abcdef"
    );
    assert!(preview_json_value(&Json::Text("abcdef".repeat(10)), 8).chars().count() <= 11);
    assert_eq!(compact_id(&None), "n/a");
    assert_eq!(compact_id(&Some("abcdefghijklm".to_string())), "abcdefgh...");
    assert_eq!(short_thread_id("abc"), "abc");
}

#[test]
fn redacted_values_are_noticed_at_any_depth() {
    let secret = Json::Text("[REDACTED]".to_string());
    let deep = Json::no_fields().with("a", Json::no_items().and(secret));
    assert!(contains_redaction_marker(&deep));
    assert!(!contains_redaction_marker(&Json::Text("plain".to_string())));
    let keys = Json::no_fields()
        .with("b", Json::Null)
        .with("a", Json::Null);
    assert_eq!(sorted_keys(&keys), ["a", "b"]);
    assert_eq!(pretty_status("error"), "FAILED");
    assert_eq!(pretty_status("paused"), "PAUSED");
}

// ---- the plain chat ----------------------------------------------------------------------

fn finished_run(run_id: &str) -> DelegatedRun {
    DelegatedRun {
        run_id: run_id.to_string(),
        agent_id: "planner".to_string(),
        state: "completed".to_string(),
        summary: Some("done".to_string()),
        thread_id: None,
        initial_instruction: None,
        error: None,
    }
}

#[test]
fn the_plain_chat_lists_runs() {
    let mut app = RunsApp::new();
    assert_eq!(line_text(&app.thread_cards()[0].lines[0]), "No messages yet");
    assert_eq!(app.thread_position(), None);
    app.sync_runs(vec![finished_run("run-1")]);
    let rows: Vec<String> = app.sidebar_lines().iter().map(line_text).collect();
    assert_eq!(rows[0], "System0 [active]");
    assert_eq!(rows[1], format!("{} [completed]", app.threads[1].title));
    assert_eq!(app.sidebar_position(), 0);
    assert!(app.thread_title().starts_with("Conversation: "));
    assert_eq!(app.input_title(), "Input");
    app.focus = FocusPane::Input;
    assert_eq!(app.input_border(), ink(Color::Green));
    app.focus = FocusPane::Main;
    assert_eq!(app.input_border(), plain());
    assert!(app.highlight_style(FocusPane::Main).bold);
    assert!(!app.highlight_style(FocusPane::Sidebar).bold);

    assert!(app.select_thread_by_run_id("run-1"));
    assert!(app.thread_title().ends_with(" (read-only)"));
    assert_eq!(app.input_title(), "Input (read-only sub-agent thread)");
    assert_eq!(app.input_border(), ink(Color::DarkGray));
    assert!(!app.select_thread_by_run_id("run-2"));
}

#[test]
fn plain_cards_are_drawn_one_by_one() {
    let mut app = RunsApp::new();
    app.append_system_item(RunItem::text(MessageRoleTag::User, "one".to_string()));
    app.append_system_item(RunItem::text(MessageRoleTag::Assistant, "two".to_string()));
    let cards = app.thread_cards();
    assert_eq!(cards.len(), 2);
    assert!(cards[0].lines.iter().any(|line| line_text(line).contains("one")));
    assert!(cards[1].lines.iter().any(|line| line_text(line).contains("two")));
    app.set_current_thread_selected_item(1);
    assert_eq!(app.thread_position(), Some(1));
    app.select_main_prev();
    assert_eq!(app.thread_position(), Some(0));
}
