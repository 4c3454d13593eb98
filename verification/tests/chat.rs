use neuromancer::chat::composer::{ComposerState, DEFAULT_MAX_VISIBLE_LINES};
use neuromancer::chat::run::{
    animation_tick_due, parse_ndjson_message_line, poll_timeout_with_animation,
};

const MILLISECOND: u64 = 1_000_000;

#[test]
fn chat_composer_normalizes_line_endings_on_insert_str() {
    let mut composer = ComposerState::new();
    composer.insert_str("a\r\nb\rc");
    assert_eq!(composer.buffer, "a\nb\nc");
}

#[test]
fn composer_composer_normalizes_line_endings_on_insert_str() {
    let mut composer = ComposerState::new();
    composer.insert_str("a\r\nb\rc");
    assert_eq!(composer.buffer, "a\nb\nc");
}

#[test]
fn composer_backspace_handles_utf8_scalars() {
    let mut composer = ComposerState::new();
    composer.insert_str("hi🙂");
    composer.backspace();
    assert_eq!(composer.buffer, "hi");
    assert_eq!(composer.cursor_byte, composer.buffer.len());
}

#[test]
fn cursor_up_down_preserves_column_when_possible() {
    let mut composer = ComposerState::new();
    composer.insert_str("abcd\nef\nxyz123");
    composer.set_cursor_line_col(0, 3);

    composer.cursor_down();
    let (line, col) = composer.cursor_line_col();
    assert_eq!((line, col), (1, 2));

    composer.cursor_down();
    let (line, col) = composer.cursor_line_col();
    assert_eq!((line, col), (2, 3));
}

#[test]
fn input_height_clamps_to_max_visible_lines() {
    let mut composer = ComposerState::new();
    composer.insert_str("1\n2\n3\n4\n5\n6\n7\n8\n9\n10\n11\n12");
    assert_eq!(composer.input_height(), DEFAULT_MAX_VISIBLE_LINES);
}

#[test]
fn cursor_visibility_updates_scroll_offset() {
    let mut composer = ComposerState::new();
    composer.insert_str("0\n1\n2\n3\n4\n5\n6\n7\n8\n9\n10\n11");
    let (line, _) = composer.cursor_line_col();
    assert_eq!(line, 11);
    assert!(composer.scroll_line_offset > 0);
    let (_, rel_y) = composer.cursor_screen_position();
    assert_eq!(rel_y as usize, DEFAULT_MAX_VISIBLE_LINES - 1);
}

#[test]
fn chat_parse_ndjson_supports_json_message_payloads() {
    assert_eq!(
        parse_ndjson_message_line(r#"{"message":"line1\nline2"}"#),
        Some("line1\nline2".to_string())
    );
    assert_eq!(
        parse_ndjson_message_line(r#""plain""#),
        Some("plain".to_string())
    );
}

#[test]
fn mod_parse_ndjson_supports_json_message_payloads() {
    assert_eq!(
        parse_ndjson_message_line(r#"{"message":"line1\nline2"}"#),
        Some("line1\nline2".to_string())
    );
    assert_eq!(
        parse_ndjson_message_line(r#""plain""#),
        Some("plain".to_string())
    );
}

#[test]
fn animation_poll_timeout_uses_fallback_when_inactive() {
    let now = 1_000 * MILLISECOND;
    let timeout =
        poll_timeout_with_animation(250 * MILLISECOND, false, Some(now + 10 * MILLISECOND), now);
    assert_eq!(timeout, 250 * MILLISECOND);
}

#[test]
fn animation_poll_timeout_clamps_to_next_tick_when_active() {
    let now = 1_000 * MILLISECOND;
    let timeout =
        poll_timeout_with_animation(250 * MILLISECOND, true, Some(now + 5 * MILLISECOND), now);
    assert!(timeout <= 5 * MILLISECOND);
}

#[test]
fn animation_tick_due_only_when_active_and_elapsed() {
    let now = 1_000 * MILLISECOND;
    let elapsed_tick = now - MILLISECOND;
    assert!(animation_tick_due(true, Some(elapsed_tick), now));
    assert!(!animation_tick_due(false, Some(elapsed_tick), now));
    assert!(!animation_tick_due(true, None, now));
}
