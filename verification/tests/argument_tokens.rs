use neuromancer::argument_tokens::{
    expand_secret_handles, expand_tokens, expand_user_query_tokens, extract_handle_refs,
    USER_QUERY_TOKEN,
};
use neuromancer::cli::smoke::parse_json_params;
use neuromancer::json::Json;
use neuromancer::named::Named;

fn doc(text: &str) -> Json {
    parse_json_params(Some(text.to_string()))
        .expect("a document")
        .expect("something")
}

#[test]
fn expands_exact_user_query_token() {
    let input = Json::no_fields().with("instruction", Json::Text(USER_QUERY_TOKEN.to_string()));
    let expanded = expand_user_query_tokens(&input, "summarize this");
    assert_eq!(expanded, doc(r#"{"instruction": "summarize this"}"#));
}

#[test]
fn expands_interpolated_user_query_token() {
    let input = doc(r#"{"instruction": "Please do: {{USER_QUERY}}"}"#);
    let expanded = expand_user_query_tokens(&input, "review this repo");
    assert_eq!(
        expanded,
        doc(r#"{"instruction": "Please do: review this repo"}"#)
    );
}

#[test]
fn expands_nested_tokens_and_keeps_unknown_tokens() {
    let input = doc(r#"{
        "instruction": "{{USER_QUERY}}",
        "meta": {
            "nested": ["start", "task={{USER_QUERY}}", "{{UNKNOWN_TOKEN}}"]
        }
    }"#);
    let expanded = expand_user_query_tokens(&input, "build a test plan");
    assert_eq!(
        expanded,
        doc(r#"{
            "instruction": "build a test plan",
            "meta": {
                "nested": ["start", "task=build a test plan", "{{UNKNOWN_TOKEN}}"]
            }
        }"#)
    );
}

#[test]
fn extract_handle_refs_finds_handles() {
    let input = doc(r#"{
        "api_key": "{{MY_API_KEY}}",
        "nested": {
            "token": "Bearer {{AUTH_TOKEN}}"
        },
        "list": ["{{DB_PASSWORD}}", "plain text"]
    }"#);
    let refs = extract_handle_refs(&input);
    assert_eq!(refs, vec!["AUTH_TOKEN", "DB_PASSWORD", "MY_API_KEY"]);
}

#[test]
fn extract_handle_refs_skips_user_query() {
    let input = doc(r#"{
        "query": "{{USER_QUERY}}",
        "key": "{{SECRET_KEY}}"
    }"#);
    let refs = extract_handle_refs(&input);
    assert_eq!(refs, vec!["SECRET_KEY"]);
}

#[test]
fn extract_handle_refs_deduplicates() {
    let input = doc(r#"{
        "a": "{{TOKEN}}",
        "b": "{{TOKEN}}",
        "c": "{{OTHER}}"
    }"#);
    let refs = extract_handle_refs(&input);
    assert_eq!(refs, vec!["OTHER", "TOKEN"]);
}

#[test]
fn extract_handle_refs_empty_on_no_handles() {
    let input = doc(r#"{"plain": "no handles here", "num": 42}"#);
    assert!(extract_handle_refs(&input).is_empty());
}

#[test]
fn extract_handle_refs_skips_empty_handles() {
    let input = doc(r#"{"x": "{{}}"}"#);
    assert!(extract_handle_refs(&input).is_empty());
}

#[test]
fn expand_secret_handles_replaces() {
    let input = doc(r#"{
        "api_key": "{{MY_KEY}}",
        "url": "https://api.example.com?token={{MY_KEY}}"
    }"#);
    let mut resolved = Named::new();
    resolved.insert("MY_KEY".to_string(), "sk-12345".to_string());
    let expanded = expand_secret_handles(&input, &resolved);
    assert_eq!(
        expanded,
        doc(r#"{
            "api_key": "sk-12345",
            "url": "https://api.example.com?token=sk-12345"
        }"#)
    );
}

#[test]
fn expand_secret_handles_leaves_unresolved() {
    let input = doc(r#"{"key": "{{UNRESOLVED}}"}"#);
    let resolved = Named::new();
    let expanded = expand_secret_handles(&input, &resolved);
    assert_eq!(expanded, doc(r#"{"key": "{{UNRESOLVED}}"}"#));
}

#[test]
fn expand_secret_handles_nested() {
    let input = doc(r#"{
        "config": {
            "items": ["{{A}}", "prefix-{{B}}-suffix"]
        }
    }"#);
    let mut resolved = Named::new();
    resolved.insert("A".to_string(), "val_a".to_string());
    resolved.insert("B".to_string(), "val_b".to_string());
    let expanded = expand_secret_handles(&input, &resolved);
    assert_eq!(
        expanded,
        doc(r#"{
            "config": {
                "items": ["val_a", "prefix-val_b-suffix"]
            }
        }"#)
    );
}

#[test]
fn without_tokens_nothing_changes() {
    let input = doc(r#"{"a": ["{{X}}", 7, true, null], "b": {"c": "text"}}"#);
    assert_eq!(expand_tokens(&input, &Named::new()), input);
}

#[test]
fn tokens_expand_in_values_and_not_in_keys() {
    let input = doc(r#"{"{{A}}": "{{A}}"}"#);
    let mut tokens = Named::new();
    tokens.insert("{{A}}".to_string(), "x".to_string());
    assert_eq!(expand_tokens(&input, &tokens), doc(r#"{"{{A}}": "x"}"#));
}
