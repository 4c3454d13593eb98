use neuromancer::xdg::{
    resolve_path, validate_markdown_prompt_file, PromptFile, XdgError, XdgLayout,
};

#[test]
fn default_layout_paths_are_stable() {
    let layout = XdgLayout::new("/tmp/home".to_string());
    assert_eq!(layout.config_root(), "/tmp/home/.config/neuromancer");
    assert_eq!(layout.runtime_root(), "/tmp/home/.local/neuromancer");
    assert_eq!(
        layout.default_orchestrator_system_prompt_path(),
        "/tmp/home/.config/neuromancer/orchestrator/SYSTEM.md"
    );
    assert_eq!(
        layout.default_agent_system_prompt_path("planner"),
        "/tmp/home/.config/neuromancer/agents/planner/SYSTEM.md"
    );
}

#[test]
fn xdg_home_overrides_default_roots() {
    let layout = XdgLayout::from_home_and_xdg_home_str("/home/user", Some("/xdg"));
    assert_eq!(layout.config_root(), "/xdg/.config/neuromancer");
    assert_eq!(layout.runtime_root(), "/xdg/.local/neuromancer");
    assert_eq!(layout.home_dir(), "/home/user");
}

#[test]
fn resolve_path_expands_tilde() {
    let resolved = resolve_path(
        Some("~/x/y.md"),
        "/fallback.md".to_string(),
        "/cfg",
        "/home/test",
    )
    .expect("path should resolve");
    assert_eq!(resolved, "/home/test/x/y.md");
}

#[test]
fn resolve_path_uses_config_dir_for_relative() {
    let resolved = resolve_path(
        Some("prompts/SYSTEM.md"),
        "/fallback.md".to_string(),
        "/cfg/root",
        "/home/test",
    )
    .expect("path should resolve");
    assert_eq!(resolved, "/cfg/root/prompts/SYSTEM.md");
}

#[test]
fn validate_markdown_prompt_file_rejects_missing() {
    let err = validate_markdown_prompt_file("/tmp/missing_prompt_1.md", PromptFile::Missing)
        .expect_err("missing file must fail");
    assert!(matches!(err, XdgError::MissingPrompt(_)));
}

#[test]
fn validate_markdown_prompt_file_rejects_empty() {
    let err = validate_markdown_prompt_file(
        "/tmp/empty_prompt_1.md",
        PromptFile::Content(" \n\t".to_string()),
    )
    .expect_err("empty prompt must fail");
    assert!(matches!(err, XdgError::EmptyPrompt(_)));
}

#[test]
fn validate_markdown_prompt_file_rejects_non_markdown() {
    let err = validate_markdown_prompt_file(
        "/tmp/prompt_1.txt",
        PromptFile::Content("hello".to_string()),
    )
    .expect_err("non-markdown must fail");
    assert!(matches!(err, XdgError::InvalidPromptExtension(_)));
}

#[test]
fn without_a_home_there_is_no_layout() {
    assert!(matches!(
        XdgLayout::from_env(None, None, None, None),
        Err(XdgError::MissingHome)
    ));
    let layout = XdgLayout::from_env(Some("/home/test".to_string()), None, None, None)
        .expect("a layout");
    assert_eq!(layout.home_dir(), "/home/test");
    assert_eq!(
        layout.config_root(),
        XdgLayout::from_home("/home/test").config_root()
    );
    assert!(layout.skills_dir().starts_with(&layout.config_root()));
    assert_eq!(layout.runtime_home_root(), layout.runtime_root());
}

fn layout_of(xdg: Option<&str>, config: Option<&str>, data: Option<&str>) -> XdgLayout {
    let text = |value: Option<&str>| value.map(|s| s.to_string());
    XdgLayout::from_env(text(Some("/h")), text(xdg), text(config), text(data)).expect("a layout")
}

#[test]
fn config_and_data_homes_are_followed() {
    let layout = layout_of(None, Some("/c"), Some("/d"));
    assert_eq!(layout.home_dir(), "/h");
    assert_eq!(layout.config_root(), "/c/neuromancer");
    assert_eq!(layout.runtime_root(), "/d/neuromancer");
    assert_eq!(layout.default_config_path(), "/c/neuromancer/neuromancer.toml");
    assert_eq!(
        layout.default_orchestrator_system_prompt_path(),
        "/c/neuromancer/orchestrator/SYSTEM.md"
    );
    assert_eq!(layout.provider_keys_dir(), "/d/neuromancer/provider_keys");
    assert_eq!(layout_of(Some("  "), Some("/c"), Some("/d")), layout);
}

#[test]
fn config_and_data_homes_count_together_and_last() {
    assert_eq!(
        layout_of(Some("/x"), Some("/c"), Some("/d")),
        XdgLayout::from_home_and_xdg_home_str("/h", Some("/x"))
    );
    let plain = XdgLayout::from_home("/h");
    assert_eq!(layout_of(None, Some("/c"), None), plain);
    assert_eq!(layout_of(None, None, Some("/d")), plain);
    assert_eq!(layout_of(None, Some(" "), Some("/d")), plain);
}
