//! The build tool's structured output protocol and manifest rewriting.

use lights::build_protocol::{
    parse_build_output, parse_message, rewrite_manifest_name, split_lines, summarize_messages,
};

#[test]
fn split_lines_on_newlines() {
    let parts = split_lines("a\nbb\n");
    assert_eq!(parts, vec!["a".to_string(), "bb".to_string(), "".to_string()]);
}

#[test]
fn split_lines_without_newline_is_whole_input() {
    let parts = split_lines("hello");
    assert_eq!(parts, vec!["hello".to_string()]);
}

#[test]
fn split_lines_empty_input() {
    let parts = split_lines("");
    assert_eq!(parts, vec!["".to_string()]);
}

#[test]
fn noise_lines_are_skipped() {
    assert!(parse_message("x").is_none());
    assert!(parse_message("not json at all").is_none());
    assert!(parse_message("{broken").is_none());
}

#[test]
fn build_finished_carries_the_flag() {
    let m = parse_message(r#"{"reason":"build-finished","success":true}"#).unwrap();
    assert_eq!(m.finished, Some(true));
    assert!(m.rendered.is_none());
    let m = parse_message(r#"{"reason":"build-finished","success":false}"#).unwrap();
    assert_eq!(m.finished, Some(false));
}

#[test]
fn build_finished_without_flag_defaults_to_failure() {
    let m = parse_message(r#"{"reason":"build-finished"}"#).unwrap();
    assert_eq!(m.finished, Some(false));
}

#[test]
fn other_reasons_are_not_terminal() {
    let m = parse_message(r#"{"reason":"compiler-message"}"#).unwrap();
    assert!(m.finished.is_none());
}

#[test]
fn rendered_text_is_kept_only_when_non_empty() {
    let m = parse_message(r#"{"message":{"rendered":"warning: x"}}"#).unwrap();
    assert_eq!(m.rendered, Some("warning: x".to_string()));
    let m = parse_message(r#"{"message":{"rendered":""}}"#).unwrap();
    assert!(m.rendered.is_none());
    let m = parse_message(r#"{"message":{}}"#).unwrap();
    assert!(m.rendered.is_none());
}

#[test]
fn summarize_joins_diagnostics_and_takes_last_flag() {
    let msgs = vec![
        parse_message(r#"{"message":{"rendered":"first"}}"#).unwrap(),
        parse_message(r#"{"reason":"build-finished","success":false}"#).unwrap(),
        parse_message(r#"{"message":{"rendered":"second"}}"#).unwrap(),
        parse_message(r#"{"reason":"build-finished","success":true}"#).unwrap(),
    ];
    let (success, text) = summarize_messages(&msgs);
    assert!(success);
    assert_eq!(text, "first\nsecond".to_string());
}

#[test]
fn parse_build_output_success_run() {
    let out = "{\"reason\":\"compiler-artifact\"}\n{\"message\":{\"rendered\":\"warning: unused\"}}\njunk line\n{\"reason\":\"build-finished\",\"success\":true}\n";
    let (success, text) = parse_build_output(out);
    assert!(success);
    assert_eq!(text, "warning: unused".to_string());
}

#[test]
fn parse_build_output_failure_run() {
    let out = "{\"message\":{\"rendered\":\"error: boom\"}}\n{\"message\":{\"rendered\":\"error: bang\"}}\n{\"reason\":\"build-finished\",\"success\":false}\n";
    let (success, text) = parse_build_output(out);
    assert!(!success);
    assert_eq!(text, "error: boom\nerror: bang".to_string());
}

#[test]
fn output_without_terminal_message_is_a_failure() {
    let (success, text) = parse_build_output("{\"reason\":\"compiler-artifact\"}\n");
    assert!(!success);
    assert_eq!(text, "".to_string());
}

#[test]
fn manifest_rewrite_replaces_the_declared_name() {
    let manifest = "[package]\nname = \"template\"\nversion = \"0.1.0\"\n";
    let out = rewrite_manifest_name(manifest, "blinky").expect("valid manifest");
    assert_ne!(out, manifest.to_string());
    assert!(out.contains("blinky"));
    assert!(!out.contains("template"));
    // The rewritten text is still a document the TOML editor accepts, with
    // the new name in place.
    let doc: toml_edit::DocumentMut = out.parse().expect("still valid");
    assert_eq!(doc["package"]["name"].as_str(), Some("blinky"));
    assert_eq!(doc["package"]["version"].as_str(), Some("0.1.0"));
}

#[test]
fn manifest_rewrite_rejects_invalid_toml() {
    assert!(rewrite_manifest_name("not = = toml", "x").is_none());
}

#[test]
fn manifest_rewrite_rejects_scalar_package_item() {
    assert!(rewrite_manifest_name("package = 3\n", "x").is_none());
}
