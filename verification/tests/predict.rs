use qingjian::predict::{is_opencode, opencode_host, parse_reasoning_effort, ReasoningEffort};

#[test]
fn reasoning_effort_parses_known_values_and_ignores_the_rest() {
    assert!(matches!(
        parse_reasoning_effort("none"),
        Some(ReasoningEffort::NoReasoning)
    ));
    assert!(matches!(
        parse_reasoning_effort(" High "),
        Some(ReasoningEffort::High)
    ));
    assert!(parse_reasoning_effort("").is_none());
    assert!(parse_reasoning_effort("maximum").is_none());
}

#[test]
fn every_known_effort_is_recognized() {
    assert_eq!(parse_reasoning_effort("minimal"), Some(ReasoningEffort::Minimal));
    assert_eq!(parse_reasoning_effort("LOW"), Some(ReasoningEffort::Low));
    assert_eq!(parse_reasoning_effort("\tmedium\n"), Some(ReasoningEffort::Medium));
    assert_eq!(parse_reasoning_effort("XHigh"), Some(ReasoningEffort::Xhigh));
    assert_eq!(parse_reasoning_effort("   "), None);
}

#[test]
fn opencode_is_recognized_by_host_only() {
    assert!(is_opencode("https://opencode.ai/zen/go/v1"));
    assert!(is_opencode("https://OpenCode.ai/zen/v1/"));
    assert!(is_opencode("https://api.opencode.ai/v1"));
    assert!(!is_opencode("https://api.deepseek.com"));
    assert!(!is_opencode("https://example.com/opencode.ai"));
    assert!(!is_opencode("not a url"));
}

#[test]
fn a_look_alike_host_is_not_opencode() {
    assert!(!is_opencode("https://notopencode.ai/v1"));
    assert!(!is_opencode("https://opencode.ai.example.com/"));
}

#[test]
fn the_host_rule_on_its_own() {
    assert!(opencode_host("opencode.ai"));
    assert!(opencode_host("API.OpenCode.AI"));
    assert!(opencode_host("a.b.opencode.ai"));
    assert!(!opencode_host("xopencode.ai"));
    assert!(!opencode_host("opencode.ai.example"));
    assert!(!opencode_host(""));
}
