use unified_llm_adapter::structured::repair_json_prefix;
use unified_llm_adapter::tools::{validate_tool_name, ToolChoice, ToolChoiceKind, ToolChoiceParseError};

#[test]
fn tool_names_must_be_identifiers() {
    assert_eq!(validate_tool_name("get_weather", "tool name"), Ok(()));
    assert_eq!(validate_tool_name("", "tool name"), Err("tool name must not be empty".to_string()));
    assert!(validate_tool_name("9lives", "tool name").is_err());
    assert!(validate_tool_name(&"a".repeat(65), "tool name").is_err());
}

#[test]
fn tool_choice_modes() {
    assert!(ToolChoice::auto().is_auto());
    assert!(ToolChoice::none().is_none());
    assert!(ToolChoice::required().is_required());
    let named = ToolChoice::named("lookup".to_string()).expect("named");
    assert!(named.is_named());
    assert_eq!(named.tool(), Some("lookup"));
    assert!(matches!(named.kind(), Ok(ToolChoiceKind::Named(n)) if n == "lookup"));
    assert!(ToolChoice::new("bogus".to_string(), None).is_err());
    assert!(matches!(
        ToolChoice { mode: "any".to_string(), tool_name: None }.kind(),
        Ok(ToolChoiceKind::Required)
    ));
    assert!(matches!(
        ToolChoice { mode: "auto".to_string(), tool_name: Some("x".to_string()) }.kind(),
        Err(ToolChoiceParseError::Invalid(_))
    ));
}

#[test]
fn repair_closes_open_json() {
    assert_eq!(repair_json_prefix("{\"a\": [1, 2,"), Some("{\"a\": [1, 2]}".to_string()));
    assert_eq!(repair_json_prefix("{\"a\": \"hel"), Some("{\"a\": \"hel\"}".to_string()));
    assert_eq!(repair_json_prefix("   "), None);
    assert_eq!(repair_json_prefix("{]"), None);
}
