use unified_llm_adapter::anthropic_options::{
    anthropic_auto_cache_enabled, anthropic_beta_headers, anthropic_cache_control,
    anthropic_conversation_prefix_cache_target_index, anthropic_system_instruction, anthropic_tool_choice_payload,
    apply_anthropic_cache_control, apply_cache_control_to_message, apply_cache_control_to_system, cache_control_count,
    insert_cache_control_if_absent, schema_supports_anthropic_tool_input, value_contains_key,
};
use unified_llm_adapter::canonical::stable_json;
use unified_llm_adapter::errors::SDKErrorKind;
use unified_llm_adapter::json::{parse_json, Json};
use unified_llm_adapter::tools::ToolChoiceKind;

fn json(text: &str) -> Json {
    parse_json(text).ok().expect("valid json")
}

fn members(text: &str) -> Vec<(String, Json)> {
    match json(text) {
        Json::Object(ms) => ms,
        _ => panic!("not an object"),
    }
}

#[test]
fn tool_choice_payloads() {
    let names = vec!["lookup".to_string()];
    let none: Vec<String> = Vec::new();
    assert!(anthropic_tool_choice_payload(None, &names).ok().expect("none").is_none());
    assert!(anthropic_tool_choice_payload(Some(&ToolChoiceKind::Disabled), &names).ok().expect("off").is_none());
    assert!(anthropic_tool_choice_payload(Some(&ToolChoiceKind::Auto), &none).ok().expect("auto").is_none());
    let auto = anthropic_tool_choice_payload(Some(&ToolChoiceKind::Auto), &names).ok().expect("auto").expect("some");
    assert_eq!(stable_json(&auto), r#"{"type":"auto"}"#);
    let any = anthropic_tool_choice_payload(Some(&ToolChoiceKind::Required), &names).ok().expect("any").expect("some");
    assert_eq!(stable_json(&any), r#"{"type":"any"}"#);
    let e = anthropic_tool_choice_payload(Some(&ToolChoiceKind::Required), &none).err().expect("no tools");
    assert_eq!(e.kind, SDKErrorKind::UnsupportedToolChoice);
    assert_eq!(e.message, "Anthropic required tool_choice requires at least one tool");
    let named = anthropic_tool_choice_payload(Some(&ToolChoiceKind::Named("lookup".to_string())), &names)
        .ok()
        .expect("named")
        .expect("some");
    assert_eq!(stable_json(&named), r#"{"name":"lookup","type":"tool"}"#);
    let e = anthropic_tool_choice_payload(Some(&ToolChoiceKind::Named("other".to_string())), &names).err().expect("missing");
    assert_eq!(e.message, r#"Anthropic named tool_choice "other" requires a matching tool"#);
}

#[test]
fn schemas_for_tool_input() {
    assert!(schema_supports_anthropic_tool_input(&json(r#"{"properties":{}}"#)));
    assert!(schema_supports_anthropic_tool_input(&json(r#"{"type":"object"}"#)));
    assert!(schema_supports_anthropic_tool_input(&json(r#"{"type":["null","object"]}"#)));
    assert!(!schema_supports_anthropic_tool_input(&json(r#"{"type":["null","array"]}"#)));
    assert!(!schema_supports_anthropic_tool_input(&json(r#"{"type":"string"}"#)));
    assert!(!schema_supports_anthropic_tool_input(&json(r#"{"type":1}"#)));
    assert!(!schema_supports_anthropic_tool_input(&json("true")));
}

#[test]
fn option_values() {
    let o = json(r#"{"system_instruction":"  Be terse.  ","auto_cache":false}"#);
    assert_eq!(anthropic_system_instruction(Some(&o)).as_deref(), Some("Be terse."));
    assert!(anthropic_system_instruction(Some(&json(r#"{"system_instruction":"  "}"#))).is_none());
    assert!(anthropic_system_instruction(None).is_none());
    assert_eq!(anthropic_auto_cache_enabled(Some(&o)).ok(), Some(false));
    assert_eq!(anthropic_auto_cache_enabled(None).ok(), Some(true));
    assert!(anthropic_cache_control(Some(&o)).ok().expect("off").is_none());
    let eph = anthropic_cache_control(None).ok().expect("default").expect("on");
    assert_eq!(stable_json(&eph), r#"{"type":"ephemeral"}"#);
    let given = anthropic_cache_control(Some(&json(r#"{"cache_control":{"type":"ephemeral","ttl":"1h"}}"#)))
        .ok()
        .expect("given")
        .expect("on");
    assert_eq!(stable_json(&given), r#"{"ttl":"1h","type":"ephemeral"}"#);
    let e = anthropic_cache_control(Some(&json(r#"{"cache_control":"x"}"#))).err().expect("not an object");
    assert_eq!(e.message, "Anthropic cache_control must be an object");
    let e = anthropic_cache_control(Some(&json(r#"{"auto_cache":"no"}"#))).err().expect("not a boolean");
    assert_eq!(e.message, "Anthropic auto_cache must be a boolean");
}

#[test]
fn beta_header_lists() {
    let o = json(r#"{"beta_headers":" a, b,,a ,prompt-caching-2024-07-31"}"#);
    assert_eq!(
        anthropic_beta_headers(Some(&o), true).ok().expect("ok"),
        Some(vec!["a".to_string(), "b".to_string(), "prompt-caching-2024-07-31".to_string()])
    );
    let o = json(r#"{"beta_headers":["x"," y "]}"#);
    assert_eq!(
        anthropic_beta_headers(Some(&o), true).ok().expect("ok"),
        Some(vec!["x".to_string(), "y".to_string(), "prompt-caching-2024-07-31".to_string()])
    );
    assert_eq!(anthropic_beta_headers(None, false).ok().expect("ok"), None);
    assert_eq!(
        anthropic_beta_headers(None, true).ok().expect("ok"),
        Some(vec!["prompt-caching-2024-07-31".to_string()])
    );
    assert_eq!(anthropic_beta_headers(Some(&json(r#"{"beta_headers":" , "}"#)), false).ok().expect("ok"), None);
    let e = anthropic_beta_headers(Some(&json(r#"{"beta_headers":["x",""]}"#)), false).err().expect("blank");
    assert_eq!(e.message, "Anthropic beta_headers array must contain strings");
    let e = anthropic_beta_headers(Some(&json(r#"{"beta_headers":3}"#)), false).err().expect("number");
    assert_eq!(e.message, "Anthropic beta_headers must be a string or array of strings");
}

#[test]
fn cache_breakpoints() {
    let v = json(r#"{"a":{"cache_control":{}},"b":[{"cache_control":{"x":{"cache_control":1}}}],"cache_control":null}"#);
    assert_eq!(cache_control_count(&v), 4);
    assert!(value_contains_key(&v, "x"));
    assert!(!value_contains_key(&v, "y"));

    let mut system = Json::Str("rules".to_string());
    assert!(apply_cache_control_to_system(&mut system, &json(r#"{"type":"ephemeral"}"#)));
    assert_eq!(stable_json(&system), r#"[{"cache_control":{"type":"ephemeral"},"text":"rules","type":"text"}]"#);
    let mut empty = Json::Str(String::new());
    assert!(!apply_cache_control_to_system(&mut empty, &json("{}")));

    let mut tool = json(r#"{"name":"f"}"#);
    assert!(insert_cache_control_if_absent(&mut tool, &json(r#"{"type":"ephemeral"}"#)));
    assert!(!insert_cache_control_if_absent(&mut tool, &json(r#"{"type":"other"}"#)));
    assert_eq!(stable_json(&tool), r#"{"cache_control":{"type":"ephemeral"},"name":"f"}"#);

    let mut entry = json(r#"{"role":"assistant","content":"ok"}"#);
    assert!(apply_cache_control_to_message(&mut entry, &json(r#"{"type":"ephemeral"}"#)));
    assert_eq!(
        stable_json(&entry),
        r#"{"content":[{"cache_control":{"type":"ephemeral"},"text":"ok","type":"text"}],"role":"assistant"}"#
    );

    let entries = vec![json(r#"{"role":"user"}"#), json(r#"{"role":"assistant"}"#), json(r#"{"role":"user"}"#)];
    assert_eq!(anthropic_conversation_prefix_cache_target_index(&entries), Some(1));
    assert_eq!(anthropic_conversation_prefix_cache_target_index(&vec![json(r#"{"role":"user"}"#)]), None);
    assert_eq!(anthropic_conversation_prefix_cache_target_index(&vec![json(r#"{"role":"assistant"}"#)]), Some(0));
    assert_eq!(anthropic_conversation_prefix_cache_target_index(&Vec::new()), None);
}

#[test]
fn body_breakpoints() {
    let mut body = members(
        r#"{"system":"rules","tools":[{"name":"a"},{"name":"b"}],
            "messages":[{"role":"user","content":"q1"},{"role":"assistant","content":[{"type":"text","text":"a1"}]},{"role":"user","content":"q2"}]}"#,
    );
    apply_anthropic_cache_control(&mut body, Some(&json(r#"{"type":"ephemeral"}"#)));
    assert_eq!(
        stable_json(&Json::Object(body)),
        r#"{"messages":[{"content":"q1","role":"user"},{"content":[{"cache_control":{"type":"ephemeral"},"text":"a1","type":"text"}],"role":"assistant"},{"content":"q2","role":"user"}],"system":[{"cache_control":{"type":"ephemeral"},"text":"rules","type":"text"}],"tools":[{"name":"a"},{"cache_control":{"type":"ephemeral"},"name":"b"}]}"#
    );

    let mut full = members(
        r#"{"system":"rules","tools":[{"name":"a","cache_control":{}},{"name":"b","cache_control":{}},{"name":"c","cache_control":{}}]}"#,
    );
    apply_anthropic_cache_control(&mut full, Some(&json(r#"{"type":"ephemeral"}"#)));
    assert_eq!(
        stable_json(&Json::Object(full)),
        r#"{"system":[{"cache_control":{"type":"ephemeral"},"text":"rules","type":"text"}],"tools":[{"cache_control":{},"name":"a"},{"cache_control":{},"name":"b"},{"cache_control":{},"name":"c"}]}"#
    );

    let mut untouched = members(r#"{"system":"rules"}"#);
    apply_anthropic_cache_control(&mut untouched, None);
    assert_eq!(stable_json(&Json::Object(untouched)), r#"{"system":"rules"}"#);
}
