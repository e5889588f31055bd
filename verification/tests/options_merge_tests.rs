use unified_llm_adapter::canonical::stable_json;
use unified_llm_adapter::errors::SDKErrorKind;
use unified_llm_adapter::gemini_options::{
    gemini_tool_config, select_json_fields, split_gemini_provider_options, validate_gemini_thinking_config,
};
use unified_llm_adapter::json::{parse_json, Json};
use unified_llm_adapter::json_merge::{
    append_array_field, deep_insert, deep_insert_with_recursive_keys, deep_merge, deep_merge_protected_object,
};
use unified_llm_adapter::payload::{instruction_text, text_only_message};
use unified_llm_adapter::request::{ContentPart, Message, MessageRole};
use unified_llm_adapter::textmap::TextMap;
use unified_llm_adapter::tools::ToolChoice;

fn json(text: &str) -> Json {
    parse_json(text).ok().expect("valid json")
}

fn message(role: MessageRole, content: Vec<ContentPart>) -> Message {
    Message { role, content, name: None, tool_call_id: None, provider_metadata: TextMap::new() }
}

fn text(t: &str) -> ContentPart {
    ContentPart::Text { text: t.to_string() }
}

#[test]
fn gemini_tool_configs() {
    let names = vec!["f".to_string()];
    let none: Vec<String> = Vec::new();
    assert!(gemini_tool_config(None, &none).ok().expect("ok").is_none());
    let auto = gemini_tool_config(None, &names).ok().expect("ok").expect("auto");
    assert_eq!(stable_json(&auto), r#"{"functionCallingConfig":{"mode":"AUTO"}}"#);
    let off = gemini_tool_config(Some(&ToolChoice::none()), &none).ok().expect("ok").expect("none");
    assert_eq!(stable_json(&off), r#"{"functionCallingConfig":{"mode":"NONE"}}"#);
    let any = gemini_tool_config(Some(&ToolChoice::required()), &names).ok().expect("ok").expect("any");
    assert_eq!(stable_json(&any), r#"{"functionCallingConfig":{"mode":"ANY"}}"#);
    let e = gemini_tool_config(Some(&ToolChoice::required()), &none).err().expect("no tools");
    assert_eq!(e.kind, SDKErrorKind::UnsupportedToolChoice);
    assert_eq!(e.message, "Gemini required tool_choice requires at least one tool");
    let named = ToolChoice::named("f".to_string()).ok().expect("named");
    let one = gemini_tool_config(Some(&named), &names).ok().expect("ok").expect("one");
    assert_eq!(stable_json(&one), r#"{"functionCallingConfig":{"allowedFunctionNames":["f"],"mode":"ANY"}}"#);
    let other = ToolChoice::named("g".to_string()).ok().expect("named");
    let e = gemini_tool_config(Some(&other), &names).err().expect("missing");
    assert_eq!(e.message, r#"Gemini named tool_choice "g" requires a matching tool"#);
}

#[test]
fn gemini_provider_options_split() {
    let options = json(
        r#"{"labels":{"a":"b"},"safetySettings":[],"unknown":1,"tools":[{"googleSearch":{}}],
            "generationConfig":{"topK":3},"temperature":0.5,"thinkingConfig":{"thinkingBudget":0}}"#,
    );
    let (native, generation, tools) = split_gemini_provider_options(&options).ok().expect("split");
    assert_eq!(stable_json(&Json::Object(native)), r#"{"labels":{"a":"b"},"safetySettings":[]}"#);
    assert_eq!(
        generation.map(|g| stable_json(&g)).as_deref(),
        Some(r#"{"temperature":0.5,"thinkingConfig":{"thinkingBudget":0},"topK":3}"#)
    );
    assert_eq!(tools.map(|t| t.len()), Some(1));
    let (_, generation, tools) = split_gemini_provider_options(&json(r#"{"seed":7}"#)).ok().expect("split");
    assert_eq!(generation.map(|g| stable_json(&g)).as_deref(), Some(r#"{"seed":7}"#));
    assert!(tools.is_none());
    let (_, generation, _) = split_gemini_provider_options(&json("{}")).ok().expect("split");
    assert!(generation.is_none());
    let e = split_gemini_provider_options(&json(r#"{"tools":{}}"#)).err().expect("tools");
    assert_eq!(e.message, "Gemini provider_options.tools must be an array");
    let e = split_gemini_provider_options(&json(r#"{"generationConfig":1}"#)).err().expect("config");
    assert_eq!(e.message, "Gemini provider_options.generationConfig must be an object");
    let e = split_gemini_provider_options(&json(r#"{"generationConfig":{"thinkingConfig":1}}"#)).err().expect("nested");
    assert_eq!(e.message, "Gemini provider_options.generationConfig.thinkingConfig must be an object");
    let e = split_gemini_provider_options(&json(r#"{"thinkingConfig":"x"}"#)).err().expect("thinking");
    assert_eq!(e.message, "Gemini provider_options.thinkingConfig must be an object");
    assert!(validate_gemini_thinking_config(&json(r#"{"thinkingConfig":{}}"#)).is_ok());
    let picked = select_json_fields(&json(r#"{"b":2,"a":1,"c":3}"#), &vec!["c", "a", "z"]);
    assert_eq!(picked.iter().map(|(k, _)| k.as_str()).collect::<Vec<_>>(), vec!["a", "c"]);
}

#[test]
fn system_instructions() {
    let messages = vec![
        message(MessageRole::System, vec![text("A"), text("B")]),
        message(MessageRole::User, vec![text("hi")]),
        message(MessageRole::Developer, vec![]),
        message(MessageRole::Developer, vec![text("C")]),
    ];
    assert_eq!(instruction_text(&messages, "gemini").ok().expect("ok").as_deref(), Some("A\n\nB\n\nC"));
    assert!(instruction_text(&vec![message(MessageRole::User, vec![text("x")])], "gemini").ok().expect("ok").is_none());
    let bad = message(MessageRole::System, vec![ContentPart::Provider { raw: Json::Null }]);
    let e = text_only_message(&bad, "openai").err().expect("not text");
    assert_eq!(e.message, "openai system and developer messages must be text only");
    assert_eq!(e.kind, SDKErrorKind::InvalidRequest);
    assert!(instruction_text(&vec![bad], "gemini").is_err());
}

#[test]
fn deep_merges() {
    let merged = deep_merge(json(r#"{"a":{"x":1,"y":2},"b":1}"#), &json(r#"{"a":{"y":3,"z":4},"c":5}"#));
    assert_eq!(stable_json(&merged), r#"{"a":{"x":1,"y":3,"z":4},"b":1,"c":5}"#);
    assert_eq!(stable_json(&deep_merge(json(r#"{"a":1}"#), &json("[1]"))), "[1]");
    assert_eq!(stable_json(&deep_merge(json("3"), &json(r#"{"a":1}"#))), r#"{"a":1}"#);

    let mut target = json(r#"{"model":"m","generationConfig":{"topK":1}}"#);
    deep_merge_protected_object(&mut target, &json(r#"{"generationConfig":{"topP":2}}"#));
    assert_eq!(stable_json(&target), r#"{"generationConfig":{"topK":1,"topP":2},"model":"m"}"#);

    let mut shallow = json(r#"{"a":{"x":1},"b":2}"#);
    deep_insert(&mut shallow, &json(r#"{"a":{"y":1},"c":3}"#));
    assert_eq!(stable_json(&shallow), r#"{"a":{"y":1},"b":2,"c":3}"#);
    let mut scalar = json("1");
    deep_insert(&mut scalar, &json(r#"{"a":1}"#));
    assert_eq!(stable_json(&scalar), "1");

    let mut body = json(r#"{"generationConfig":{"topK":1},"tools":[1]}"#);
    deep_insert_with_recursive_keys(
        &mut body,
        &json(r#"{"generationConfig":{"seed":2},"tools":[2],"model":"m"}"#),
        &vec!["generationConfig"],
    );
    assert_eq!(stable_json(&body), r#"{"generationConfig":{"seed":2,"topK":1},"model":"m","tools":[2]}"#);

    let mut with_array = json(r#"{"tools":[1],"x":true}"#);
    append_array_field(&mut with_array, "tools", vec![json("2"), json("3")]);
    append_array_field(&mut with_array, "x", vec![json("4")]);
    append_array_field(&mut with_array, "y", Vec::new());
    assert_eq!(stable_json(&with_array), r#"{"tools":[1,2,3],"x":[4]}"#);
}
