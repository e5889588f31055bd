use unified_llm_adapter::canonical::stable_json;
use unified_llm_adapter::errors::SDKErrorKind;
use unified_llm_adapter::gemini::{
    gemini_function_call_arguments, gemini_response_content, gemini_synthetic_tool_call_id,
    translate_gemini_generate_content_response, usage_from_gemini, usize_text,
};
use unified_llm_adapter::json::{parse_json, Json};
use unified_llm_adapter::native::gemini_synthetic_tool_call_name;
use unified_llm_adapter::request::{ContentPart, FinishReasonKind};

fn json(text: &str) -> Json {
    parse_json(text).ok().expect("valid json")
}

#[test]
fn stable_json_sorts_members_and_keeps_items() {
    let v = Json::Object(vec![
        ("b".to_string(), Json::Number("1".to_string())),
        (
            "a".to_string(),
            Json::Array(vec![Json::Bool(true), Json::Null, Json::Str("x\"y".to_string())]),
        ),
    ]);
    assert_eq!(stable_json(&v), r#"{"a":[true,null,"x\"y"],"b":1}"#);
    assert_eq!(stable_json(&Json::Object(vec![])), "{}");
    assert_eq!(stable_json(&Json::Array(vec![])), "[]");
    let nested = Json::Object(vec![
        ("z".to_string(), Json::Object(vec![("y".to_string(), Json::Bool(false)), ("x".to_string(), Json::Null)])),
        ("Z".to_string(), Json::Number("2.5".to_string())),
    ]);
    assert_eq!(stable_json(&nested), r#"{"Z":2.5,"z":{"x":null,"y":false}}"#);
}

#[test]
fn decimal_text_of_positions() {
    assert_eq!(usize_text(0), "0");
    assert_eq!(usize_text(7), "7");
    assert_eq!(usize_text(1024), "1024");
}

#[test]
fn synthetic_ids_carry_their_name_back() {
    let args = json(r#"{"city":"Paris"}"#);
    let id = gemini_synthetic_tool_call_id("get weather", 0, 2, &args);
    assert_eq!(id, "gemini_call_get%20weather_c0_p2_6fd305557de5847b");
    assert_eq!(gemini_synthetic_tool_call_name(&id).as_deref(), Some("get weather"));
    let odd = gemini_synthetic_tool_call_id("a_b/ç", 3, 11, &Json::Object(vec![]));
    assert_eq!(odd, "gemini_call_a_b%2F%C3%A7_c3_p11_08f44b07b5901a25");
    assert_eq!(gemini_synthetic_tool_call_name(&odd).as_deref(), Some("a_b/ç"));
}

#[test]
fn function_call_arguments_cases() {
    let (a, raw) = gemini_function_call_arguments(&json(r#"{"name":"f"}"#)).ok().expect("missing args");
    assert_eq!(stable_json(&a), "{}");
    assert_eq!(raw, "{}");
    let (a, raw) = gemini_function_call_arguments(&json(r#"{"args":null,"arguments":{"x":1}}"#)).ok().expect("null args");
    assert_eq!(stable_json(&a), "{}");
    assert_eq!(raw, "{}");
    let (a, raw) = gemini_function_call_arguments(&json(r#"{"arguments":"  "}"#)).ok().expect("blank text");
    assert_eq!(stable_json(&a), "{}");
    assert_eq!(raw, "  ");
    let (a, raw) = gemini_function_call_arguments(&json(r#"{"args":"{\"k\": [1, 2]}"}"#)).ok().expect("text");
    assert_eq!(stable_json(&a), r#"{"k":[1,2]}"#);
    assert_eq!(raw, r#"{"k": [1, 2]}"#);
    let (a, raw) = gemini_function_call_arguments(&json(r#"{"args":{"b":true,"a":[1,"x"]}}"#)).ok().expect("object");
    assert_eq!(stable_json(&a), r#"{"a":[1,"x"],"b":true}"#);
    assert_eq!(raw, r#"{"a":[1,"x"],"b":true}"#);
    let e = gemini_function_call_arguments(&json(r#"{"args":"{not json"}"#)).err().expect("bad text");
    assert_eq!(e.kind, SDKErrorKind::InvalidToolCall);
    assert_eq!(e.provider.as_deref(), Some("gemini"));
    assert!(e.message.starts_with("Gemini functionCall arguments must be valid JSON: "));
}

#[test]
fn gemini_usage_metadata() {
    let u = usage_from_gemini(Some(&json(
        r#"{"promptTokenCount":5,"candidatesTokenCount":"7","thoughtsTokenCount":2,"cachedContentTokenCount":1}"#,
    )));
    assert_eq!(u.input_tokens, 5);
    assert_eq!(u.output_tokens, 7);
    assert_eq!(u.total_tokens, 0);
    assert_eq!(u.reasoning_tokens, Some(2));
    assert_eq!(u.cache_read_tokens, Some(1));
    assert_eq!(u.cache_write_tokens, None);
    let empty = usage_from_gemini(None);
    assert_eq!(empty.input_tokens, 0);
    assert!(empty.raw.is_none());
}

#[test]
fn gemini_content_parts() {
    let content = json(
        r#"{"parts":[{"text":"plan","thought":true,"thoughtSignature":"sig"},{"text":"Hello"},
                     7,{"functionCall":{"args":{"q":"x"}}},
                     {"functionCall":{"name":"search","args":{"q":"x"}}},
                     {"functionCall":{"name":"lookup","id":"call_9","args":"{}"}},
                     {"inlineData":{"mimeType":"image/png"}}]}"#,
    );
    let parts = gemini_response_content(&content, " atlas-pro ", 0).ok().expect("parts");
    assert_eq!(parts.len(), 5);
    match &parts[0] {
        ContentPart::Thinking { thinking } => {
            assert_eq!(thinking.text, "plan");
            assert_eq!(thinking.signature.as_deref(), Some("sig"));
            assert_eq!(thinking.source_provider.as_deref(), Some("gemini"));
            assert_eq!(thinking.source_model.as_deref(), Some("atlas-pro"));
            assert!(!thinking.redacted);
        }
        _ => panic!("expected thinking"),
    }
    match &parts[1] {
        ContentPart::Text { text } => assert_eq!(text, "Hello"),
        _ => panic!("expected text"),
    }
    match &parts[2] {
        ContentPart::ToolCall { tool_call } => {
            assert_eq!(tool_call.name, "search");
            assert_eq!(tool_call.id, gemini_synthetic_tool_call_id("search", 0, 4, &json(r#"{"q":"x"}"#)));
            assert_eq!(tool_call.raw_arguments.as_deref(), Some(r#"{"q":"x"}"#));
            assert_eq!(tool_call.call_type, "function");
        }
        _ => panic!("expected tool call"),
    }
    match &parts[3] {
        ContentPart::ToolCall { tool_call } => {
            assert_eq!(tool_call.id, "call_9");
            assert_eq!(tool_call.raw_arguments.as_deref(), Some("{}"));
        }
        _ => panic!("expected tool call"),
    }
    assert!(matches!(&parts[4], ContentPart::Provider { .. }));
    let none = gemini_response_content(&json(r#"{"parts":"no"}"#), "m", 0).ok().expect("no parts");
    assert!(none.is_empty());
    let bad = gemini_response_content(&json(r#"{"parts":[{"functionCall":{"name":"f","args":"[1,"}}]}"#), "m", 0);
    assert_eq!(bad.err().map(|e| e.kind), Some(SDKErrorKind::InvalidToolCall));
}

#[test]
fn gemini_response_is_translated() {
    let payload = json(
        r#"{"responseId":"r-1","modelVersion":"atlas-2",
            "candidates":[{"content":{"parts":[{"text":"Hi "},{"text":"there"},
                                               {"functionCall":{"name":"f","id":"c1","args":{}}}]},
                           "finishReason":" stop "}],
            "usageMetadata":{"promptTokenCount":3,"candidatesTokenCount":4}}"#,
    );
    let r = translate_gemini_generate_content_response(payload, None).ok().expect("translated");
    assert_eq!(r.id, "r-1");
    assert_eq!(r.model, "atlas-2");
    assert_eq!(r.provider, "gemini");
    assert_eq!(r.text, "Hi there");
    assert!(r.finish_reason.reason == FinishReasonKind::ToolCalls);
    assert_eq!(r.finish_reason.raw.as_deref(), Some(" stop "));
    assert_eq!(r.usage.total_tokens, 7);
    assert_eq!(r.message.content.len(), 3);
    assert!(r.raw.is_some());

    let plain = json(r#"{"candidates":[{"modelVersion":"m-c","finishReason":"MAX_TOKENS"}]}"#);
    let r = translate_gemini_generate_content_response(plain, None).ok().expect("translated");
    assert_eq!(r.model, "m-c");
    assert_eq!(r.id, "");
    assert!(r.finish_reason.reason == FinishReasonKind::Length);
    assert!(r.message.content.is_empty());

    let none = translate_gemini_generate_content_response(json(r#"{"candidates":[]}"#), None).ok().expect("empty");
    assert!(none.finish_reason.reason == FinishReasonKind::Other);
    assert!(none.finish_reason.raw.is_none());

    let e = translate_gemini_generate_content_response(Json::Null, None).err().expect("not an object");
    assert_eq!(e.kind, SDKErrorKind::Provider);
    assert_eq!(e.message, "Gemini generateContent response must be a JSON object");

    let bad = json(r#"{"candidates":[{"content":{"parts":[{"functionCall":{"name":"f","args":"nope"}}]}}]}"#);
    let e = translate_gemini_generate_content_response(bad, None).err().expect("bad args");
    assert_eq!(e.kind, SDKErrorKind::InvalidToolCall);
}
