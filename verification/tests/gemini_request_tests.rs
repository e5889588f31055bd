use unified_llm_adapter::canonical::stable_json;
use unified_llm_adapter::errors::SDKErrorKind;
use unified_llm_adapter::gemini::gemini_synthetic_tool_call_id;
use unified_llm_adapter::gemini_request::{gemini_message_payload, remember_gemini_tool_call_name};
use unified_llm_adapter::json::{parse_json, Json};
use unified_llm_adapter::payload::{encode_base64, tool_call_arguments_object};
use unified_llm_adapter::request::{
    AudioData, ContentPart, ImageData, Message, MessageRole, ThinkingData, ToolCall, ToolResultData,
};
use unified_llm_adapter::textmap::TextMap;

fn json(text: &str) -> Json {
    parse_json(text).ok().expect("valid json")
}

fn message(role: MessageRole, content: Vec<ContentPart>) -> Message {
    Message { role, content, name: None, tool_call_id: None, provider_metadata: TextMap::new() }
}

fn call(id: &str, name: &str, arguments: Json) -> ToolCall {
    ToolCall {
        id: id.to_string(),
        name: name.to_string(),
        arguments,
        raw_arguments: None,
        call_type: "function".to_string(),
    }
}

fn result(id: &str, content: Json) -> ContentPart {
    ContentPart::ToolResult {
        tool_result: ToolResultData {
            tool_call_id: id.to_string(),
            content,
            is_error: false,
            image_data: None,
            image_media_type: None,
        },
    }
}

#[test]
fn base64_of_bytes() {
    assert_eq!(encode_base64(&vec![1u8, 2, 3]), "AQID");
    assert_eq!(encode_base64(&b"hi".to_vec()), "aGk=");
    assert_eq!(encode_base64(&Vec::new()), "");
}

#[test]
fn arguments_become_objects() {
    let ok = tool_call_arguments_object(&call("c", "f", Json::Str(r#"{"a": 1}"#.to_string())), "gemini");
    assert_eq!(stable_json(&ok.ok().expect("object text")), r#"{"a":1}"#);
    let empty = tool_call_arguments_object(&call("c", "f", Json::Null), "gemini").ok().expect("null");
    assert_eq!(stable_json(&empty), "{}");
    let e = tool_call_arguments_object(&call("c", "f", Json::Str("[1]".to_string())), "anthropic").err().expect("array");
    assert_eq!(e.kind, SDKErrorKind::InvalidRequest);
    assert_eq!(e.message, "anthropic tool_call arguments must be a JSON object");
    assert!(tool_call_arguments_object(&call("c", "f", Json::Bool(true)), "gemini").is_err());
    assert!(tool_call_arguments_object(&call("c", "f", Json::Str("{".to_string())), "gemini").is_err());
}

#[test]
fn user_text_and_images() {
    let mut names = TextMap::new();
    let m = message(
        MessageRole::User,
        vec![
            ContentPart::Text { text: "look".to_string() },
            ContentPart::Image {
                image: ImageData { url: Some("https://x.test/a.JPG?s=1".to_string()), data: None, media_type: None, detail: None },
            },
            ContentPart::Image {
                image: ImageData { url: None, data: Some(vec![1, 2, 3]), media_type: None, detail: None },
            },
        ],
    );
    let p = gemini_message_payload(&m, &mut names).ok().expect("payload");
    assert_eq!(
        stable_json(&p),
        r#"{"parts":[{"text":"look"},{"fileData":{"fileUri":"https://x.test/a.JPG?s=1","mimeType":"image/jpeg"}},{"inlineData":{"data":"AQID","mimeType":"image/png"}}],"role":"user"}"#
    );
    let bad = message(
        MessageRole::User,
        vec![ContentPart::Image { image: ImageData { url: None, data: None, media_type: None, detail: None } }],
    );
    let e = gemini_message_payload(&bad, &mut names).err().expect("no source");
    assert_eq!(e.message, "exactly one of url or data must be provided for image");
    assert_eq!(e.kind, SDKErrorKind::InvalidRequest);
}

#[test]
fn assistant_calls_and_tool_results() {
    let mut names = TextMap::new();
    let thinking = ThinkingData {
        text: "hmm".to_string(),
        signature: Some(" sig ".to_string()),
        redacted: false,
        source_provider: Some("Gemini".to_string()),
        source_model: None,
    };
    let a = message(
        MessageRole::Assistant,
        vec![
            ContentPart::Thinking { thinking },
            ContentPart::ToolCall { tool_call: call("call_1", "lookup", Json::Str(r#"{"q":"x"}"#.to_string())) },
        ],
    );
    let p = gemini_message_payload(&a, &mut names).ok().expect("assistant");
    assert_eq!(
        stable_json(&p),
        r#"{"parts":[{"text":"hmm","thought":true,"thoughtSignature":"sig"},{"functionCall":{"args":{"q":"x"},"name":"lookup"}}],"role":"model"}"#
    );
    assert_eq!(names.get("call_1").map(|s| s.as_str()), Some("lookup"));

    let synthetic = gemini_synthetic_tool_call_id("get weather", 0, 1, &json(r#"{"city":"Paris"}"#));
    let t = message(
        MessageRole::Tool,
        vec![result("call_1", Json::Str("ok".to_string())), result(&synthetic, json(r#"{"temp":20}"#))],
    );
    let p = gemini_message_payload(&t, &mut names).ok().expect("tool results");
    let expected = format!(
        r#"{{"parts":[{{"functionResponse":{{"id":"call_1","name":"lookup","response":{{"result":"ok"}}}}}},{{"functionResponse":{{"id":"{}","name":"get weather","response":{{"temp":20}}}}}}],"role":"user"}}"#,
        synthetic
    );
    assert_eq!(stable_json(&p), expected);

    let unknown = message(MessageRole::Tool, vec![result("zzz", Json::Null)]);
    let e = gemini_message_payload(&unknown, &mut names).err().expect("unknown name");
    assert_eq!(e.message, r#"Gemini tool_result content requires a known function name for tool_call_id "zzz""#);

    let mut named = message(MessageRole::Tool, vec![result("zzz", Json::Null)]);
    named.name = Some("given".to_string());
    let p = gemini_message_payload(&named, &mut names).ok().expect("named");
    assert_eq!(
        stable_json(&p),
        r#"{"parts":[{"functionResponse":{"id":"zzz","name":"given","response":{"result":null}}}],"role":"user"}"#
    );
}

#[test]
fn conflicting_names_and_wrong_roles() {
    let mut names = TextMap::new();
    assert!(remember_gemini_tool_call_name(&mut names, &call("c1", "a", Json::Null)).is_ok());
    assert!(remember_gemini_tool_call_name(&mut names, &call("c1", "a", Json::Null)).is_ok());
    let e = remember_gemini_tool_call_name(&mut names, &call("c1", "b", Json::Null)).err().expect("conflict");
    assert_eq!(e.message, r#"Gemini tool_call id "c1" is associated with both "a" and "b""#);
    assert_eq!(names.get("c1").map(|s| s.as_str()), Some("a"));

    let system = message(MessageRole::System, vec![ContentPart::Text { text: "x".to_string() }]);
    let e = gemini_message_payload(&system, &mut names).err().expect("system");
    assert_eq!(e.message, "Gemini generateContent request does not support role System here");

    let user_call = message(MessageRole::User, vec![ContentPart::ToolCall { tool_call: call("c2", "f", Json::Null) }]);
    let e = gemini_message_payload(&user_call, &mut names).err().expect("user call");
    assert_eq!(e.message, "Gemini functionCall parts are only valid in assistant messages");
    assert!(names.get("c2").is_none());

    let assistant_result = message(MessageRole::Assistant, vec![result("c1", Json::Null)]);
    let e = gemini_message_payload(&assistant_result, &mut names).err().expect("assistant result");
    assert_eq!(e.message, "Gemini functionResponse parts are only valid in tool messages");

    let redacted = ThinkingData {
        text: "x".to_string(),
        signature: None,
        redacted: true,
        source_provider: Some("gemini".to_string()),
        source_model: None,
    };
    let r = message(MessageRole::Assistant, vec![ContentPart::RedactedThinking { thinking: redacted }]);
    let e = gemini_message_payload(&r, &mut names).err().expect("redacted");
    assert_eq!(e.message, "Gemini generateContent request history does not support redacted_thinking content parts");

    let audio = message(
        MessageRole::User,
        vec![ContentPart::Audio { audio: AudioData { url: Some("https://a.test/x.mp3".to_string()), data: None, media_type: None } }],
    );
    let e = gemini_message_payload(&audio, &mut names).err().expect("audio");
    assert_eq!(e.message, "Gemini generateContent request does not support audio content parts");

    let other = ThinkingData {
        text: "x".to_string(),
        signature: None,
        redacted: false,
        source_provider: Some("anthropic".to_string()),
        source_model: None,
    };
    let m = message(MessageRole::Assistant, vec![ContentPart::Thinking { thinking: other }]);
    assert_eq!(gemini_message_payload(&m, &mut names).err().map(|e| e.kind), Some(SDKErrorKind::InvalidRequest));
}
