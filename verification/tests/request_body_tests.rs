use unified_llm_adapter::anthropic_body::{anthropic_messages_body, anthropic_tool_definition};
use unified_llm_adapter::canonical::stable_json;
use unified_llm_adapter::errors::SDKErrorKind;
use unified_llm_adapter::gemini_body::{gemini_generate_content_body, gemini_tool_declaration};
use unified_llm_adapter::json::{parse_json, Json};
use unified_llm_adapter::json_merge::deep_merge;
use unified_llm_adapter::request::{ContentPart, Message, MessageRole, Request, ResponseFormat};
use unified_llm_adapter::sse::SseParser;
use unified_llm_adapter::textmap::TextMap;
use unified_llm_adapter::tools::{Tool, ToolChoice};

fn json(text: &str) -> Json {
    parse_json(text).ok().expect("valid json")
}

fn message(role: MessageRole, text: &str) -> Message {
    Message {
        role,
        content: vec![ContentPart::Text { text: text.to_string() }],
        name: None,
        tool_call_id: None,
        provider_metadata: TextMap::new(),
    }
}

fn lookup_tool() -> Tool {
    Tool {
        name: "lookup".to_string(),
        description: Some("find".to_string()),
        parameters: Some(json(r#"{"type":"object"}"#)),
        provider_metadata: TextMap::new(),
    }
}

fn request(model: &str) -> Request {
    Request {
        model: model.to_string(),
        messages: vec![message(MessageRole::System, "be brief"), message(MessageRole::User, "hi")],
        provider: None,
        tools: vec![lookup_tool()],
        tool_choice: None,
        response_format: None,
        temperature: Some(json("0.5")),
        top_p: None,
        max_tokens: Some(100),
        stop_sequences: vec!["END".to_string()],
        reasoning_effort: None,
        metadata: TextMap::new(),
        provider_options: TextMap::new(),
    }
}

fn member_keys(v: &Json) -> Vec<String> {
    match v {
        Json::Object(members) => members.iter().map(|(k, _)| k.clone()).collect(),
        _ => Vec::new(),
    }
}

#[test]
fn gemini_body_from_request() {
    let mut r = request("gemini-2.5-flash");
    r.response_format = Some(ResponseFormat::JsonObject);
    let body = gemini_generate_content_body(&r).ok().expect("body");
    assert_eq!(
        stable_json(&body),
        [
            r#"{"contents":[{"parts":[{"text":"hi"}],"role":"user"}],"#,
            r#""generationConfig":{"maxOutputTokens":100,"responseMimeType":"application/json","stopSequences":["END"],"temperature":0.5},"#,
            r#""systemInstruction":{"parts":[{"text":"be brief"}]},"#,
            r#""toolConfig":{"functionCallingConfig":{"mode":"AUTO"}},"#,
            r#""tools":[{"functionDeclarations":[{"description":"find","name":"lookup","parametersJsonSchema":{"type":"object"}}]}]}"#
        ].concat()
    );
    assert_eq!(
        member_keys(&body),
        vec!["contents", "generationConfig", "systemInstruction", "toolConfig", "tools"]
    );
}

#[test]
fn gemini_body_merges_provider_options() {
    let mut r = request("gemini-2.5-flash");
    r.provider_options.insert(
        "gemini".to_string(),
        json(r#"{"labels":{"a":"b"},"systemInstruction":{"parts":[{"text":"x"}]},"seed":7,"tools":[{"googleSearch":{}}]}"#),
    );
    let body = gemini_generate_content_body(&r).ok().expect("body");
    assert_eq!(
        stable_json(&body),
        [
            r#"{"contents":[{"parts":[{"text":"hi"}],"role":"user"}],"#,
            r#""generationConfig":{"maxOutputTokens":100,"seed":7,"stopSequences":["END"],"temperature":0.5},"#,
            r#""labels":{"a":"b"},"#,
            r#""systemInstruction":{"parts":[{"text":"be brief"}]},"#,
            r#""toolConfig":{"functionCallingConfig":{"mode":"AUTO"}},"#,
            r#""tools":[{"functionDeclarations":[{"description":"find","name":"lookup","parametersJsonSchema":{"type":"object"}}]},{"googleSearch":{}}]}"#
        ].concat()
    );
}

#[test]
fn gemini_body_errors() {
    let mut r = request("m");
    r.provider_options.insert("gemini".to_string(), json("[1]"));
    let e = gemini_generate_content_body(&r).err().expect("options not an object");
    assert_eq!(e.message, "provider_options.gemini must be a JSON object");
    let mut r = request("m");
    r.tools = vec![Tool { name: "1bad".to_string(), description: None, parameters: None, provider_metadata: TextMap::new() }];
    let e = gemini_generate_content_body(&r).err().expect("bad tool");
    assert_eq!(e.kind, SDKErrorKind::InvalidRequest);
    assert_eq!(e.provider.as_deref(), Some("gemini"));
    let mut r = request("m");
    r.tool_choice = Some(ToolChoice { mode: "sometimes".to_string(), tool_name: None });
    assert!(gemini_generate_content_body(&r).is_err());
    let mut bad_schema = lookup_tool();
    bad_schema.parameters = Some(json(r#"{"type":"array"}"#));
    let e = gemini_tool_declaration(&bad_schema).err().expect("schema");
    assert_eq!(e.message, "tool parameters root type must be object");
}

#[test]
fn anthropic_body_from_request() {
    let mut r = request("msg-model");
    r.max_tokens = None;
    r.temperature = Some(json("0.2"));
    r.metadata.insert("user_id".to_string(), Json::Str("u1".to_string()));
    let options = json(r#"{"auto_cache":false,"thinking":{"budget_tokens":1024,"type":"enabled"}}"#);
    let body = anthropic_messages_body(&r, Some(&options)).ok().expect("body");
    assert_eq!(
        stable_json(&body),
        [
            r#"{"max_tokens":4096,"messages":[{"content":[{"text":"hi","type":"text"}],"role":"user"}],"#,
            r#""metadata":{"user_id":"u1"},"model":"msg-model","stop_sequences":["END"],"system":"be brief","#,
            r#""temperature":0.2,"thinking":{"budget_tokens":1024,"type":"enabled"},"#,
            r#""tools":[{"description":"find","input_schema":{"type":"object"},"name":"lookup"}]}"#
        ].concat()
    );
}

#[test]
fn anthropic_body_structured_output_and_errors() {
    let mut r = request("msg-model");
    r.tools = Vec::new();
    r.response_format = Some(ResponseFormat::JsonObject);
    let no_cache = json(r#"{"auto_cache":false}"#);
    let body = anthropic_messages_body(&r, Some(&no_cache)).ok().expect("body");
    assert_eq!(
        stable_json(&body),
        [
            r#"{"max_tokens":100,"messages":[{"content":[{"text":"hi","type":"text"}],"role":"user"}],"#,
            r#""model":"msg-model","stop_sequences":["END"],"system":"be brief","temperature":0.5,"#,
            r#""tool_choice":{"name":"structured_output","type":"tool"},"#,
            r#""tools":[{"description":"Return the final structured response.","input_schema":{"type":"object"},"name":"structured_output"}]}"#
        ].concat()
    );
    let mut r = request("msg-model");
    r.response_format = Some(ResponseFormat::Text);
    r.tool_choice = Some(ToolChoice { mode: "none".to_string(), tool_name: None });
    let body = anthropic_messages_body(&r, None).ok().expect("disabled tools");
    assert!(!member_keys(&body).contains(&"tools".to_string()));
    let cached_body = anthropic_messages_body(&request("msg-model"), None).ok().expect("cached");
    assert!(stable_json(&cached_body).contains(r#""cache_control":{"type":"ephemeral"}"#));
    let options = json(r#"{"thinking":true}"#);
    let e = anthropic_messages_body(&request("msg-model"), Some(&options)).err().expect("thinking");
    assert_eq!(e.message, "Anthropic provider_options.thinking must be an object");
    let mut cached = lookup_tool();
    cached.parameters = None;
    cached.provider_metadata.insert("cache_control".to_string(), json(r#"{"type":"ephemeral"}"#));
    let def = anthropic_tool_definition(&cached).ok().expect("definition");
    assert_eq!(
        stable_json(&def),
        r#"{"cache_control":{"type":"ephemeral"},"description":"find","input_schema":{"properties":{},"type":"object"},"name":"lookup"}"#
    );
}

#[test]
fn deep_merge_keeps_keys_in_order() {
    let merged = deep_merge(json(r#"{"b":1}"#), &json(r#"{"a":2,"c":{"d":3}}"#));
    assert_eq!(member_keys(&merged), vec!["a", "b", "c"]);
}

#[test]
fn blank_line_leaves_nothing_pending() {
    let mut p = SseParser::new();
    let records = p.push_str("data: x");
    assert!(records.is_empty());
    assert!(p.has_pending_input());
    let records = p.push_str("\nevent: e\n\n");
    assert_eq!(records.len(), 1);
    assert!(!p.has_pending_input());
    let mut q = SseParser::new();
    q.push_str("data: y");
    q.finish();
    assert!(!q.has_pending_input());
}
