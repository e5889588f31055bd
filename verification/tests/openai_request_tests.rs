use unified_llm_adapter::anthropic_options::{
    anthropic_structured_output_instruction, anthropic_structured_output_tool, anthropic_structured_output_tool_schema,
};
use unified_llm_adapter::canonical::stable_json;
use unified_llm_adapter::compatible::chat_response_format;
use unified_llm_adapter::errors::SDKErrorKind;
use unified_llm_adapter::json::{parse_json, Json};
use unified_llm_adapter::openai_request::{
    openai_function_call_item, openai_image_part, openai_image_url, openai_message_input_items, openai_response_format,
    openai_tool_choice_value, openai_tool_output_from_message, openai_tool_output_from_result, openai_tool_output_value,
};
use unified_llm_adapter::payload::NormalizedImageSource;
use unified_llm_adapter::request::{
    ContentPart, ImageData, Message, MessageRole, ResponseFormat, ThinkingData, ToolCall, ToolResultData,
};
use unified_llm_adapter::textmap::TextMap;
use unified_llm_adapter::tools::ToolChoice;

fn json(text: &str) -> Json {
    parse_json(text).ok().expect("valid json")
}

fn message(role: MessageRole, content: Vec<ContentPart>) -> Message {
    Message { role, content, name: None, tool_call_id: None, provider_metadata: TextMap::new() }
}

fn text(t: &str) -> ContentPart {
    ContentPart::Text { text: t.to_string() }
}

fn call(id: &str, name: &str, arguments: Json) -> ToolCall {
    ToolCall {
        id: id.to_string(),
        name: name.to_string(),
        arguments,
        raw_arguments: None,
        call_type: "function".to_string(),
    }
}

fn tool_result(id: &str, content: Json) -> ToolResultData {
    ToolResultData { tool_call_id: id.to_string(), content, is_error: false, image_data: None, image_media_type: None }
}

fn url_image(url: &str, detail: Option<&str>) -> ImageData {
    ImageData { url: Some(url.to_string()), data: None, media_type: None, detail: detail.map(|d| d.to_string()) }
}

fn choice(mode: &str, tool_name: Option<&str>) -> ToolChoice {
    ToolChoice { mode: mode.to_string(), tool_name: tool_name.map(|n| n.to_string()) }
}

fn items_text(items: &[Json]) -> Vec<String> {
    items.iter().map(stable_json).collect()
}

#[test]
fn tool_output_values() {
    assert_eq!(stable_json(&openai_tool_output_value(json(r#"{"b":1}"#))), r#""{\"b\":1}""#);
    assert_eq!(stable_json(&openai_tool_output_value(json(r#"[1,2]"#))), "[1,2]");
    assert_eq!(stable_json(&openai_tool_output_value(Json::Str("done".to_string()))), r#""done""#);
    assert_eq!(stable_json(&openai_tool_output_value(Json::Null)), r#""null""#);
    let item = openai_tool_output_from_result(&tool_result("c1", json("7"))).ok().expect("always");
    assert_eq!(stable_json(&item), r#"{"call_id":"c1","output":"7","type":"function_call_output"}"#);
}

#[test]
fn function_call_items() {
    let item = openai_function_call_item(&call("c1", "lookup", json(r#"{"q":"x"}"#))).ok().expect("valid call");
    assert_eq!(
        stable_json(&item),
        r#"{"arguments":"{\"q\":\"x\"}","id":"c1","name":"lookup","type":"function_call"}"#
    );
    let mut raw = call("c2", "lookup", Json::Null);
    raw.raw_arguments = Some("{ \"q\" : 1 }".to_string());
    let item = openai_function_call_item(&raw).ok().expect("raw arguments");
    assert_eq!(stable_json(&item), r#"{"arguments":"{ \"q\" : 1 }","id":"c2","name":"lookup","type":"function_call"}"#);
    let e = openai_function_call_item(&call(" ", "lookup", Json::Null)).err().expect("blank id");
    assert_eq!(e.kind, SDKErrorKind::InvalidRequest);
    assert_eq!(e.provider.as_deref(), Some("openai"));
    assert_eq!(e.message, "tool call id must not be empty");
}

#[test]
fn image_urls_and_parts() {
    let url = NormalizedImageSource::Url { url: "https://x/a.png".to_string(), media_type: "image/png".to_string() };
    assert_eq!(openai_image_url(&url), "https://x/a.png");
    let data = NormalizedImageSource::Data { data: vec![1u8, 2, 3], media_type: "image/jpeg".to_string() };
    assert_eq!(openai_image_url(&data), "data:image/jpeg;base64,AQID");

    let part = openai_image_part(&url_image("https://x/a.png", Some(" high "))).ok().expect("url image");
    assert_eq!(stable_json(&part), r#"{"detail":"high","image_url":"https://x/a.png","type":"input_image"}"#);
    let part = openai_image_part(&url_image("https://x/a.png", Some("  "))).ok().expect("blank detail");
    assert_eq!(stable_json(&part), r#"{"image_url":"https://x/a.png","type":"input_image"}"#);
    let inline = ImageData { url: None, data: Some(vec![1u8, 2, 3]), media_type: None, detail: None };
    let part = openai_image_part(&inline).ok().expect("bytes");
    assert_eq!(stable_json(&part), r#"{"image_url":"data:image/png;base64,AQID","type":"input_image"}"#);
    let neither = ImageData { url: None, data: None, media_type: None, detail: None };
    let e = openai_image_part(&neither).err().expect("no source");
    assert_eq!(e.message, "exactly one of url or data must be provided for image");
}

#[test]
fn tool_choice_values() {
    let v = openai_tool_choice_value(&choice("auto", None)).ok().expect("auto");
    assert_eq!(stable_json(&v), r#""auto""#);
    let v = openai_tool_choice_value(&choice("none", None)).ok().expect("none");
    assert_eq!(stable_json(&v), r#""none""#);
    let v = openai_tool_choice_value(&choice("any", None)).ok().expect("required");
    assert_eq!(stable_json(&v), r#""required""#);
    let v = openai_tool_choice_value(&choice("named", Some("lookup"))).ok().expect("named");
    assert_eq!(stable_json(&v), r#"{"function":{"name":"lookup"},"type":"function"}"#);
    let e = openai_tool_choice_value(&choice("sometimes", None)).err().expect("unknown mode");
    assert_eq!(e.kind, SDKErrorKind::UnsupportedToolChoice);
    let e = openai_tool_choice_value(&choice("named", None)).err().expect("no name");
    assert_eq!(e.kind, SDKErrorKind::InvalidRequest);
}

#[test]
fn tool_messages_become_outputs() {
    let mut m = message(MessageRole::Tool, vec![text("part one, "), text("part two")]);
    m.tool_call_id = Some("c1".to_string());
    let out = openai_tool_output_from_message(&m).ok().expect("text output");
    assert_eq!(stable_json(&out), r#"{"call_id":"c1","output":"part one, part two","type":"function_call_output"}"#);

    let m = message(MessageRole::Tool, vec![ContentPart::ToolResult { tool_result: tool_result("c2", json(r#"{"ok":true}"#)) }]);
    let out = openai_tool_output_from_message(&m).ok().expect("result output");
    assert_eq!(stable_json(&out), r#"{"call_id":"c2","output":"{\"ok\":true}","type":"function_call_output"}"#);

    let m = message(MessageRole::Tool, vec![text("x")]);
    let e = openai_tool_output_from_message(&m).err().expect("no call id");
    assert_eq!(e.message, "OpenAI tool messages require a tool_call_id");

    let mut m = message(MessageRole::Tool, vec![ContentPart::ToolResult { tool_result: tool_result("c2", json("1")) }]);
    m.tool_call_id = Some("c1".to_string());
    let e = openai_tool_output_from_message(&m).err().expect("two ids");
    assert_eq!(e.message, "OpenAI tool messages must use a single tool_call_id");

    let m = message(
        MessageRole::Tool,
        vec![
            ContentPart::ToolResult { tool_result: tool_result("c1", json("1")) },
            ContentPart::ToolResult { tool_result: tool_result("c1", json("2")) },
        ],
    );
    let e = openai_tool_output_from_message(&m).err().expect("two results");
    assert_eq!(e.message, "OpenAI tool messages support only one tool_result payload");

    let m = message(MessageRole::Tool, vec![text("x"), ContentPart::ToolResult { tool_result: tool_result("c1", json("1")) }]);
    let e = openai_tool_output_from_message(&m).err().expect("mixed");
    assert_eq!(e.message, "OpenAI tool messages cannot mix text and tool_result content");

    let mut m = message(MessageRole::Tool, vec![]);
    m.tool_call_id = Some("c1".to_string());
    let e = openai_tool_output_from_message(&m).err().expect("empty");
    assert_eq!(e.message, "OpenAI tool messages require text or tool_result content");

    let mut m = message(MessageRole::Tool, vec![ContentPart::Image { image: url_image("https://x/a.png", None) }]);
    m.tool_call_id = Some("c1".to_string());
    let e = openai_tool_output_from_message(&m).err().expect("image");
    assert_eq!(e.message, "OpenAI tool messages support only text or tool_result content");
}

#[test]
fn message_items_group_content() {
    let mut m = message(
        MessageRole::User,
        vec![text("look"), ContentPart::Image { image: url_image("https://x/a.png", None) }],
    );
    m.name = Some(" ann ".to_string());
    let items = openai_message_input_items(&m).ok().expect("user items");
    assert_eq!(
        items_text(&items),
        vec![
            r#"{"content":[{"text":"look","type":"input_text"},{"image_url":"https://x/a.png","type":"input_image"}],"name":"ann","role":"user","type":"message"}"#
        ]
    );

    let m = message(
        MessageRole::Assistant,
        vec![
            text("calling"),
            ContentPart::ToolCall { tool_call: call("c1", "lookup", json("{}")) },
            ContentPart::ToolResult { tool_result: tool_result("c1", Json::Str("hit".to_string())) },
            text("done"),
        ],
    );
    let items = openai_message_input_items(&m).ok().expect("assistant items");
    assert_eq!(
        items_text(&items),
        vec![
            r#"{"content":[{"text":"calling","type":"output_text"}],"role":"assistant","type":"message"}"#.to_string(),
            r#"{"arguments":"{}","id":"c1","name":"lookup","type":"function_call"}"#.to_string(),
            r#"{"call_id":"c1","output":"hit","type":"function_call_output"}"#.to_string(),
            r#"{"content":[{"text":"done","type":"output_text"}],"role":"assistant","type":"message"}"#.to_string(),
        ]
    );

    let items = openai_message_input_items(&message(MessageRole::User, vec![])).ok().expect("empty");
    assert!(items.is_empty());

    let mut m = message(MessageRole::Tool, vec![text("r")]);
    m.tool_call_id = Some("c9".to_string());
    let items = openai_message_input_items(&m).ok().expect("tool message");
    assert_eq!(items_text(&items), vec![r#"{"call_id":"c9","output":"r","type":"function_call_output"}"#]);
}

#[test]
fn message_items_refuse_reasoning_and_audio() {
    let thinking = ThinkingData {
        text: "hmm".to_string(),
        signature: None,
        redacted: false,
        source_provider: None,
        source_model: None,
    };
    let m = message(MessageRole::Assistant, vec![text("a"), ContentPart::Thinking { thinking }]);
    let e = openai_message_input_items(&m).err().expect("reasoning");
    assert_eq!(e.message, "OpenAI Responses request history does not support reasoning content parts");
    let m = message(MessageRole::User, vec![ContentPart::Custom { kind: "widget".to_string(), raw: Json::Null }]);
    let e = openai_message_input_items(&m).err().expect("custom");
    assert_eq!(e.message, "OpenAI Responses request history does not support widget content parts");
    assert_eq!(e.provider.as_deref(), Some("openai"));
}

#[test]
fn response_formats() {
    assert_eq!(stable_json(&openai_response_format(&ResponseFormat::Text)), r#"{"type":"text"}"#);
    assert_eq!(stable_json(&openai_response_format(&ResponseFormat::JsonObject)), r#"{"type":"json_object"}"#);
    let schema = ResponseFormat::JsonSchema { json_schema: json(r#"{"type":"object"}"#), strict: true };
    assert_eq!(
        stable_json(&openai_response_format(&schema)),
        r#"{"json_schema":{"type":"object"},"strict":true,"type":"json_schema"}"#
    );
    assert_eq!(stable_json(&chat_response_format(&ResponseFormat::JsonObject)), r#"{"type":"json_object"}"#);
}

#[test]
fn anthropic_structured_output() {
    let object = ResponseFormat::JsonObject;
    assert_eq!(stable_json(&anthropic_structured_output_tool_schema(Some(&object)).expect("object")), r#"{"type":"object"}"#);
    let array_schema = ResponseFormat::JsonSchema { json_schema: json(r#"{"type":"array"}"#), strict: false };
    assert!(anthropic_structured_output_tool_schema(Some(&array_schema)).is_none());
    assert!(anthropic_structured_output_tool_schema(Some(&ResponseFormat::Text)).is_none());
    assert!(anthropic_structured_output_tool_schema(None).is_none());

    let no_tools: Vec<String> = Vec::new();
    let tool = anthropic_structured_output_tool(Some(&object), &no_tools, None).ok().expect("ok").expect("tool");
    assert_eq!(
        stable_json(&tool),
        r#"{"description":"Return the final structured response.","input_schema":{"type":"object"},"name":"structured_output"}"#
    );
    let taken = vec!["structured_output".to_string()];
    assert!(anthropic_structured_output_tool(Some(&object), &taken, None).ok().expect("ok").is_none());
    let auto = choice("auto", None);
    assert!(anthropic_structured_output_tool(Some(&object), &no_tools, Some(&auto)).ok().expect("ok").is_some());
    let required = choice("required", None);
    assert!(anthropic_structured_output_tool(Some(&object), &no_tools, Some(&required)).ok().expect("ok").is_none());
    let bad = choice("sometimes", None);
    let e = anthropic_structured_output_tool(Some(&object), &no_tools, Some(&bad)).err().expect("bad choice");
    assert_eq!(e.kind, SDKErrorKind::UnsupportedToolChoice);

    let schema = ResponseFormat::JsonSchema { json_schema: json(r#"{"type":"object"}"#), strict: true };
    let text = anthropic_structured_output_instruction(Some(&schema)).ok().expect("ok").expect("instruction");
    assert_eq!(
        text,
        "Return only valid JSON that matches the provided schema.\n\nJSON Schema:\n```json\n{\"type\":\"object\"}\n```"
    );
    assert_eq!(
        anthropic_structured_output_instruction(Some(&object)).ok().expect("ok").as_deref(),
        Some("Return only valid JSON.")
    );
    assert!(anthropic_structured_output_instruction(Some(&ResponseFormat::Text)).ok().expect("ok").is_none());
    assert!(anthropic_structured_output_instruction(None).ok().expect("ok").is_none());
}
