use unified_llm_adapter::anthropic_request::{
    anthropic_message_payload, anthropic_raw_content_block, anthropic_tool_result_content,
    apply_cache_control_to_last_block, prioritize_anthropic_tool_results,
};
use unified_llm_adapter::canonical::stable_json;
use unified_llm_adapter::errors::SDKErrorKind;
use unified_llm_adapter::json::{parse_json, Json};
use unified_llm_adapter::request::{
    ContentPart, DocumentData, ImageData, Message, MessageRole, ThinkingData, ToolCall, ToolResultData,
};
use unified_llm_adapter::textmap::TextMap;

fn json(text: &str) -> Json {
    parse_json(text).ok().expect("valid json")
}

fn message(role: MessageRole, content: Vec<ContentPart>) -> Message {
    Message { role, content, name: None, tool_call_id: None, provider_metadata: TextMap::new() }
}

fn result(id: &str, content: Json, is_error: bool) -> ContentPart {
    ContentPart::ToolResult {
        tool_result: ToolResultData {
            tool_call_id: id.to_string(),
            content,
            is_error,
            image_data: None,
            image_media_type: None,
        },
    }
}

#[test]
fn raw_blocks_need_objects_and_types() {
    let b = anthropic_raw_content_block(&json(r#"{"type":"x","v":1}"#), Some("ignored")).ok().expect("typed");
    assert_eq!(stable_json(&b), r#"{"type":"x","v":1}"#);
    let b = anthropic_raw_content_block(&json(r#"{"v":1}"#), Some("  doc  ")).ok().expect("fallback");
    assert_eq!(stable_json(&b), r#"{"type":"doc","v":1}"#);
    let e = anthropic_raw_content_block(&json(r#"{"v":1}"#), Some("  ")).err().expect("blank kind");
    assert_eq!(e.message, "Anthropic raw provider content blocks require a type");
    let e = anthropic_raw_content_block(&json("[1]"), None).err().expect("not an object");
    assert_eq!(e.message, "Anthropic raw provider content blocks must be objects");
}

#[test]
fn tool_result_contents() {
    let plain = ToolResultData {
        tool_call_id: "t".to_string(),
        content: json(r#"{"b":2,"a":1}"#),
        is_error: false,
        image_data: None,
        image_media_type: None,
    };
    assert_eq!(stable_json(&anthropic_tool_result_content(&plain)), r#""{\"a\":1,\"b\":2}""#);
    let with_image = ToolResultData {
        tool_call_id: "t".to_string(),
        content: Json::Str("see".to_string()),
        is_error: false,
        image_data: Some(vec![1, 2, 3]),
        image_media_type: None,
    };
    assert_eq!(
        stable_json(&anthropic_tool_result_content(&with_image)),
        r#"[{"text":"see","type":"text"},{"source":{"data":"AQID","media_type":"image/png","type":"base64"},"type":"image"}]"#
    );
    let image_only = ToolResultData { content: Json::Null, image_media_type: Some("image/gif".to_string()), ..with_image };
    assert_eq!(
        stable_json(&anthropic_tool_result_content(&image_only)),
        r#"[{"source":{"data":"AQID","media_type":"image/gif","type":"base64"},"type":"image"}]"#
    );
}

#[test]
fn tool_results_move_first_in_order() {
    let blocks = vec![
        json(r#"{"type":"text","text":"a"}"#),
        json(r#"{"type":"tool_result","tool_use_id":"1"}"#),
        json(r#"{"type":"text","text":"b"}"#),
        json(r#"{"type":"tool_result","tool_use_id":"2"}"#),
        json("7"),
    ];
    let out = prioritize_anthropic_tool_results(&blocks);
    let texts: Vec<String> = out.iter().map(stable_json).collect();
    assert_eq!(
        texts,
        vec![
            r#"{"tool_use_id":"1","type":"tool_result"}"#,
            r#"{"tool_use_id":"2","type":"tool_result"}"#,
            r#"{"text":"a","type":"text"}"#,
            r#"{"text":"b","type":"text"}"#,
            "7",
        ]
    );
}

#[test]
fn cache_control_goes_on_the_last_block_once() {
    let cc = json(r#"{"type":"ephemeral"}"#);
    let mut blocks = vec![json(r#"{"type":"text","text":"a"}"#)];
    assert!(apply_cache_control_to_last_block(&mut blocks, &cc));
    assert_eq!(stable_json(&blocks[0]), r#"{"cache_control":{"type":"ephemeral"},"text":"a","type":"text"}"#);
    assert!(!apply_cache_control_to_last_block(&mut blocks, &json(r#"{"type":"other"}"#)));
    assert_eq!(stable_json(&blocks[0]), r#"{"cache_control":{"type":"ephemeral"},"text":"a","type":"text"}"#);
    let mut empty: Vec<Json> = Vec::new();
    assert!(!apply_cache_control_to_last_block(&mut empty, &cc));
    let mut scalar = vec![Json::Null];
    assert!(!apply_cache_control_to_last_block(&mut scalar, &cc));
}

#[test]
fn assistant_message_with_reasoning_and_calls() {
    let thinking = ThinkingData {
        text: "why".to_string(),
        signature: Some("sig".to_string()),
        redacted: false,
        source_provider: Some("anthropic".to_string()),
        source_model: None,
    };
    let mut m = message(
        MessageRole::Assistant,
        vec![
            ContentPart::Thinking { thinking },
            ContentPart::Text { text: "ok".to_string() },
            ContentPart::ToolCall {
                tool_call: ToolCall {
                    id: "tu_1".to_string(),
                    name: "f".to_string(),
                    arguments: json(r#"{"x":1}"#),
                    raw_arguments: None,
                    call_type: "function".to_string(),
                },
            },
        ],
    );
    m.name = Some("  bot ".to_string());
    let p = anthropic_message_payload(&m).ok().expect("payload");
    assert_eq!(
        stable_json(&p),
        r#"{"content":[{"signature":"sig","thinking":"why","type":"thinking"},{"text":"ok","type":"text"},{"id":"tu_1","input":{"x":1},"name":"f","type":"tool_use"}],"name":"bot","role":"assistant"}"#
    );
}

#[test]
fn tool_message_results_first_with_cache_control() {
    let mut m = message(
        MessageRole::Tool,
        vec![
            ContentPart::Text { text: "note".to_string() },
            result("a", Json::Str("done".to_string()), false),
            result("b", Json::Null, true),
        ],
    );
    let mut metadata = TextMap::new();
    metadata.insert("anthropic".to_string(), json(r#"{"cache_control":{"type":"ephemeral"}}"#));
    m.provider_metadata = metadata;
    let p = anthropic_message_payload(&m).ok().expect("payload");
    assert_eq!(
        stable_json(&p),
        r#"{"content":[{"content":"done","tool_use_id":"a","type":"tool_result"},{"content":"","is_error":true,"tool_use_id":"b","type":"tool_result"},{"cache_control":{"type":"ephemeral"},"text":"note","type":"text"}],"role":"user"}"#
    );
    let mut bad = message(MessageRole::User, vec![ContentPart::Text { text: "x".to_string() }]);
    let mut metadata = TextMap::new();
    metadata.insert("anthropic".to_string(), json(r#"{"cache_control":true}"#));
    bad.provider_metadata = metadata;
    let e = anthropic_message_payload(&bad).err().expect("bad cache control");
    assert_eq!(e.message, "Anthropic message cache_control must be an object");
}

#[test]
fn message_errors() {
    let e = anthropic_message_payload(&message(MessageRole::Developer, vec![])).err().expect("developer");
    assert_eq!(e.message, "Anthropic messages request does not support role Developer here");
    assert_eq!(e.kind, SDKErrorKind::InvalidRequest);
    assert_eq!(e.provider.as_deref(), Some("anthropic"));
    let e = anthropic_message_payload(&message(MessageRole::User, vec![result("a", Json::Null, false)]))
        .err()
        .expect("user result");
    assert_eq!(e.message, "Anthropic tool_result blocks are only valid in tool messages");
    let doc = ContentPart::Document {
        document: DocumentData { url: Some("https://d.test/a.pdf".to_string()), data: None, media_type: None, file_name: None },
    };
    let e = anthropic_message_payload(&message(MessageRole::User, vec![doc])).err().expect("document");
    assert_eq!(e.message, "Anthropic messages request does not support document content parts");
    let image = ContentPart::Image {
        image: ImageData { url: Some("https://i.test/p.png".to_string()), data: None, media_type: None, detail: None },
    };
    let p = anthropic_message_payload(&message(MessageRole::User, vec![image])).ok().expect("image");
    assert_eq!(
        stable_json(&p),
        r#"{"content":[{"source":{"type":"url","url":"https://i.test/p.png"},"type":"image"}],"role":"user"}"#
    );
}
