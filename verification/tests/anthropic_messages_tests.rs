use unified_llm_adapter::anthropic_messages::{
    anthropic_message_payloads, anthropic_system_payload, append_anthropic_message, append_anthropic_system_text,
    merge_anthropic_content,
};
use unified_llm_adapter::canonical::stable_json;
use unified_llm_adapter::json::{parse_json, Json};
use unified_llm_adapter::request::{ContentPart, ImageData, Message, MessageRole, ToolResultData};
use unified_llm_adapter::textmap::TextMap;

fn json(text: &str) -> Json {
    parse_json(text).ok().expect("valid json")
}

fn message(role: MessageRole, content: Vec<ContentPart>) -> Message {
    Message { role, content, name: None, tool_call_id: None, provider_metadata: TextMap::new() }
}

fn text(t: &str) -> ContentPart {
    ContentPart::Text { text: t.to_string() }
}

fn texts(values: &[Json]) -> Vec<String> {
    values.iter().map(stable_json).collect()
}

#[test]
fn system_text_merges_with_blank_lines() {
    let mut blocks: Vec<Json> = Vec::new();
    append_anthropic_system_text(&mut blocks, "A".to_string());
    append_anthropic_system_text(&mut blocks, String::new());
    append_anthropic_system_text(&mut blocks, "B".to_string());
    assert_eq!(texts(&blocks), vec![r#"{"text":"A\n\nB","type":"text"}"#]);
    let mut cached = vec![json(r#"{"type":"text","text":"A","cache_control":{"type":"ephemeral"}}"#)];
    append_anthropic_system_text(&mut cached, "B".to_string());
    assert_eq!(cached.len(), 2);
    assert_eq!(stable_json(&cached[1]), r#"{"text":"B","type":"text"}"#);
    let mut empty_text = vec![json(r#"{"type":"text","text":""}"#)];
    append_anthropic_system_text(&mut empty_text, "C".to_string());
    assert_eq!(texts(&empty_text), vec![r#"{"text":"C","type":"text"}"#]);
}

#[test]
fn system_payload_shapes() {
    assert!(anthropic_system_payload(Vec::new()).is_none());
    let plain = vec![json(r#"{"type":"text","text":"A"}"#), json(r#"{"type":"text","text":""}"#), json(r#"{"type":"text","text":"B"}"#)];
    assert_eq!(anthropic_system_payload(plain).map(|v| stable_json(&v)).as_deref(), Some(r#""A\n\nB""#));
    let blank = vec![json(r#"{"type":"text","text":""}"#)];
    assert!(anthropic_system_payload(blank).is_none());
    let rich = vec![json(r#"{"type":"text","text":"A","cache_control":{"type":"ephemeral"}}"#)];
    assert_eq!(
        anthropic_system_payload(rich).map(|v| stable_json(&v)).as_deref(),
        Some(r#"[{"cache_control":{"type":"ephemeral"},"text":"A","type":"text"}]"#)
    );
}

#[test]
fn entries_of_one_role_merge() {
    let merged = merge_anthropic_content(
        json(r#"{"role":"user","content":"first"}"#),
        json(r#"[{"type":"text","text":"x"},{"type":"tool_result","tool_use_id":"t"}]"#),
        "user",
    );
    assert_eq!(
        stable_json(&merged),
        r#"{"content":[{"tool_use_id":"t","type":"tool_result"},{"text":"first","type":"text"},{"text":"x","type":"text"}],"role":"user"}"#
    );
    let no_content = merge_anthropic_content(json(r#"{"role":"assistant"}"#), Json::Str("t".to_string()), "assistant");
    assert_eq!(stable_json(&no_content), r#"{"content":[{"text":"t","type":"text"}],"role":"assistant"}"#);

    let mut entries: Vec<Json> = Vec::new();
    append_anthropic_message(&mut entries, json(r#"{"role":"user","content":[{"type":"text","text":"a"}]}"#));
    append_anthropic_message(&mut entries, json(r#"{"role":"user","content":[{"type":"text","text":"b"}]}"#));
    append_anthropic_message(&mut entries, json(r#"{"role":"assistant","content":[]}"#));
    append_anthropic_message(&mut entries, json("3"));
    assert_eq!(
        texts(&entries),
        vec![
            r#"{"content":[{"text":"a","type":"text"},{"text":"b","type":"text"}],"role":"user"}"#,
            r#"{"content":[],"role":"assistant"}"#,
            "3",
        ]
    );
}

#[test]
fn conversation_payloads() {
    let result = ContentPart::ToolResult {
        tool_result: ToolResultData {
            tool_call_id: "t1".to_string(),
            content: Json::Str("42".to_string()),
            is_error: false,
            image_data: None,
            image_media_type: None,
        },
    };
    let messages = vec![
        message(MessageRole::System, vec![text("Be brief."), text("Be kind.")]),
        message(MessageRole::User, vec![text("hi")]),
        message(MessageRole::Tool, vec![result]),
        message(MessageRole::Developer, vec![ContentPart::Provider { raw: json(r#"{"type":"text","text":"raw"}"#) }]),
        message(MessageRole::Assistant, vec![text("done")]),
    ];
    let (entries, system) = anthropic_message_payloads(&messages).ok().expect("payloads");
    assert_eq!(
        texts(&entries),
        vec![
            r#"{"content":[{"content":"42","tool_use_id":"t1","type":"tool_result"},{"text":"hi","type":"text"}],"role":"user"}"#,
            r#"{"content":[{"text":"done","type":"text"}],"role":"assistant"}"#,
        ]
    );
    assert_eq!(
        texts(&system),
        vec![r#"{"text":"Be brief.\n\nBe kind.","type":"text"}"#, r#"{"text":"raw","type":"text"}"#]
    );
    assert_eq!(anthropic_system_payload(system).map(|v| stable_json(&v)).as_deref(), Some(r#""Be brief.\n\nBe kind.\n\nraw""#));

    let bad = vec![message(
        MessageRole::System,
        vec![ContentPart::Image {
            image: ImageData { url: Some("https://i.test/a.png".to_string()), data: None, media_type: None, detail: None },
        }],
    )];
    let e = anthropic_message_payloads(&bad).err().expect("image in system");
    assert_eq!(e.message, "Anthropic system and developer messages must be text or raw provider blocks");
}
