use unified_llm_adapter::events::{StreamEvent, StreamEventType};
use unified_llm_adapter::json::Json;
use unified_llm_adapter::request::{
    validate_exactly_one_source, validate_non_empty, ContentKind, ContentPart, FinishReason, FinishReasonKind,
    ImageData, Message, MessageRole, ThinkingData, ToolCall,
};
use unified_llm_adapter::usage::{merge_optional_token_count, merge_stream_usage, merge_token_count, sum_optional_tokens, Usage};

fn thinking(text: &str, redacted: bool) -> ThinkingData {
    ThinkingData { text: text.to_string(), signature: None, redacted, source_provider: None, source_model: None }
}

#[test]
fn content_kind_names_round_trip() {
    for name in ["text", "image", "tool_call", "redacted_thinking", "mystery"] {
        assert_eq!(ContentKind::from_kind(name).as_str(), name);
    }
    assert!(matches!(ContentKind::from_kind("thinking"), ContentKind::Thinking));
    assert_eq!(MessageRole::Developer.as_str(), "developer");
}

#[test]
fn finish_reason_kinds_round_trip() {
    for k in [
        FinishReasonKind::Stop,
        FinishReasonKind::Length,
        FinishReasonKind::ToolCalls,
        FinishReasonKind::ContentFilter,
        FinishReasonKind::Error,
        FinishReasonKind::Other,
    ] {
        assert!(FinishReasonKind::from_reason(k.as_str()) == k);
    }
    assert!(FinishReasonKind::from_reason("weird") == FinishReasonKind::Other);
    let r = FinishReason::from_provider(FinishReasonKind::Stop, "end_turn".to_string());
    assert_eq!(r.raw.as_deref(), Some("end_turn"));
    assert!(FinishReason::default().reason == FinishReasonKind::Other);
}

#[test]
fn checks_report_their_messages() {
    assert_eq!(validate_non_empty("request model", " "), Err("request model must not be empty".to_string()));
    assert_eq!(validate_non_empty("request model", "m"), Ok(()));
    assert_eq!(
        validate_exactly_one_source::<Vec<u8>>(None, None, "audio"),
        Err("exactly one of url or data must be provided for audio".to_string())
    );
    let img = ImageData::data(vec![1, 2], None);
    assert_eq!(img.effective_media_type(), Some("image/png"));
    assert_eq!(img.validate(), Ok(()));
    assert_eq!(ImageData::url("https://x.test/a.png".to_string()).effective_media_type(), None);
}

#[test]
fn message_roles_limit_content() {
    let mut m = Message::user("hi".to_string());
    assert_eq!(m.validate(), Ok(()));
    m.content.push(ContentPart::Thinking { thinking: thinking("t", false) });
    assert_eq!(m.validate(), Err("thinking content is not allowed for user messages".to_string()));
    let mut a = Message::assistant("a".to_string());
    a.content.push(ContentPart::RedactedThinking { thinking: thinking("t", false) });
    assert_eq!(a.validate(), Err("redacted_thinking content requires redacted to be true".to_string()));
    let t = Message::tool_result("call_1".to_string(), Json::Null, false);
    assert_eq!(t.validate(), Ok(()));
    assert_eq!(t.tool_call_id.as_deref(), Some("call_1"));
}

#[test]
fn message_text_concatenates_text_parts() {
    let mut m = Message::assistant("Hello".to_string());
    m.content.push(ContentPart::ToolCall {
        tool_call: ToolCall {
            id: "c".to_string(),
            name: "f".to_string(),
            arguments: Json::Null,
            raw_arguments: None,
            call_type: "function".to_string(),
        },
    });
    m.content.push(ContentPart::text(", world".to_string()));
    assert_eq!(m.text(), "Hello, world");
}

#[test]
fn usage_adds_and_normalizes() {
    let n = Usage { total_tokens: 0, ..Usage::new() };
    let s = Usage { input_tokens: 3, output_tokens: 4, total_tokens: 0, reasoning_tokens: Some(1), cache_read_tokens: None, cache_write_tokens: None, raw: None }
        .combined(Usage { input_tokens: 1, output_tokens: 1, total_tokens: 0, reasoning_tokens: None, cache_read_tokens: None, cache_write_tokens: Some(2), raw: None });
    assert_eq!((s.input_tokens, s.output_tokens, s.total_tokens), (4, 5, 9));
    assert_eq!(s.reasoning_tokens, Some(1));
    assert_eq!(s.cache_read_tokens, None);
    assert_eq!(s.cache_write_tokens, Some(2));
    assert_eq!(n.normalized().total_tokens, 0);
    assert_eq!(sum_optional_tokens(None, None), None);
    assert_eq!(sum_optional_tokens(Some(2), None), Some(2));
}

#[test]
fn stream_usage_merges_by_maximum() {
    assert_eq!(merge_token_count(0, 5), 5);
    assert_eq!(merge_token_count(7, 5), 7);
    assert_eq!(merge_optional_token_count(Some(1), None), Some(1));
    let first = Usage { input_tokens: 10, output_tokens: 0, total_tokens: 0, reasoning_tokens: None, cache_read_tokens: None, cache_write_tokens: None, raw: None };
    let second = Usage { input_tokens: 0, output_tokens: 6, total_tokens: 0, reasoning_tokens: Some(2), cache_read_tokens: None, cache_write_tokens: None, raw: None };
    let merged = merge_stream_usage(Some(first), second).expect("merged");
    assert_eq!((merged.input_tokens, merged.output_tokens, merged.total_tokens), (10, 6, 16));
    assert_eq!(merged.reasoning_tokens, Some(2));
    assert!(merge_stream_usage(None, Usage::new()).is_none());
}

#[test]
fn stream_event_types_round_trip() {
    for name in ["stream_start", "text_delta", "tool_call_end", "finish", "provider_event", "custom_x"] {
        assert_eq!(StreamEventType::from_type(name).as_str(), name);
    }
    let e = StreamEvent::text_delta("hi".to_string());
    assert!(matches!(e.event_type, StreamEventType::TextDelta));
    assert_eq!(e.delta.as_deref(), Some("hi"));
}
