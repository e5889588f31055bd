use unified_llm_adapter::anthropic_stream::AnthropicStreamTranslator;
use unified_llm_adapter::errors::{SDKError, SDKErrorKind};
use unified_llm_adapter::request::FinishReasonKind;
use unified_llm_adapter::sse::{parse_sse_stream, ProviderStreamRecord};
use unified_llm_adapter::stream_actions::{StreamAction, StreamContext};

fn context(started: bool) -> StreamContext {
    StreamContext { started, raw_payloads: Vec::new(), rate_limit: None, last_model: Some("m-1".to_string()), has_tool_calls: false }
}

fn record(text: &str) -> ProviderStreamRecord {
    let mut records = parse_sse_stream(text);
    assert_eq!(records.len(), 1);
    records.remove(0)
}

#[test]
fn anthropic_stream_message_start_starts_with_the_response() {
    let mut t = AnthropicStreamTranslator::new();
    let r = record("event: message_start\ndata: {\"type\":\"message_start\",\"message\":{\"id\":\"msg_1\",\"model\":\"m-1\",\"content\":[]}}\n\n");
    let acts = t.apply(&context(false), Ok(r));
    assert_eq!(acts.len(), 2);
    assert!(matches!(acts[0], StreamAction::RecordPayload(_)));
    match &acts[1] {
        StreamAction::EnsureStarted { raw, response } => {
            assert!(raw.is_some());
            let response = response.as_ref().expect("response");
            assert_eq!(response.id, "msg_1");
            assert_eq!(response.model, "m-1");
        },
        other => panic!("unexpected {:?}", other),
    }
}

#[test]
fn anthropic_stream_text_block_opens_extends_and_closes() {
    let mut t = AnthropicStreamTranslator::new();
    let ctx = context(true);
    let acts = t.apply(&ctx, Ok(record("data: {\"type\":\"content_block_start\",\"index\":0,\"content_block\":{\"type\":\"text\",\"text\":\"\"}}\n\n")));
    match &acts[1] {
        StreamAction::TextDelta { text_id, delta, .. } => {
            assert_eq!(text_id, "text_0");
            assert_eq!(delta, "");
        },
        other => panic!("unexpected {:?}", other),
    }
    let acts = t.apply(&ctx, Ok(record("data: {\"type\":\"content_block_delta\",\"index\":0,\"delta\":{\"type\":\"text_delta\",\"text\":\"Hello\"}}\n\n")));
    assert_eq!(acts.len(), 2);
    match &acts[1] {
        StreamAction::TextDelta { text_id, delta, .. } => {
            assert_eq!(text_id, "text_0");
            assert_eq!(delta, "Hello");
        },
        other => panic!("unexpected {:?}", other),
    }
    let acts = t.apply(&ctx, Ok(record("data: {\"type\":\"content_block_stop\",\"index\":0}\n\n")));
    match &acts[1] {
        StreamAction::TextEnd { text_id, .. } => assert_eq!(text_id, "text_0"),
        other => panic!("unexpected {:?}", other),
    }
    // With no open block of that index, everything open closes.
    let acts = t.apply(&ctx, Ok(record("data: {\"type\":\"content_block_stop\",\"index\":0}\n\n")));
    assert_eq!(acts.len(), 4);
    assert!(matches!(acts[1], StreamAction::CloseAllText { .. }));
    assert!(matches!(acts[2], StreamAction::CloseReasoning { .. }));
    assert!(matches!(acts[3], StreamAction::CloseAllToolCalls { .. }));
}

#[test]
fn anthropic_stream_tool_use_block_and_argument_deltas() {
    let mut t = AnthropicStreamTranslator::new();
    let ctx = context(true);
    let acts = t.apply(&ctx, Ok(record("data: {\"type\":\"content_block_start\",\"index\":1,\"content_block\":{\"type\":\"tool_use\",\"id\":\"toolu_9\",\"name\":\"lookup\",\"input\":{}}}\n\n")));
    match &acts[1] {
        StreamAction::ToolCallStart { tool_call, .. } => {
            assert_eq!(tool_call.id, "toolu_9");
            assert_eq!(tool_call.name, "lookup");
            assert_eq!(tool_call.raw_arguments.as_deref(), Some(""));
        },
        other => panic!("unexpected {:?}", other),
    }
    let acts = t.apply(&ctx, Ok(record("data: {\"type\":\"content_block_delta\",\"index\":1,\"delta\":{\"type\":\"input_json_delta\",\"partial_json\":\"{\\\"q\\\":1\"}}\n\n")));
    match &acts[1] {
        StreamAction::ToolCallDelta { tool_call, .. } => {
            assert_eq!(tool_call.id, "toolu_9");
            assert_eq!(tool_call.raw_arguments.as_deref(), Some("{\"q\":1"));
        },
        other => panic!("unexpected {:?}", other),
    }
    let acts = t.apply(&ctx, Ok(record("data: {\"type\":\"content_block_stop\",\"index\":1}\n\n")));
    match &acts[1] {
        StreamAction::ToolCallEndById { tool_call_id, .. } => assert_eq!(tool_call_id, "toolu_9"),
        other => panic!("unexpected {:?}", other),
    }
}

#[test]
fn anthropic_stream_message_delta_sets_reason_and_usage_then_stop_finishes() {
    let mut t = AnthropicStreamTranslator::new();
    let ctx = context(true);
    let acts = t.apply(&ctx, Ok(record("data: {\"type\":\"message_delta\",\"delta\":{\"stop_reason\":\"end_turn\"},\"usage\":{\"output_tokens\":7}}\n\n")));
    assert_eq!(acts.len(), 3);
    match &acts[1] {
        StreamAction::SetFinishReason(r) => {
            assert_eq!(r.reason, FinishReasonKind::Stop);
            assert_eq!(r.raw.as_deref(), Some("end_turn"));
        },
        other => panic!("unexpected {:?}", other),
    }
    match &acts[2] {
        StreamAction::RecordUsage(u) => assert_eq!(u.output_tokens, 7),
        other => panic!("unexpected {:?}", other),
    }
    let acts = t.apply(&ctx, Ok(record("data: {\"type\":\"message_stop\"}\n\n")));
    assert!(matches!(acts[1], StreamAction::Finish { .. }));
    // Once finished, nothing more comes out.
    let acts = t.apply(&ctx, Ok(record("data: {\"type\":\"message_stop\"}\n\n")));
    assert!(acts.is_empty());
}

#[test]
fn anthropic_stream_error_payload_fails_the_stream() {
    let mut t = AnthropicStreamTranslator::new();
    let acts = t.apply(&context(true), Ok(record("data: {\"type\":\"error\",\"error\":{\"message\":\"overloaded\"}}\n\n")));
    match &acts[1] {
        StreamAction::PushError { error, raw } => {
            assert_eq!(error.kind, SDKErrorKind::Stream);
            assert_eq!(error.provider.as_deref(), Some("anthropic"));
            assert!(raw.is_some());
        },
        other => panic!("unexpected {:?}", other),
    }
    assert!(t.apply(&context(true), Ok(record("data: {\"type\":\"ping\"}\n\n"))).is_empty());
}

#[test]
fn anthropic_stream_failures_before_and_after_start() {
    let mut t = AnthropicStreamTranslator::new();
    let e = SDKError::provider(SDKErrorKind::Network, "reset".to_string(), None);
    let acts = t.apply(&context(false), Err(e));
    assert!(matches!(acts[0], StreamAction::ReturnError(_)));

    let mut t = AnthropicStreamTranslator::new();
    let e = SDKError::provider(SDKErrorKind::Network, "reset".to_string(), None);
    let acts = t.apply(&context(true), Err(e));
    assert!(matches!(acts[0], StreamAction::IteratorError(_)));

    let mut t = AnthropicStreamTranslator::new();
    let acts = t.apply(&context(true), Ok(record("data: not json\n\n")));
    match &acts[0] {
        StreamAction::IteratorError(e) => {
            assert_eq!(e.kind, SDKErrorKind::Stream);
            assert!(e.message.starts_with("Malformed provider stream payload: "));
        },
        other => panic!("unexpected {:?}", other),
    }
}

#[test]
fn anthropic_stream_done_marker_finishes_and_unknown_events_pass_through() {
    let mut t = AnthropicStreamTranslator::new();
    let acts = t.apply(&context(true), Ok(record("data: {\"type\":\"ping\"}\n\n")));
    assert_eq!(acts.len(), 2);
    assert!(matches!(acts[1], StreamAction::ProviderEvent(_)));
    let acts = t.apply(&context(true), Ok(record("data: [DONE]\n\n")));
    assert_eq!(acts.len(), 1);
    assert!(matches!(acts[0], StreamAction::Finish { .. }));
}
