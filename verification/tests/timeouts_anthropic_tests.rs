use unified_llm_adapter::anthropic::{estimate_reasoning_tokens, token_at, translate_anthropic_messages_response};
use unified_llm_adapter::errors::SDKErrorKind;
use unified_llm_adapter::json::{parse_json, Json};
use unified_llm_adapter::request::{ContentPart, FinishReasonKind, ThinkingData};
use unified_llm_adapter::retry::{default_jitter, default_max_retries, should_retry};
use unified_llm_adapter::errors::SDKError;
use unified_llm_adapter::timeouts::{abort_error, check_abort, AbortController, AbortSignal};

#[test]
fn abort_signals_share_state() {
    let controller = AbortController::new();
    let signal = controller.signal();
    assert!(!signal.aborted());
    assert!(check_abort(Some(&signal)).is_ok());
    controller.abort("user cancelled");
    assert!(signal.aborted());
    assert_eq!(signal.reason().as_deref(), Some("user cancelled"));
    controller.abort("second");
    assert_eq!(signal.reason().as_deref(), Some("user cancelled"));
    let e = check_abort(Some(&signal)).err().expect("aborted");
    assert_eq!(e.kind, SDKErrorKind::Abort);
    assert_eq!(e.message, "user cancelled");
    assert!(check_abort(None).is_ok());
}

#[test]
fn abort_error_falls_back_to_scope() {
    let e = abort_error("generation".to_string(), Some("  ".to_string()));
    assert_eq!(e.message, "generation aborted");
    let s = AbortSignal::new();
    s.abort(());
    assert_eq!(s.throw_if_aborted().err().map(|e| e.message), Some("operation aborted".to_string()));
}

#[test]
fn retry_decisions() {
    assert_eq!(default_max_retries(), 2);
    assert!(default_jitter());
    let timeout = SDKError::new(SDKErrorKind::RequestTimeout, "slow".to_string());
    assert!(!should_retry(false, 2, &timeout, 0));
    assert!(should_retry(true, 2, &timeout, 1));
    assert!(!should_retry(true, 2, &timeout, 2));
}

#[test]
fn anthropic_response_is_translated() {
    let payload = parse_json(
        r#"{"id":"msg_1","model":"atlas-x","stop_reason":"tool_use",
            "content":[{"type":"text","text":"Hi"},{"type":"thinking","thinking":"abcdefgh","signature":"s"},
                       {"type":"tool_use","id":"t1","name":"f","input":{"a":1}},{"type":"image_other"}],
            "usage":{"input_tokens":3,"output_tokens":"4"}}"#,
    )
    .ok()
    .expect("valid json");
    let r = translate_anthropic_messages_response(payload, None).ok().expect("translated");
    assert_eq!(r.id, "msg_1");
    assert_eq!(r.provider, "anthropic");
    assert_eq!(r.text, "Hi");
    assert!(r.finish_reason.reason == FinishReasonKind::ToolCalls);
    assert_eq!(r.message.content.len(), 4);
    assert!(matches!(&r.message.content[1], ContentPart::Thinking { thinking } if thinking.source_model.as_deref() == Some("atlas-x")));
    assert!(matches!(&r.message.content[2], ContentPart::ToolCall { tool_call } if tool_call.raw_arguments.as_deref() == Some("{\"a\":1}")));
    assert!(matches!(&r.message.content[3], ContentPart::Provider { .. }));
    assert_eq!((r.usage.input_tokens, r.usage.output_tokens, r.usage.total_tokens), (3, 4, 7));
    assert_eq!(r.usage.reasoning_tokens, Some(2));
    let e = translate_anthropic_messages_response(Json::Null, None).err().expect("not an object");
    assert_eq!(e.message, "Anthropic Messages response must be a JSON object");
}

#[test]
fn token_counts_and_reasoning_estimates() {
    let v = parse_json(r#"{"a":12,"b":"7","c":-1,"d":1.5}"#).ok().expect("json");
    assert_eq!(token_at(Some(&v), "a"), Some(12));
    assert_eq!(token_at(Some(&v), "b"), Some(7));
    assert_eq!(token_at(Some(&v), "c"), None);
    assert_eq!(token_at(Some(&v), "d"), None);
    assert_eq!(token_at(None, "a"), None);
    let parts = vec![
        ContentPart::Thinking { thinking: ThinkingData { text: "x".to_string(), signature: None, redacted: false, source_provider: None, source_model: None } },
        ContentPart::RedactedThinking { thinking: ThinkingData { text: String::new(), signature: None, redacted: true, source_provider: None, source_model: None } },
    ];
    assert_eq!(estimate_reasoning_tokens(&parts), Some(1));
    assert_eq!(estimate_reasoning_tokens(&vec![ContentPart::text("t".to_string())]), None);
}
