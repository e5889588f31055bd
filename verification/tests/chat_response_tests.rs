use unified_llm_adapter::chat_response::{translate_chat_completions_response, usage_adds_up};
use unified_llm_adapter::errors::SDKErrorKind;
use unified_llm_adapter::json::parse_json;
use unified_llm_adapter::request::{ContentPart, FinishReasonKind};

#[test]
fn chat_response_reads_text_tool_calls_and_usage() {
    let payload = parse_json(
        "{\"id\":\"c1\",\"model\":\"m\",\"choices\":[{\"finish_reason\":\"stop\",\"message\":{\"content\":\"Hi\",\"tool_calls\":[{\"id\":\"call_1\",\"function\":{\"name\":\"lookup\",\"arguments\":\"{\\\"q\\\":1}\"}}]}}],\"usage\":{\"prompt_tokens\":3,\"completion_tokens\":4,\"completion_tokens_details\":{\"reasoning_tokens\":2}}}",
    )
    .expect("json");
    assert!(usage_adds_up(&payload));
    let r = translate_chat_completions_response(" OpenRouter ", payload).expect("response");
    assert_eq!(r.id, "c1");
    assert_eq!(r.provider, "openrouter");
    assert_eq!(r.text, "Hi");
    assert_eq!(r.tool_calls.len(), 1);
    assert_eq!(r.tool_calls[0].id, "call_1");
    assert_eq!(r.tool_calls[0].call_type, "function");
    assert_eq!(r.message.content.len(), 2);
    assert!(matches!(r.message.content[1], ContentPart::ToolCall { .. }));
    // "stop" with tool calls is a tool-call finish.
    assert_eq!(r.finish_reason.reason, FinishReasonKind::ToolCalls);
    assert_eq!(r.finish_reason.raw.as_deref(), Some("stop"));
    assert_eq!(r.usage.input_tokens, 3);
    assert_eq!(r.usage.output_tokens, 4);
    assert_eq!(r.usage.total_tokens, 7);
    assert_eq!(r.warnings.len(), 1);
    assert_eq!(r.warnings[0].code.as_deref(), Some("unsupported_reasoning_token_visibility"));
}

#[test]
fn chat_response_array_content_and_missing_finish_reason() {
    let payload = parse_json(
        "{\"choices\":[{\"message\":{\"content\":[{\"type\":\"text\",\"text\":\"a\"},{\"type\":\"image\"},{\"content\":\"b\"}]}}]}",
    )
    .expect("json");
    let r = translate_chat_completions_response("litellm", payload).expect("response");
    assert_eq!(r.text, "ab");
    assert_eq!(r.message.content.len(), 3);
    assert!(matches!(r.message.content[1], ContentPart::Provider { .. }));
    assert_eq!(r.finish_reason.reason, FinishReasonKind::Other);
    assert!(r.finish_reason.raw.is_none());
    assert!(r.warnings.is_empty());
}

#[test]
fn chat_response_errors() {
    let e = translate_chat_completions_response("openai", parse_json("{}").expect("json")).unwrap_err();
    assert_eq!(e.kind, SDKErrorKind::Configuration);
    assert_eq!(e.message, "Unsupported OpenAI-compatible provider \"openai\"");
    let e = translate_chat_completions_response("openai_compatible", parse_json("[]").expect("json")).unwrap_err();
    assert_eq!(e.message, "OpenAI-compatible Chat Completions response must be a JSON object");
    let e = translate_chat_completions_response("openai_compatible", parse_json("{\"choices\":[]}").expect("json")).unwrap_err();
    assert_eq!(e.message, "OpenAI-compatible Chat Completions response requires choices[0]");
    let e = translate_chat_completions_response("openai_compatible", parse_json("{\"choices\":[{}]}").expect("json")).unwrap_err();
    assert_eq!(e.message, "OpenAI-compatible Chat Completions response requires choices[0].message");
    let e = translate_chat_completions_response(
        "openai_compatible",
        parse_json("{\"choices\":[{\"message\":{\"content\":true}}]}").expect("json"),
    )
    .unwrap_err();
    assert_eq!(e.message, "OpenAI-compatible message content must be string, array, or null; got Bool(true)");
    assert_eq!(e.provider.as_deref(), Some("openai_compatible"));
    let e = translate_chat_completions_response(
        "openai_compatible",
        parse_json("{\"choices\":[{\"message\":{\"tool_calls\":{}}}]}").expect("json"),
    )
    .unwrap_err();
    assert_eq!(e.message, "OpenAI-compatible message tool_calls must be an array");
    let e = translate_chat_completions_response(
        "openai_compatible",
        parse_json("{\"choices\":[{\"message\":{\"tool_calls\":[{\"id\":\"x\"}]}}]}").expect("json"),
    )
    .unwrap_err();
    assert_eq!(e.message, "OpenAI-compatible tool_calls entries require function objects");
}

#[test]
fn chat_response_non_string_arguments_are_compact_json() {
    let payload = parse_json(
        "{\"choices\":[{\"finish_reason\":\"length\",\"message\":{\"content\":null,\"tool_calls\":[{\"function\":{\"name\":\"f\",\"arguments\":{\"a\":1}}}]}}]}",
    )
    .expect("json");
    let r = translate_chat_completions_response("openai_compatible", payload).expect("response");
    assert_eq!(r.tool_calls[0].id, "f");
    assert_eq!(r.tool_calls[0].raw_arguments.as_deref(), Some("{\"a\":1}"));
    assert_eq!(r.finish_reason.reason, FinishReasonKind::Length);
    assert_eq!(r.text, "");
}
