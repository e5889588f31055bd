use unified_llm_adapter::gemini_stream_reader::GeminiStreamTranslator;
use unified_llm_adapter::openai_stream::OpenAiStreamTranslator;
use unified_llm_adapter::sse::{parse_sse_stream, ProviderStreamRecord};
use unified_llm_adapter::stream_actions::{StreamAction, StreamContext};

fn context() -> StreamContext {
    StreamContext { started: true, raw_payloads: Vec::new(), rate_limit: None, last_model: None, has_tool_calls: false }
}

fn record(text: &str) -> ProviderStreamRecord {
    let mut records = parse_sse_stream(text);
    assert_eq!(records.len(), 1);
    records.remove(0)
}

#[test]
fn openai_stream_created_starts_with_the_response() {
    let mut t = OpenAiStreamTranslator::new();
    let acts = t.apply(&context(), Ok(record("data: {\"type\":\"response.created\",\"response\":{\"id\":\"resp_1\",\"model\":\"gpt-x\",\"output\":[]}}\n\n")));
    assert_eq!(acts.len(), 2);
    match &acts[1] {
        StreamAction::EnsureStarted { response, .. } => {
            let response = response.as_ref().expect("response");
            assert_eq!(response.id, "resp_1");
            assert_eq!(response.model, "gpt-x");
        },
        other => panic!("unexpected {:?}", other),
    }
}

#[test]
fn openai_stream_text_deltas_and_done() {
    let mut t = OpenAiStreamTranslator::new();
    let acts = t.apply(&context(), Ok(record("data: {\"type\":\"response.output_text.delta\",\"item_id\":\"msg_1\",\"delta\":\"Hi\"}\n\n")));
    match &acts[1] {
        StreamAction::TextDeltaFor { text_id, delta, .. } => {
            assert_eq!(text_id.as_deref(), Some("msg_1"));
            assert_eq!(delta, "Hi");
        },
        other => panic!("unexpected {:?}", other),
    }
    // With no item id, the output index names the block.
    let acts = t.apply(&context(), Ok(record("data: {\"type\":\"response.output_text.delta\",\"output_index\":2,\"delta\":\"x\"}\n\n")));
    match &acts[1] {
        StreamAction::TextDeltaFor { text_id, .. } => assert_eq!(text_id.as_deref(), Some("text_2")),
        other => panic!("unexpected {:?}", other),
    }
    let acts = t.apply(&context(), Ok(record("data: {\"type\":\"response.output_text.done\",\"item_id\":\"msg_1\",\"text\":\"Hi there\"}\n\n")));
    match &acts[1] {
        StreamAction::TextEndWith { text_id, text, .. } => {
            assert_eq!(text_id.as_deref(), Some("msg_1"));
            assert_eq!(text.as_deref(), Some("Hi there"));
        },
        other => panic!("unexpected {:?}", other),
    }
    let acts = t.apply(&context(), Ok(record("data: {\"type\":\"response.reasoning_summary_text.delta\",\"delta\":\"think\"}\n\n")));
    match &acts[1] {
        StreamAction::ReasoningDelta { delta, thinking, .. } => {
            assert_eq!(delta, "think");
            assert!(thinking.is_none());
        },
        other => panic!("unexpected {:?}", other),
    }
}

#[test]
fn openai_stream_tool_call_aliases_resolve_argument_deltas() {
    let mut t = OpenAiStreamTranslator::new();
    let acts = t.apply(&context(), Ok(record("data: {\"type\":\"response.output_item.added\",\"output_index\":0,\"item\":{\"type\":\"function_call\",\"id\":\"fc_1\",\"call_id\":\"call_1\",\"name\":\"lookup\",\"arguments\":\"\"}}\n\n")));
    match &acts[1] {
        StreamAction::ToolCallStart { tool_call, .. } => {
            assert_eq!(tool_call.id, "call_1");
            assert_eq!(tool_call.name, "lookup");
            assert_eq!(tool_call.raw_arguments.as_deref(), Some(""));
        },
        other => panic!("unexpected {:?}", other),
    }
    let acts = t.apply(&context(), Ok(record("data: {\"type\":\"response.function_call_arguments.delta\",\"item_id\":\"fc_1\",\"delta\":\"{\\\"q\\\"\"}\n\n")));
    match &acts[1] {
        StreamAction::ToolCallDelta { tool_call, .. } => {
            assert_eq!(tool_call.id, "call_1");
            assert_eq!(tool_call.raw_arguments.as_deref(), Some("{\"q\""));
        },
        other => panic!("unexpected {:?}", other),
    }
    let acts = t.apply(&context(), Ok(record("data: {\"type\":\"response.function_call_arguments.delta\",\"output_index\":0,\"delta\":\":1}\"}\n\n")));
    match &acts[1] {
        StreamAction::ToolCallDelta { tool_call, .. } => assert_eq!(tool_call.id, "call_1"),
        other => panic!("unexpected {:?}", other),
    }
    let acts = t.apply(&context(), Ok(record("data: {\"type\":\"response.output_item.done\",\"output_index\":0,\"item\":{\"type\":\"function_call\",\"id\":\"fc_1\",\"name\":\"lookup\",\"arguments\":\"{\\\"q\\\":1}\"}}\n\n")));
    match &acts[1] {
        StreamAction::ToolCallEnd { final_call: Some(call), .. } => {
            assert_eq!(call.id, "call_1");
            assert_eq!(call.raw_arguments.as_deref(), Some("{\"q\":1}"));
        },
        other => panic!("unexpected {:?}", other),
    }
    // An unknown item id falls back to the plain name.
    let acts = t.apply(&context(), Ok(record("data: {\"type\":\"response.function_call_arguments.delta\",\"delta\":\"x\"}\n\n")));
    match &acts[1] {
        StreamAction::ToolCallDelta { tool_call, .. } => assert_eq!(tool_call.id, "function_call"),
        other => panic!("unexpected {:?}", other),
    }
}

#[test]
fn openai_stream_completed_and_failed_end_the_stream() {
    let mut t = OpenAiStreamTranslator::new();
    let acts = t.apply(&context(), Ok(record("data: {\"type\":\"response.completed\",\"response\":{\"id\":\"resp_1\",\"model\":\"gpt-x\",\"status\":\"completed\",\"output\":[{\"type\":\"message\",\"content\":[{\"type\":\"output_text\",\"text\":\"Hi\"}]}]}}\n\n")));
    match &acts[1] {
        StreamAction::Complete { response, .. } => {
            assert_eq!(response.id, "resp_1");
            assert_eq!(response.text, "Hi");
        },
        other => panic!("unexpected {:?}", other),
    }
    assert!(t.apply(&context(), Ok(record("data: {\"type\":\"ping\"}\n\n"))).is_empty());

    let mut t = OpenAiStreamTranslator::new();
    let acts = t.apply(&context(), Ok(record("data: {\"type\":\"response.failed\",\"error\":{\"message\":\"boom\"}}\n\n")));
    match &acts[1] {
        StreamAction::PushError { error, .. } => {
            assert_eq!(error.message, "boom");
            assert_eq!(error.provider.as_deref(), Some("openai"));
        },
        other => panic!("unexpected {:?}", other),
    }
    let mut t = OpenAiStreamTranslator::new();
    let acts = t.apply(&context(), Ok(record("data: {\"type\":\"response.completed\",\"response\":\"nope\"}\n\n")));
    match &acts[1] {
        StreamAction::PushError { error, .. } => assert_eq!(error.message, "OpenAI Responses response must be a JSON object"),
        other => panic!("unexpected {:?}", other),
    }
    let mut t = OpenAiStreamTranslator::new();
    assert!(matches!(t.finish_eof(&context())[0], StreamAction::Finish { .. }));
    assert!(t.finish_eof(&context()).is_empty());
}

#[test]
fn gemini_stream_emits_only_what_each_response_adds() {
    let mut t = GeminiStreamTranslator::new();
    let acts = t.apply(&context(), Ok(record("data: {\"candidates\":[{\"content\":{\"parts\":[{\"text\":\"Hel\"}]}}]}\n\n")));
    assert_eq!(acts.len(), 3);
    assert!(matches!(acts[0], StreamAction::RecordPayload(_)));
    match &acts[1] {
        StreamAction::Progress { response, .. } => assert!(response.raw.is_none()),
        other => panic!("unexpected {:?}", other),
    }
    match &acts[2] {
        StreamAction::TextDeltaFor { text_id, delta, .. } => {
            assert_eq!(text_id.as_deref(), Some("text_0"));
            assert_eq!(delta, "Hel");
        },
        other => panic!("unexpected {:?}", other),
    }
    let acts = t.apply(&context(), Ok(record("data: {\"candidates\":[{\"content\":{\"parts\":[{\"text\":\"Hello\"}]}}]}\n\n")));
    match &acts[2] {
        StreamAction::TextDeltaFor { delta, .. } => assert_eq!(delta, "lo"),
        other => panic!("unexpected {:?}", other),
    }
    assert_eq!(t.active_text, "Hello");
    // The same text again adds nothing.
    let acts = t.apply(&context(), Ok(record("data: {\"candidates\":[{\"content\":{\"parts\":[{\"text\":\"Hello\"}]}}]}\n\n")));
    assert_eq!(acts.len(), 2);
}

#[test]
fn gemini_stream_emits_each_tool_call_once() {
    let mut t = GeminiStreamTranslator::new();
    let data = "data: {\"candidates\":[{\"content\":{\"parts\":[{\"functionCall\":{\"name\":\"lookup\",\"args\":{\"q\":1}}}]}}]}\n\n";
    let acts = t.apply(&context(), Ok(record(data)));
    assert_eq!(acts.len(), 5);
    assert!(matches!(acts[2], StreamAction::TextEndIfOpen { .. }));
    match &acts[3] {
        StreamAction::ToolCallStart { tool_call, .. } => assert_eq!(tool_call.name, "lookup"),
        other => panic!("unexpected {:?}", other),
    }
    assert!(matches!(acts[4], StreamAction::ToolCallEnd { .. }));
    let acts = t.apply(&context(), Ok(record(data)));
    assert_eq!(acts.len(), 3);
    assert!(matches!(acts[2], StreamAction::TextEndIfOpen { .. }));
}

#[test]
fn gemini_stream_errors_and_other_payloads() {
    let mut t = GeminiStreamTranslator::new();
    let acts = t.apply(&context(), Ok(record("data: {\"status\":\"ok\"}\n\n")));
    assert_eq!(acts.len(), 2);
    assert!(matches!(acts[1], StreamAction::ProviderEvent(_)));
    let acts = t.apply(&context(), Ok(record("data: [{\"error\":{\"message\":\"quota\"}},{\"candidates\":[]}]\n\n")));
    assert_eq!(acts.len(), 2);
    match &acts[1] {
        StreamAction::PushError { error, .. } => {
            assert_eq!(error.message, "quota");
            assert_eq!(error.provider.as_deref(), Some("gemini"));
        },
        other => panic!("unexpected {:?}", other),
    }
    assert!(t.finished);
    assert!(t.apply(&context(), Ok(record("data: {\"candidates\":[]}\n\n"))).is_empty());
}
