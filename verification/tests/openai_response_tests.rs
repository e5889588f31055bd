use unified_llm_adapter::canonical::stable_json;
use unified_llm_adapter::errors::SDKErrorKind;
use unified_llm_adapter::json::{parse_json, Json};
use unified_llm_adapter::openai_response::{
    openai_finish_reason, openai_response_arguments, openai_response_item_text, text_from_value,
    translate_openai_responses_response, usage_from_openai,
};
use unified_llm_adapter::request::{ContentPart, FinishReasonKind};

fn json(text: &str) -> Json {
    parse_json(text).ok().expect("valid json")
}

#[test]
fn texts_inside_values() {
    assert_eq!(text_from_value(&json(r#""a""#)).as_deref(), Some("a"));
    assert_eq!(text_from_value(&json(r#"["a",{"text":"b"},3,{"content":["c"]}]"#)).as_deref(), Some("abc"));
    assert_eq!(text_from_value(&json("[1,2]")), None);
    assert_eq!(text_from_value(&json(r#"{"text":5,"content":"x"}"#)).as_deref(), Some("x"));
    assert_eq!(text_from_value(&json("null")), None);
    assert_eq!(
        openai_response_item_text(&json(r#"{"summary":[{"type":"summary_text","text":"why"}]}"#)).as_deref(),
        Some("why")
    );
    assert_eq!(openai_response_item_text(&json(r#"{"output_text":"o"}"#)).as_deref(), Some("o"));
    assert_eq!(openai_response_item_text(&json("{}")), None);
}

#[test]
fn arguments_and_usage() {
    let (a, raw) = openai_response_arguments(&json(r#""{\"q\": 1}""#)).ok().expect("text");
    assert_eq!(stable_json(&a), r#"{"q":1}"#);
    assert_eq!(raw, r#"{"q": 1}"#);
    let (a, raw) = openai_response_arguments(&json(r#"" ""#)).ok().expect("blank");
    assert_eq!(stable_json(&a), "{}");
    assert_eq!(raw, " ");
    let (a, raw) = openai_response_arguments(&json(r#"{"b":1,"a":2}"#)).ok().expect("object");
    assert_eq!(stable_json(&a), r#"{"a":2,"b":1}"#);
    assert_eq!(raw, r#"{"a":2,"b":1}"#);
    let e = openai_response_arguments(&json(r#""{""#)).err().expect("bad");
    assert_eq!(e.kind, SDKErrorKind::InvalidToolCall);
    assert!(e.message.starts_with("OpenAI function_call arguments must be valid JSON: "));

    let u = usage_from_openai(Some(&json(
        r#"{"prompt_tokens":3,"completion_tokens":4,"output_tokens_details":{"reasoningTokens":2},"input_tokens_details":{"cached_tokens":1}}"#,
    )));
    assert_eq!((u.input_tokens, u.output_tokens, u.total_tokens), (3, 4, 0));
    assert_eq!(u.reasoning_tokens, Some(2));
    assert_eq!(u.cache_read_tokens, Some(1));
    let u = usage_from_openai(Some(&json(r#"{"input_tokens":5,"prompt_tokens":9,"total_tokens":11}"#)));
    assert_eq!((u.input_tokens, u.total_tokens), (5, 11));
}

#[test]
fn finish_reasons() {
    let r = openai_finish_reason(&json(r#"{"status":"completed"}"#), false);
    assert!(r.reason == FinishReasonKind::Stop);
    assert_eq!(r.raw.as_deref(), Some("completed"));
    let r = openai_finish_reason(&json(r#"{"status":"completed"}"#), true);
    assert!(r.reason == FinishReasonKind::ToolCalls);
    let r = openai_finish_reason(&json(r#"{"status":" Incomplete ","incomplete_details":{"reason":"content_filter"}}"#), true);
    assert!(r.reason == FinishReasonKind::ContentFilter);
    assert_eq!(r.raw.as_deref(), Some(" Incomplete "));
    let r = openai_finish_reason(&json(r#"{"incompleteDetails":{"reason":"max_output_tokens"}}"#), false);
    assert!(r.reason == FinishReasonKind::Length);
    assert_eq!(r.raw.as_deref(), Some("max_output_tokens"));
    let r = openai_finish_reason(&json(r#"{"incomplete_details":null,"incompleteDetails":{"reason":"x"}}"#), false);
    assert!(r.reason == FinishReasonKind::Other);
    assert!(r.raw.is_none());
    let r = openai_finish_reason(&json("{}"), true);
    assert!(r.reason == FinishReasonKind::ToolCalls);
}

#[test]
fn responses_payload_is_translated() {
    let payload = json(
        r#"{"id":"resp_1","model":"atlas-o","status":"completed",
            "output":[
              {"type":"reasoning","summary":[{"text":"think"}],"signature":"s"},
              {"type":"message","content":[{"type":"output_text","text":"Hello "},{"type":"output_text","text":"world"}]},
              {"type":"function_call","call_id":"c1","name":"lookup","arguments":"{\"q\":\"x\"}"},
              {"type":"function_call","name":"  "},
              {"type":"unknown"}
            ],
            "usage":{"input_tokens":2,"output_tokens":3}}"#,
    );
    let r = translate_openai_responses_response(payload, None).ok().expect("translated");
    assert_eq!(r.id, "resp_1");
    assert_eq!(r.provider, "openai");
    assert_eq!(r.text, "Hello world");
    assert_eq!(r.usage.total_tokens, 5);
    assert!(r.finish_reason.reason == FinishReasonKind::ToolCalls);
    assert_eq!(r.tool_calls.len(), 1);
    assert_eq!(r.tool_calls[0].id, "c1");
    assert_eq!(r.tool_calls[0].raw_arguments.as_deref(), Some(r#"{"q":"x"}"#));
    assert_eq!(r.message.content.len(), 4);
    match &r.message.content[0] {
        ContentPart::Thinking { thinking } => {
            assert_eq!(thinking.text, "think");
            assert_eq!(thinking.signature.as_deref(), Some("s"));
            assert_eq!(thinking.source_provider.as_deref(), Some("openai"));
            assert_eq!(thinking.source_model.as_deref(), Some("atlas-o"));
        }
        _ => panic!("expected reasoning"),
    }
    let named = translate_openai_responses_response(
        json(r#"{"output":[{"type":"function_call","name":"f"},{"type":"redacted_thinking","text":"x"}]}"#),
        None,
    )
    .ok()
    .expect("translated");
    assert_eq!(named.tool_calls[0].id, "f");
    assert_eq!(named.tool_calls[0].raw_arguments.as_deref(), Some("{}"));
    assert!(matches!(&named.message.content[1], ContentPart::RedactedThinking { .. }));

    let e = translate_openai_responses_response(Json::Str("x".to_string()), None).err().expect("not an object");
    assert_eq!(e.message, "OpenAI Responses response must be a JSON object");
    let bad = json(r#"{"output":[{"type":"message","content":[{"type":"function_call","name":"f","arguments":"{"}]}]}"#);
    let e = translate_openai_responses_response(bad, None).err().expect("bad arguments");
    assert_eq!(e.kind, SDKErrorKind::InvalidToolCall);
}
