use unified_llm_adapter::json::parse_json;
use unified_llm_adapter::canonical::stable_json;
use unified_llm_adapter::native::{
    anthropic_finish_reason, anthropic_messages_url, apply_bearer_auth, gemini_finish_reason,
    gemini_generate_content_url, gemini_stream_generate_content_url, gemini_synthetic_tool_call_name,
    header_value, image_media_type_from_extension, infer_image_media_type, infer_image_media_type_from_value,
    is_local_media_path, looks_like_json_stream, openai_finish_reason_kind, openai_responses_url, percent_decode,
    push_openai_stream_item_alias_keys, stable_digest, validate_native_provider, validate_provider_thinking_source,
};
use unified_llm_adapter::compatible::{
    deduplicate_warnings, unsupported_warning, validate_config, OpenAICompatibleRequestConfig,
};
use unified_llm_adapter::native::{chat_completions_url, provider_payload_error, stream_raw_payload};
use unified_llm_adapter::request::{FinishReasonKind, ThinkingData, Warning};
use unified_llm_adapter::errors::SDKErrorKind;
use unified_llm_adapter::textmap::TextMap;

#[test]
fn endpoint_urls() {
    assert_eq!(openai_responses_url(None), "https://api.openai.com/v1/responses");
    assert_eq!(openai_responses_url(Some("https://proxy.test/v1/responses")), "https://proxy.test/v1/responses");
    assert_eq!(anthropic_messages_url(Some("  ")), "https://api.anthropic.com/v1/messages");
    assert_eq!(
        gemini_generate_content_url(None, " models/gemini 2 "),
        "https://generativelanguage.googleapis.com/v1beta/models/gemini%202:generateContent"
    );
    assert_eq!(
        gemini_stream_generate_content_url(Some("https://g.test/v1"), "m"),
        "https://g.test/v1beta/models/m:streamGenerateContent"
    );
    assert_eq!(chat_completions_url(Some("http://localhost:4000")), "http://localhost:4000/v1/chat/completions");
}

#[test]
fn finish_reasons_by_provider() {
    let r = anthropic_finish_reason(Some(" End_Turn ".to_string()), false);
    assert!(r.reason == FinishReasonKind::Stop);
    assert_eq!(r.raw.as_deref(), Some(" End_Turn "));
    assert!(anthropic_finish_reason(None, true).reason == FinishReasonKind::ToolCalls);
    assert!(anthropic_finish_reason(Some("mystery".to_string()), true).reason == FinishReasonKind::ToolCalls);
    assert!(gemini_finish_reason("stop", true).reason == FinishReasonKind::ToolCalls);
    assert!(gemini_finish_reason("SAFETY", false).reason == FinishReasonKind::ContentFilter);
    assert!(openai_finish_reason_kind("max_output_tokens") == FinishReasonKind::Length);
    assert!(openai_finish_reason_kind("whatever") == FinishReasonKind::Other);
}

#[test]
fn digests_and_decoding() {
    assert_eq!(stable_digest(""), "cbf29ce484222325");
    assert_eq!(stable_digest("a"), "af63dc4c8601ec8c");
    assert_eq!(percent_decode("a%20b%2Fc"), Some("a b/c".to_string()));
    assert_eq!(percent_decode("%+f"), Some("\u{f}".to_string()));
    assert_eq!(percent_decode("%2"), None);
    assert_eq!(percent_decode("%zz"), None);
    assert_eq!(percent_decode("%ff"), None);
    assert_eq!(gemini_synthetic_tool_call_name("gemini_call_get%20weather_c0_p1_ab12"), Some("get weather".to_string()));
    assert_eq!(gemini_synthetic_tool_call_name("gemini_call_x_c0_p_ab12"), None);
    assert_eq!(gemini_synthetic_tool_call_name("other_x_c0_p1_ab"), None);
}

#[test]
fn media_types() {
    assert_eq!(image_media_type_from_extension("JPG"), Some("image/jpeg"));
    assert_eq!(image_media_type_from_extension("txt"), None);
    assert_eq!(infer_image_media_type("/tmp/pic.WEBP"), "image/webp");
    assert_eq!(infer_image_media_type("/tmp/.hidden"), "image/png");
    assert_eq!(infer_image_media_type("/tmp/dir/"), "image/png");
    assert_eq!(infer_image_media_type_from_value("https://x.test/a.gif?size=2#top"), "image/gif");
    assert!(is_local_media_path("./a.png"));
    assert!(is_local_media_path("~/a.png"));
    assert!(!is_local_media_path("https://x.test/a.png"));
    assert!(looks_like_json_stream("  [{\"a\":1}]"));
    assert!(!looks_like_json_stream("data: {}"));
}

#[test]
fn headers_and_auth() {
    let mut headers = TextMap::new();
    headers.insert("AUTHORIZATION".to_string(), "old".to_string());
    headers.insert("X-RateLimit-Remaining-Requests".to_string(), " 5 ".to_string());
    apply_bearer_auth(&mut headers, Some(" key "));
    assert_eq!(headers.get("Authorization").map(|s| s.as_str()), Some("Bearer key"));
    assert!(headers.get("AUTHORIZATION").is_none());
    assert_eq!(header_value(&headers, &["missing", "x-ratelimit-remaining-requests"]), Some("5".to_string()));
    apply_bearer_auth(&mut headers, None);
    assert!(headers.get("Authorization").is_none());
}

#[test]
fn provider_checks() {
    assert!(validate_native_provider("gemini").is_ok());
    let e = validate_native_provider("bedrock").err().expect("unsupported");
    assert_eq!(e.kind, SDKErrorKind::Configuration);
    assert_eq!(e.message, "Unsupported native provider \"bedrock\"");
    let t = ThinkingData { text: "t".to_string(), signature: Some("sig".to_string()), redacted: false, source_provider: None, source_model: None };
    let e = validate_provider_thinking_source("anthropic", &t, "thinking").err().expect("needs provenance");
    assert_eq!(e.kind, SDKErrorKind::InvalidRequest);
    let t = ThinkingData { source_provider: Some(" Anthropic ".to_string()), ..t };
    assert!(validate_provider_thinking_source("anthropic", &t, "thinking").is_ok());
}

#[test]
fn compatible_configuration() {
    let c = OpenAICompatibleRequestConfig::new("k".to_string());
    assert!(c.require_api_key);
    assert!(validate_config("openai_compatible", &c).is_ok());
    let d = OpenAICompatibleRequestConfig::default();
    assert_eq!(validate_config("litellm", &d).err().map(|e| e.message), Some("LiteLLM requires LITELLM_BASE_URL or an explicit base_url".to_string()));
    let req = OpenAICompatibleRequestConfig { require_api_key: true, ..OpenAICompatibleRequestConfig::default() };
    assert_eq!(
        validate_config("openrouter", &req).err().map(|e| e.message),
        Some("OpenRouter requires OPENROUTER_API_KEY unless require_api_key is explicitly disabled".to_string())
    );
}

#[test]
fn warnings_are_deduplicated_in_order() {
    let w = deduplicate_warnings(vec![
        unsupported_warning("a".to_string(), "m1".to_string()),
        Warning { message: "m2".to_string(), code: None },
        unsupported_warning("a".to_string(), "m1".to_string()),
        Warning { message: "m2".to_string(), code: Some(String::new()) },
        unsupported_warning("b".to_string(), "m1".to_string()),
    ]);
    let keys: Vec<(Option<String>, String)> = w.into_iter().map(|w| (w.code, w.message)).collect();
    assert_eq!(
        keys,
        vec![(Some("a".to_string()), "m1".to_string()), (None, "m2".to_string()), (Some("b".to_string()), "m1".to_string())]
    );
    let mut alias = Vec::new();
    push_openai_stream_item_alias_keys(&mut alias, Some(" it ".to_string()));
    assert_eq!(alias, vec!["item_id:it".to_string(), "id:it".to_string()]);
}

#[test]
fn stream_raw_payloads() {
    assert!(stream_raw_payload(&Vec::new()).is_none());
    let one = vec![parse_json(r#"{"a":1}"#).ok().expect("json")];
    assert_eq!(stable_json(&stream_raw_payload(&one).expect("one")), r#"{"a":1}"#);
    let two = vec![parse_json("1").ok().expect("json"), parse_json(r#""x""#).ok().expect("json")];
    assert_eq!(stable_json(&stream_raw_payload(&two).expect("two")), r#"[1,"x"]"#);
}

#[test]
fn provider_payload_errors() {
    let payload = parse_json(r#"{"error":{"message":"overloaded"},"message":"outer"}"#).ok().expect("json");
    let e = provider_payload_error("anthropic", &payload);
    assert_eq!(e.kind, SDKErrorKind::Stream);
    assert_eq!(e.message, "overloaded");
    assert_eq!(e.provider.as_deref(), Some("anthropic"));
    assert_eq!(stable_json(e.raw.as_ref().expect("raw")), stable_json(&payload));
    let payload = parse_json(r#"{"error":{"code":5},"message":"outer"}"#).ok().expect("json");
    assert_eq!(provider_payload_error("gemini", &payload).message, "outer");
    let payload = parse_json(r#"{"message":"flat"}"#).ok().expect("json");
    assert_eq!(provider_payload_error("openai", &payload).message, "flat");
    let payload = parse_json(r#"{"error":"busy"}"#).ok().expect("json");
    assert_eq!(provider_payload_error("openai", &payload).message, "provider stream error");
}
