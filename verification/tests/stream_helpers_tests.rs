use unified_llm_adapter::gemini_stream::{gemini_stream_payloads, is_gemini_stream_payload, stream_text_delta};
use unified_llm_adapter::json::{parse_json, Json};
use unified_llm_adapter::native::{header_value, rate_limit_info, RESET_HEADERS};
use unified_llm_adapter::textmap::TextMap;

fn json(text: &str) -> Json {
    parse_json(text).ok().expect("valid json")
}

#[test]
fn stream_payloads_split_arrays_of_objects() {
    assert_eq!(gemini_stream_payloads(json(r#"[{"a":1},{"b":2}]"#)).len(), 2);
    assert_eq!(gemini_stream_payloads(json(r#"[{"a":1},2]"#)).len(), 1);
    assert_eq!(gemini_stream_payloads(json(r#"{"a":1}"#)).len(), 1);
    assert!(is_gemini_stream_payload(&json(r#"{"candidates":[]}"#)));
    assert!(is_gemini_stream_payload(&json(r#"{"modelVersion":"x"}"#)));
    assert!(!is_gemini_stream_payload(&json(r#"{"other":1}"#)));
}

#[test]
fn stream_text_deltas() {
    assert_eq!(stream_text_delta("Hel", "Hello"), "lo");
    assert_eq!(stream_text_delta("Hello", "Hello"), "");
    assert_eq!(stream_text_delta("Hello", "Hel"), "");
    assert_eq!(stream_text_delta("abc", "xyz"), "xyz");
    assert_eq!(stream_text_delta("", "new"), "new");
}

#[test]
fn rate_limit_figures() {
    assert!(rate_limit_info(None, None, None, None, None).is_none());
    let info = rate_limit_info(Some(5), None, None, Some(100), None).expect("some");
    assert_eq!(info.requests_remaining, Some(5));
    assert_eq!(info.tokens_limit, Some(100));
    let mut headers = TextMap::new();
    headers.insert("X-RateLimit-Reset".to_string(), " 30s ".to_string());
    assert_eq!(header_value(&headers, &RESET_HEADERS).as_deref(), Some("30s"));
}
