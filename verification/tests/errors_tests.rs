use unified_llm_adapter::errors::{
    classify_grpc_code, classify_http_status_code, classify_provider_error_message, error_from_grpc_code,
    error_from_status_code, is_provider_kind, SDKErrorKind,
};
use unified_llm_adapter::json::Json;

#[test]
fn http_status_codes_classify() {
    assert_eq!(classify_http_status_code(Some(401)), SDKErrorKind::Authentication);
    assert_eq!(classify_http_status_code(Some(422)), SDKErrorKind::InvalidRequest);
    assert_eq!(classify_http_status_code(Some(503)), SDKErrorKind::Server);
    assert_eq!(classify_http_status_code(Some(418)), SDKErrorKind::Provider);
    assert_eq!(classify_http_status_code(None), SDKErrorKind::Provider);
}

#[test]
fn grpc_codes_classify_by_last_segment() {
    assert_eq!(classify_grpc_code(Some("google.rpc.NOT_FOUND")), SDKErrorKind::NotFound);
    assert_eq!(classify_grpc_code(Some(" deadline_exceeded ")), SDKErrorKind::RequestTimeout);
    assert_eq!(classify_grpc_code(Some("")), SDKErrorKind::Provider);
}

#[test]
fn messages_refine_the_kind() {
    assert_eq!(classify_provider_error_message(Some("Model does not exist"), None), Some(SDKErrorKind::NotFound));
    assert_eq!(classify_provider_error_message(Some("quota reached"), None), Some(SDKErrorKind::QuotaExceeded));
    assert_eq!(classify_provider_error_message(Some("hello"), None), None);
    assert!(is_provider_kind(SDKErrorKind::RateLimit));
    assert!(!is_provider_kind(SDKErrorKind::Abort));
}

#[test]
fn status_error_uses_raw_details_and_retryability() {
    let raw = Json::Object(vec![(
        "error".to_string(),
        Json::Object(vec![("message".to_string(), Json::Str("slow down".to_string()))]),
    )]);
    let e = error_from_status_code(Some(429), String::new(), Some("openai"), None, Some(raw));
    assert_eq!(e.kind, SDKErrorKind::RateLimit);
    assert_eq!(e.message, "slow down");
    assert_eq!(e.provider.as_deref(), Some("openai"));
    assert_eq!(e.status_code, Some(429));
    assert!(e.retryable);
}

#[test]
fn status_error_without_details_says_provider_error() {
    let e = error_from_status_code(Some(400), "  ".to_string(), None, None, None);
    assert_eq!(e.kind, SDKErrorKind::InvalidRequest);
    assert_eq!(e.message, "provider error");
    assert!(!e.retryable);
}

#[test]
fn grpc_error_keeps_normalized_code() {
    let e = error_from_grpc_code("UNAVAILABLE", "try later".to_string(), Some("gemini"), None);
    assert_eq!(e.kind, SDKErrorKind::Server);
    assert_eq!(e.error_code.as_deref(), Some("UNAVAILABLE"));
    assert_eq!(e.message, "try later");
}
