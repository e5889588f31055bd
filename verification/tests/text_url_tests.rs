use unified_llm_adapter::text::{after_last_char, eq_ignore_ascii_case, non_empty, to_lowercase, trim};
use unified_llm_adapter::url::{
    append_path_segment, append_query_pair, append_url_path_segment, percent_encode_path_segment,
    percent_encode_query_value, split_url_suffix, trim_url_path_suffix,
};

#[test]
fn trim_removes_unicode_whitespace() {
    assert_eq!(trim("\u{a0} hello\t\n"), "hello");
    assert_eq!(non_empty("   "), None);
    assert_eq!(non_empty("  x "), Some("x".to_string()));
}

#[test]
fn case_helpers_follow_std() {
    assert!(eq_ignore_ascii_case("Content-Type", "content-type"));
    assert!(!eq_ignore_ascii_case("abc", "abd"));
    assert_eq!(to_lowercase("ÄBC"), "äbc");
    assert_eq!(after_last_char("a.b.c", '.'), "c");
    assert_eq!(after_last_char("abc", '.'), "abc");
}

#[test]
fn split_url_suffix_cuts_at_first_query_or_fragment() {
    assert_eq!(
        split_url_suffix("https://x.test/v1#frag?q"),
        ("https://x.test/v1".to_string(), "#frag?q".to_string())
    );
    assert_eq!(split_url_suffix("https://x.test"), ("https://x.test".to_string(), String::new()));
}

#[test]
fn trim_url_path_suffix_strips_first_matching_suffix() {
    assert_eq!(
        trim_url_path_suffix("  https://api.test/v1/messages/?x=1 ", &["/messages"]),
        "https://api.test/v1?x=1"
    );
    assert_eq!(trim_url_path_suffix("https://api.test///", &[]), "https://api.test");
}

#[test]
fn append_path_segment_respects_terminal_suffixes() {
    assert_eq!(append_path_segment("https://a.test/v1/", "responses", &["/responses"]), "https://a.test/v1/responses");
    assert_eq!(append_path_segment("https://a.test/v1/responses?x", "responses", &["/responses"]), "https://a.test/v1/responses?x");
    assert_eq!(append_url_path_segment("https://a.test?k=v", "v1"), "https://a.test/v1?k=v");
}

#[test]
fn percent_encoding_keeps_unreserved_bytes() {
    assert_eq!(percent_encode_path_segment("a b/é~"), "a%20b%2F%C3%A9~");
    assert_eq!(percent_encode_query_value("a b&c"), "a+b%26c");
    assert_eq!(append_query_pair("https://x.test/p#f", "key", "a b"), "https://x.test/p?key=a+b#f");
    assert_eq!(append_query_pair("https://x.test/p?a=1", "k", "v"), "https://x.test/p?a=1&k=v");
}
