use unified_llm_adapter::sse::{parse_sse_stream, SseParser};

#[test]
fn sse_parses_json_events_and_done_marker() {
    let records = parse_sse_stream("event: message\ndata: {\"type\":\"delta\",\"text\":\"hi\"}\n\ndata: [DONE]\n\n");
    assert_eq!(records.len(), 2);
    assert_eq!(records[0].event.as_deref(), Some("delta"));
    assert_eq!(records[0].sse_event.as_deref(), Some("message"));
    assert_eq!(records[0].json_event.as_deref(), Some("delta"));
    assert!(records[0].payload.is_some());
    assert!(!records[0].done);
    assert!(records[1].done);
    assert_eq!(records[1].data, "[DONE]");
}

#[test]
fn sse_chunks_split_anywhere_give_the_same_records() {
    let mut parser = SseParser::new();
    let mut records = parser.push_str("data: {\"event\":\"ping\"");
    assert!(records.is_empty());
    assert!(parser.has_pending_input());
    records.extend(parser.push_str("}\r\n\r\n"));
    assert_eq!(records.len(), 1);
    assert_eq!(records[0].event.as_deref(), Some("ping"));
    assert_eq!(records[0].data, "{\"event\":\"ping\"}");
    assert!(!parser.has_pending_input());
}

#[test]
fn sse_joins_data_lines_and_reads_retry() {
    let records = parse_sse_stream(": comment\nretry: 250\nretry: x\ndata: a\ndata:b\n\n");
    assert_eq!(records.len(), 1);
    assert_eq!(records[0].data, "a\nb");
    assert_eq!(records[0].retry, Some(250));
    assert!(records[0].payload.is_none());
    assert_eq!(records[0].payload_error.as_ref().map(|e| e.raw.as_str()), Some("a\nb"));
}

#[test]
fn sse_finish_flushes_an_unterminated_event() {
    let mut parser = SseParser::default();
    let first = parser.push_str("event: done\ndata: [DONE]");
    assert!(first.is_empty());
    let rest = parser.finish();
    assert_eq!(rest.len(), 1);
    assert!(rest[0].done);
    assert_eq!(rest[0].event.as_deref(), Some("done"));
    assert!(!parser.has_pending_input());
}

#[test]
fn sse_event_without_data_is_dropped() {
    assert!(parse_sse_stream("event: x\n\n").is_empty());
}
