use k6r::detect::{classify, detect_format, FileFormat};

#[test]
fn test_detect_format_handle_summary() {
    let content = r#"{"metrics":{"http_reqs":{"type":"counter"}}}"#;
    assert!(matches!(detect_format(content), FileFormat::HandleSummary));
}

#[test]
fn test_detect_format_jsonl() {
    let content = r#"{"type":"Metric","metric":"http_reqs","data":{}}
{"type":"Point","metric":"http_reqs","data":{"value":1}}"#;
    assert!(matches!(detect_format(content), FileFormat::Jsonl));
}

#[test]
fn summary_with_surrounding_whitespace_is_detected() {
    let content = "  \n {\"metrics\":{}}\n\n";
    assert_eq!(detect_format(content), FileFormat::HandleSummary);
}

#[test]
fn malformed_brace_falls_back_to_event_log() {
    assert_eq!(detect_format("{\"metrics\": {"), FileFormat::Jsonl);
}

#[test]
fn object_without_metrics_is_event_log() {
    assert_eq!(detect_format("{\"type\":\"Metric\"}"), FileFormat::Jsonl);
}

#[test]
fn non_object_text_is_event_log() {
    assert_eq!(detect_format("[1, 2]"), FileFormat::Jsonl);
    assert_eq!(detect_format(""), FileFormat::Jsonl);
}

#[test]
fn classify_needs_brace_and_metrics() {
    assert_eq!(classify("{\"metrics\":1}", true), FileFormat::HandleSummary);
    assert_eq!(classify("{\"metrics\":1}", false), FileFormat::Jsonl);
    assert_eq!(classify("[]", true), FileFormat::Jsonl);
    assert_eq!(classify("", true), FileFormat::Jsonl);
}

#[test]
fn metrics_must_be_a_top_level_member() {
    assert_eq!(detect_format("{\"data\":{\"metrics\":{}}}"), FileFormat::Jsonl);
    assert_eq!(detect_format("{\"metrics\":null,\"x\":1}"), FileFormat::HandleSummary);
}
