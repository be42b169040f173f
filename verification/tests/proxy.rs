use granite_cli::providers::ApiType;
use granite_cli::proxy::server::drain_complete_lines;
use granite_cli::proxy::server::is_forbidden_request_header;
use granite_cli::proxy::server::is_forbidden_response_header;
use granite_cli::proxy::server::payload_of_line;

#[test]
fn forbidden_headers_are_filtered_in_both_directions() {
    assert!(is_forbidden_request_header("Authorization"));
    assert!(is_forbidden_request_header("X-Api-Key"));
    assert!(is_forbidden_request_header("Host"));
    assert!(!is_forbidden_request_header("Content-Type"));

    assert!(is_forbidden_response_header("Transfer-Encoding"));
    assert!(!is_forbidden_response_header("Content-Type"));
}

#[test]
fn credentials_are_never_relayed_upstream_but_may_come_back() {
    assert!(is_forbidden_request_header("PROXY-AUTHORIZATION"));
    assert!(!is_forbidden_response_header("Authorization"));
    assert!(is_forbidden_response_header("content-length"));
}

#[test]
fn complete_lines_are_drained_and_the_partial_line_kept() {
    let mut buffer = "data: a\r\ndata: b\npart".to_string();
    let lines = drain_complete_lines(&mut buffer);
    assert_eq!(lines, vec!["data: a".to_string(), "data: b".to_string()]);
    assert_eq!(buffer, "part");
}

#[test]
fn a_buffer_without_newline_yields_no_line() {
    let mut buffer = "{\"done\":fa".to_string();
    let lines = drain_complete_lines(&mut buffer);
    assert!(lines.is_empty());
    assert_eq!(buffer, "{\"done\":fa");
}

#[test]
fn sse_data_line_carries_its_payload() {
    let line = r#"data: {"type":"message_delta","usage":{"output_tokens":7}}"#;
    assert_eq!(
        payload_of_line(line, ApiType::Anthropic),
        Some(r#"{"type":"message_delta","usage":{"output_tokens":7}}"#.to_string())
    );
}

#[test]
fn done_sentinel_carries_nothing() {
    assert_eq!(payload_of_line("data: [DONE]", ApiType::OpenAI), None);
    assert_eq!(payload_of_line("data:   ", ApiType::OpenAI), None);
}

#[test]
fn ollama_ndjson_line_is_its_own_payload() {
    let line = r#"  {"done":true,"prompt_eval_count":3,"eval_count":9}"#;
    assert_eq!(
        payload_of_line(line, ApiType::Ollama),
        Some(r#"{"done":true,"prompt_eval_count":3,"eval_count":9}"#.to_string())
    );
    assert_eq!(payload_of_line(line, ApiType::OpenAI), None);
}
