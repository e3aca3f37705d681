use nlsh::llm::LlmError;
use nlsh::ollama::{
    endpoint, extract_num, generate_request_body, lists_model, parse_generate_response,
    pull_progress, pull_request_body, response_text,
};

#[test]
fn extract_num_basic() {
    assert_eq!(extract_num(r#"{"completed":542,"total":986}"#, "completed"), Some(542));
    assert_eq!(extract_num(r#"{"completed":542,"total":986}"#, "total"), Some(986));
    assert_eq!(extract_num(r#"{"status":"pulling"}"#, "completed"), None);
}

#[test]
fn extract_num_spaces() {
    assert_eq!(extract_num(r#"{"completed": 100, "total": 200}"#, "total"), Some(200));
}

#[test]
fn extract_num_edges() {
    assert_eq!(extract_num(r#"{"total":18446744073709551615}"#, "total"), Some(u64::MAX));
    assert_eq!(extract_num(r#"{"total":18446744073709551616}"#, "total"), None);
    assert_eq!(extract_num(r#"{"total":"x"}"#, "total"), None);
    assert_eq!(extract_num(r#"{"total":007}"#, "total"), Some(7));
    assert_eq!(extract_num(r#"{"total":1,"total":2}"#, "total"), Some(1));
}

#[test]
fn pull_progress_lines() {
    assert_eq!(pull_progress(r#"{"completed":5,"total":10}"#), Some((5, 10)));
    assert_eq!(pull_progress(r#"{"total":10}"#), Some((0, 10)));
    assert_eq!(pull_progress(r#"{"status":"pulling manifest"}"#), None);
    assert_eq!(pull_progress(r#"{"completed":5,"total":0}"#), None);
    assert_eq!(pull_progress(""), None);
}

#[test]
fn tags_list_the_model() {
    let body = r#"{"models":[{"name":"qwen2.5-coder:1.5b","size":1}]}"#;
    assert!(lists_model(body, "qwen2.5-coder:1.5b"));
    assert!(!lists_model(body, "qwen2.5-coder:1.5"));
    assert!(!lists_model(body, "qwen2.5-coder:3b"));
}

#[test]
fn tags_are_read_as_a_models_list() {
    let two = r#"{"models":[{"name":"a:1b"},{"size":3},{"name":"qwen2.5-coder:3b","digest":"x"}]}"#;
    assert!(lists_model(two, "qwen2.5-coder:3b"));
    assert!(lists_model(two, "a:1b"));
    assert!(!lists_model(two, "x"));
    // The name elsewhere in the body is not a listed model.
    assert!(!lists_model(r#"{"models":[],"note":"qwen2.5-coder:1.5b"}"#, "qwen2.5-coder:1.5b"));
    assert!(!lists_model(r#"{"name":"qwen2.5-coder:1.5b"}"#, "qwen2.5-coder:1.5b"));
    assert!(!lists_model("not json \"qwen2.5-coder:1.5b\"", "qwen2.5-coder:1.5b"));
    assert!(!lists_model(r#"{"models":{"name":"m"}}"#, "m"));
}

#[test]
fn request_bodies() {
    assert_eq!(pull_request_body("m:1b"), r#"{"name":"m:1b","stream":true}"#);
    assert_eq!(
        generate_request_body("m", "say \"hi\"\n"),
        r#"{"model":"m","prompt":"say \"hi\"\n","stream":false}"#
    );
    assert_eq!(endpoint("http://localhost:11434", "/api/tags"), "http://localhost:11434/api/tags");
}

#[test]
fn generate_response_parsing() {
    match parse_generate_response(r#"{"response":"  ls -la \n","done":true}"#) {
        Ok(s) => assert_eq!(s, "ls -la"),
        Err(_) => panic!("expected a response"),
    }
    match parse_generate_response(r#"{"done":true}"#) {
        Err(LlmError::Other(m)) => assert_eq!(m, "no response field in Ollama output"),
        _ => panic!("expected a missing field"),
    }
    match parse_generate_response(r#"{"response":3}"#) {
        Err(LlmError::Other(m)) => assert_eq!(m, "no response field in Ollama output"),
        _ => panic!("expected a missing string field"),
    }
    match parse_generate_response("not json") {
        Err(LlmError::Other(m)) => {
            let want = serde_json::from_str::<serde_json::Value>("not json").unwrap_err().to_string();
            assert_eq!(m, want);
            assert!(m.contains("line 1"));
        }
        _ => panic!("expected a parse error"),
    }
}

#[test]
fn json_strings_are_escaped() {
    assert_eq!(
        generate_request_body("m", "a\\b\t\r\u{8}\u{c}\u{1}\u{1f}é\u{7f}"),
        "{\"model\":\"m\",\"prompt\":\"a\\\\b\\t\\r\\b\\f\\u0001\\u001fé\u{7f}\",\"stream\":false}"
    );
    assert_eq!(generate_request_body("", ""), r#"{"model":"","prompt":"","stream":false}"#);
}

#[test]
fn response_text_trims() {
    match response_text(Some(" x ".to_string())) {
        Ok(s) => assert_eq!(s, "x"),
        Err(_) => panic!(),
    }
    assert!(matches!(response_text(None), Err(LlmError::Other(_))));
}

#[test]
fn written_numbers_are_read_back() {
    for n in [0u64, 9, 10, 986, 1_073_741_824, u64::MAX] {
        let line = format!("\"completed\":{n},\"total\":{n}}}");
        assert_eq!(extract_num(&line, "completed"), Some(n));
        assert_eq!(extract_num(&format!("\"total\":{n}"), "total"), Some(n));
    }
    assert_eq!(extract_num(r#"{"completed":123,"total":456}"#, "completed"), Some(123));
}
