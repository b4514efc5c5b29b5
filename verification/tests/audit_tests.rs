use clawhive::audit::{
    is_sensitive_key, summarize_input, truncate_string, JsonField, JsonInput, ToolAuditEntry, ToolResult,
};
use clawhive::policy::ToolOrigin;

/// The audit's reading of a parsed JSON value.
fn json_input(v: &serde_json::Value) -> JsonInput {
    let fields = v.as_object().map(|m| {
        m.iter()
            .map(|(k, x)| {
                let field = match x.as_str() {
                    Some(s) => JsonField::Text { value: s.to_string(), json: x.to_string() },
                    None => JsonField::Other { json: x.to_string() },
                };
                (k.clone(), field)
            })
            .collect()
    });
    JsonInput { fields, text: v.to_string() }
}

#[test]
fn truncate_works() {
    assert_eq!(truncate_string("short", 10), "short");
    assert_eq!(truncate_string("hello world", 8), "hello...");
}

#[test]
fn truncate_respects_char_boundaries() {
    assert_eq!(truncate_string("你好世界", 8), "你...");
    assert_eq!(truncate_string("abcdef", 2), "...");
}

#[test]
fn sensitive_keys() {
    assert!(is_sensitive_key("password"));
    assert!(is_sensitive_key("API_KEY"));
    assert!(is_sensitive_key("AuthHeader"));
    assert!(!is_sensitive_key("username"));
}

#[test]
fn summarize_redacts_sensitive_keys() {
    let input: serde_json::Value = serde_json::from_str(
        r#"{"username":"alice","password":"secret123","api_key":"sk-xxx","data":"normal"}"#,
    )
    .unwrap();
    let summary = summarize_input(&json_input(&input), 500);
    assert_eq!(
        summary,
        r#"{api_key:[REDACTED],data:"normal",password:[REDACTED],username:"alice"}"#
    );
}

#[test]
fn summarize_truncates_long_strings() {
    let input: serde_json::Value =
        serde_json::from_str(&format!(r#"{{"content":"{}","n":3}}"#, "a".repeat(100))).unwrap();
    let summary = summarize_input(&json_input(&input), 500);
    assert_eq!(summary, format!("{{content:\"{}...\",n:3}}", "a".repeat(47)));
    let plain = serde_json::Value::String("x".repeat(10));
    assert_eq!(summarize_input(&json_input(&plain), 8), "\"xxxx...");
}

#[test]
fn audit_entries() {
    let input: serde_json::Value = serde_json::from_str(r#"{"path":"/test.txt"}"#).unwrap();
    let e = ToolAuditEntry::success("read_file".to_string(), ToolOrigin::Builtin, &json_input(&input), "file contents", 50)
        .with_session("s1".to_string())
        .with_agent("main".to_string())
        .with_module("m");
    assert_eq!(e.input_summary, r#"{path:"/test.txt"}"#);
    assert_eq!(e.result_status(), "ok");
    assert_eq!(e.session_id.as_deref(), Some("s1"));
    assert!(matches!(e.result, ToolResult::Success { .. }));
    let d = ToolAuditEntry::denied("x".to_string(), ToolOrigin::External, &json_input(&input), "nope".to_string());
    assert_eq!(d.result_status(), "denied");
    assert_eq!(d.duration_ms, 0);
    let f = ToolAuditEntry::error("x".to_string(), ToolOrigin::External, &json_input(&input), "bad".to_string(), 3);
    assert_eq!(f.result_status(), "error");
}

#[test]
fn summary_of_a_written_input() {
    let input = JsonInput {
        fields: Some(vec![
            ("token".to_string(), JsonField::Text { value: "abc".to_string(), json: "\"abc\"".to_string() }),
            ("n".to_string(), JsonField::Other { json: "3".to_string() }),
        ]),
        text: r#"{"n":3,"token":"abc"}"#.to_string(),
    };
    assert_eq!(summarize_input(&input, 200), "{token:[REDACTED],n:3}");
    let plain = JsonInput { fields: None, text: "[1,2]".to_string() };
    assert_eq!(summarize_input(&plain, 200), "[1,2]");
}
