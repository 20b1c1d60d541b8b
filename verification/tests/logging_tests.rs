use tee_guardian::errors::LogContextError;
use tee_guardian::logging::{
    format_log_line, get_log_context, is_removal, parse_log_level, quote_logfmt_value, set_log_context, FieldCollector,
    LogContext, LogLevel, MAX_CONTEXT_KEYS,
};

#[test]
fn test_rate_limiting() {
    let mut ctx = LogContext::new();
    let result = set_log_context(&mut ctx, "rate-test-key".to_string(), None, true);
    assert!(result.is_ok());
}

#[test]
fn test_key_limit() {
    let mut ctx = LogContext::new();
    for i in 0..MAX_CONTEXT_KEYS {
        let _ = set_log_context(&mut ctx, format!("key{i}"), Some(format!("value{i}")), true);
    }
    let result = set_log_context(&mut ctx, "overflow".to_string(), Some("value".to_string()), true);
    assert!(result.is_err());
    assert_eq!(result, Err(LogContextError::MaxKeysExceeded));
    // Updating an existing key is still allowed.
    assert!(set_log_context(&mut ctx, "key3".to_string(), Some("new".to_string()), true).is_ok());
    assert_eq!(ctx.get("key3"), Some("new".to_string()));
    assert_eq!(ctx.len(), 10);
}

#[test]
fn test_removal_bypasses_rate_limit() {
    let mut ctx = LogContext::new();
    let result = set_log_context(&mut ctx, "any-key".to_string(), None, false);
    assert!(result.is_ok());

    let result = set_log_context(&mut ctx, "any-key".to_string(), Some(String::new()), false);
    assert!(result.is_ok());
}

#[test]
fn rate_limited_change_leaves_context_unchanged() {
    let mut ctx = LogContext::new();
    assert!(set_log_context(&mut ctx, "a".into(), Some("1".into()), true).is_ok());
    assert_eq!(
        set_log_context(&mut ctx, "b".into(), Some("2".into()), false),
        Err(LogContextError::RateLimitExceeded)
    );
    assert_eq!(ctx.len(), 1);
    assert_eq!(ctx.get("b"), None);
    assert!(set_log_context(&mut ctx, "a".into(), None, false).is_ok());
    assert_eq!(ctx.get("a"), None);
    assert!(is_removal(&Some(String::new())));
    assert!(!is_removal(&Some("x".into())));
}

#[test]
fn test_log_context() {
    let mut ctx = LogContext::new();
    set_log_context(&mut ctx, "test-run".to_string(), Some("integration-001".to_string()), true).unwrap();
    set_log_context(&mut ctx, "cluster-id".to_string(), Some("test-cluster".to_string()), true).unwrap();
    let entries = get_log_context(&ctx);
    assert_eq!(entries.len(), 2);
    assert_eq!(ctx.get("test-run"), Some("integration-001".to_string()));
    assert_eq!(ctx.get("cluster-id"), Some("test-cluster".to_string()));
}

#[test]
fn log_context_error_texts() {
    assert_eq!(LogContextError::RateLimitExceeded.to_string(), "rate limit exceeded (max 10 calls/second)");
    assert_eq!(LogContextError::MaxKeysExceeded.to_string(), "maximum context keys exceeded (max 10)");
}

#[test]
fn logfmt_quoting() {
    assert_eq!(quote_logfmt_value("plain"), "plain");
    assert_eq!(quote_logfmt_value("two words"), "\"two words\"");
    assert_eq!(quote_logfmt_value("a=b"), "\"a=b\"");
    assert_eq!(quote_logfmt_value("say \"hi\""), "\"say \\\"hi\\\"\"");
    assert_eq!(quote_logfmt_value(""), "");
}

#[test]
fn log_levels() {
    assert_eq!(parse_log_level("trace"), LogLevel::Trace);
    assert_eq!(parse_log_level("debug"), LogLevel::Debug);
    assert_eq!(parse_log_level("info"), LogLevel::Info);
    assert_eq!(parse_log_level("warn"), LogLevel::Warn);
    assert_eq!(parse_log_level("error"), LogLevel::Error);
    assert_eq!(parse_log_level("verbose"), LogLevel::Info);
}

#[test]
fn field_collector_records_fields() {
    let mut c = FieldCollector::new();
    assert!(c.message.is_empty());
    c.record_field("log.target", "\"x\"");
    c.record_field("message", "\"hello world\"");
    c.record_field("node_id", "12345");
    c.record_field("name", "\"\"quoted\"\"");
    assert_eq!(c.message, "hello world");
    assert_eq!(
        c.fields,
        vec![("node_id".to_string(), "12345".to_string()), ("name".to_string(), "quoted".to_string())]
    );
}

#[test]
fn logfmt_line_layout() {
    let ctx = vec![("test-run".to_string(), "run 1".to_string())];
    let fields = vec![("node_id".to_string(), "7".to_string())];
    let line = format_log_line("2026-01-01T00:00:00.000000000Z", "INFO", "started", &ctx, &fields);
    assert_eq!(line, "time=2026-01-01T00:00:00.000000000Z level=INFO message=started test-run=\"run 1\" node_id=7");
    let line = format_log_line("t", "WARN", "", &Vec::new(), &Vec::new());
    assert_eq!(line, "time=t level=WARN");
}

#[test]
fn rotation_keeps_newer_half_from_a_whole_line() {
    assert_eq!(tee_guardian::logging::rotation_offset(100, 100), None);
    assert_eq!(tee_guardian::logging::rotation_offset(150, 100), Some(100));
    assert_eq!(tee_guardian::logging::drop_partial_line(b"ial line\nnext\nlast\n".to_vec()), b"next\nlast\n".to_vec());
    assert_eq!(tee_guardian::logging::drop_partial_line(b"no break".to_vec()), b"no break".to_vec());
    assert_eq!(tee_guardian::logging::drop_partial_line(b"\n".to_vec()), Vec::<u8>::new());
}
