use betterstack_shipper::{
    batch_to_json, bearer_header, normalize_event, record_to_json, status_is_success,
    delivery_report, FieldMap, FieldValue, LogRecord,
};

fn with_fields(fields: FieldMap) -> LogRecord {
    normalize_event(
        "2024-01-01T00:00:00.000Z".to_string(),
        "ERROR".to_string(),
        "x".to_string(),
        fields,
        None,
    )
}

#[test]
fn strings_are_escaped_like_json() {
    let mut fields = FieldMap::new();
    fields.insert(
        "message".to_string(),
        FieldValue::Str("a\"b\\c\nd\te\u{8}\u{c}\r\u{1f}".to_string()),
    );
    let json = record_to_json(&with_fields(fields));
    assert!(json.contains("\"message\":\"a\\\"b\\\\c\\nd\\te\\b\\f\\r\\u001f\""));
}

#[test]
fn integer_values_render_in_decimal() {
    let mut fields = FieldMap::new();
    fields.insert("big".to_string(), FieldValue::U64(u64::MAX));
    fields.insert("min".to_string(), FieldValue::I64(i64::MIN));
    fields.insert("neg".to_string(), FieldValue::I64(-42));
    fields.insert("zero".to_string(), FieldValue::U64(0));
    fields.insert("yes".to_string(), FieldValue::Bool(true));
    let json = record_to_json(&with_fields(fields));
    assert!(json.contains(
        "\"fields\":{\"big\":18446744073709551615,\"min\":-9223372036854775808,\"neg\":-42,\"zero\":0,\"yes\":true}"
    ));
}

#[test]
fn raw_number_tokens_are_emitted_verbatim() {
    let mut fields = FieldMap::new();
    fields.insert("pi".to_string(), FieldValue::Num("3.25".to_string()));
    let json = record_to_json(&with_fields(fields));
    assert!(json.contains("\"fields\":{\"pi\":3.25}"));
}

#[test]
fn batch_renders_as_json_array_in_order() {
    let mut one = FieldMap::new();
    one.insert("message".to_string(), FieldValue::Str("a".to_string()));
    let mut two = FieldMap::new();
    two.insert("message".to_string(), FieldValue::Str("b".to_string()));
    let records = vec![with_fields(one), with_fields(two)];
    let body = batch_to_json(&records);
    let expected = format!(
        "[{},{}]",
        record_to_json(&records[0]),
        record_to_json(&records[1])
    );
    assert_eq!(body, expected);
    assert!(body.starts_with('['));
    assert!(body.ends_with(']'));
}

#[test]
fn empty_batch_is_an_empty_array() {
    let records: Vec<LogRecord> = Vec::new();
    assert_eq!(batch_to_json(&records), "[]");
}

#[test]
fn serde_json_accepts_and_agrees_with_the_rendering() {
    let mut span_fields = FieldMap::new();
    span_fields.insert("user_id".to_string(), FieldValue::U64(42));
    let span = betterstack_shipper::SpanState::new("request".to_string(), span_fields);
    let mut fields = FieldMap::new();
    fields.insert("message".to_string(), FieldValue::Str("hi \"there\"".to_string()));
    fields.insert("status".to_string(), FieldValue::I64(500));
    fields.insert("ok".to_string(), FieldValue::Bool(false));
    let rec = normalize_event(
        "2024-01-01T00:00:00.000Z".to_string(),
        "INFO".to_string(),
        "app::web".to_string(),
        fields,
        Some(&span),
    );
    let json = record_to_json(&rec);
    let parsed: serde_json::Value = serde_json::from_str(&json).expect("output is valid JSON");

    let mut expected = serde_json::Map::new();
    expected.insert(
        "dt".to_string(),
        serde_json::Value::String("2024-01-01T00:00:00.000Z".to_string()),
    );
    expected.insert(
        "level".to_string(),
        serde_json::Value::String("INFO".to_string()),
    );
    expected.insert(
        "message".to_string(),
        serde_json::Value::String("hi \"there\"".to_string()),
    );
    expected.insert(
        "target".to_string(),
        serde_json::Value::String("app::web".to_string()),
    );
    let mut inner = serde_json::Map::new();
    inner.insert("status".to_string(), serde_json::Value::from(500i64));
    inner.insert("ok".to_string(), serde_json::Value::from(false));
    expected.insert("fields".to_string(), serde_json::Value::Object(inner));
    let mut span_obj = serde_json::Map::new();
    span_obj.insert(
        "name".to_string(),
        serde_json::Value::String("request".to_string()),
    );
    span_obj.insert("user_id".to_string(), serde_json::Value::from(42u64));
    expected.insert("span".to_string(), serde_json::Value::Object(span_obj));

    assert_eq!(parsed, serde_json::Value::Object(expected));
}

#[test]
fn bearer_header_prefixes_the_token() {
    assert_eq!(bearer_header("tok_abc"), "Bearer tok_abc");
}

#[test]
fn status_classification_bounds() {
    assert!(!status_is_success(199));
    assert!(status_is_success(200));
    assert!(status_is_success(299));
    assert!(!status_is_success(300));
    assert!(!status_is_success(500));
}

#[test]
fn delivery_report_lines() {
    assert_eq!(delivery_report(Some(204)), None);
    assert_eq!(
        delivery_report(Some(404)).as_deref(),
        Some("delivery failed: HTTP status 404")
    );
    assert_eq!(
        delivery_report(None).as_deref(),
        Some("delivery failed: transport error")
    );
}
