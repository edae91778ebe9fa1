use betterstack_shipper::{
    normalize_event, record_to_json, FieldMap, FieldValue, LogRecord, SpanState,
};

fn dt() -> String {
    "2024-01-02T03:04:05.006Z".to_string()
}

fn simple_event(fields: FieldMap, span: Option<&SpanState>) -> LogRecord {
    normalize_event(dt(), "INFO".to_string(), "app".to_string(), fields, span)
}

#[test]
fn message_field_is_extracted() {
    let mut fields = FieldMap::new();
    fields.insert("message".to_string(), FieldValue::Str("hi".to_string()));
    fields.insert("status".to_string(), FieldValue::U64(500));
    let rec = simple_event(fields, None);
    assert_eq!(rec.message, FieldValue::Str("hi".to_string()));
    let left = rec.fields.entries();
    assert_eq!(left.len(), 1);
    assert_eq!(left[0].0, "status");
    assert!(!left.iter().any(|e| e.0 == "message"));
}

#[test]
fn missing_message_defaults_to_empty_string() {
    let rec = simple_event(FieldMap::new(), None);
    assert_eq!(rec.message, FieldValue::Str(String::new()));
    let json = record_to_json(&rec);
    assert!(json.contains("\"message\":\"\""));
    assert!(!json.contains("\"fields\""));
    assert!(!json.contains("\"span\""));
}

#[test]
fn record_without_span_or_fields_has_four_keys() {
    let rec = simple_event(FieldMap::new(), None);
    let json = record_to_json(&rec);
    assert_eq!(
        json,
        "{\"dt\":\"2024-01-02T03:04:05.006Z\",\"level\":\"INFO\",\"message\":\"\",\"target\":\"app\"}"
    );
}

#[test]
fn span_state_becomes_span_object() {
    let mut span_fields = FieldMap::new();
    span_fields.insert("user_id".to_string(), FieldValue::U64(42));
    let span = SpanState::new("request".to_string(), span_fields);
    let mut fields = FieldMap::new();
    fields.insert("status".to_string(), FieldValue::U64(500));
    let rec = simple_event(fields, Some(&span));
    let json = record_to_json(&rec);
    assert!(json.contains("\"span\":{\"name\":\"request\",\"user_id\":42}"));
    assert!(json.contains("\"fields\":{\"status\":500}"));
}

#[test]
fn span_and_event_fields_stay_separate() {
    let mut span_fields = FieldMap::new();
    span_fields.insert("k".to_string(), FieldValue::U64(1));
    let span = SpanState::new("s".to_string(), span_fields);
    let mut fields = FieldMap::new();
    fields.insert("k".to_string(), FieldValue::U64(2));
    let rec = simple_event(fields, Some(&span));
    let json = record_to_json(&rec);
    assert!(json.contains("\"fields\":{\"k\":2}"));
    assert!(json.contains("\"span\":{\"name\":\"s\",\"k\":1}"));
}

#[test]
fn normalization_is_deterministic_except_dt() {
    let build = |stamp: &str| {
        let mut fields = FieldMap::new();
        fields.insert("message".to_string(), FieldValue::Str("x".to_string()));
        fields.insert("n".to_string(), FieldValue::I64(-3));
        let mut span_fields = FieldMap::new();
        span_fields.insert("user".to_string(), FieldValue::Str("u".to_string()));
        let span = SpanState::new("req".to_string(), span_fields);
        let rec = normalize_event(
            stamp.to_string(),
            "WARN".to_string(),
            "mod".to_string(),
            fields,
            Some(&span),
        );
        record_to_json(&rec)
    };
    let a = build("2024-01-02T03:04:05.006Z");
    let b = build("2024-01-02T03:04:05.006Z");
    assert_eq!(a, b);
    let c = build("2025-06-07T08:09:10.011Z");
    // both stamps have the same length: the rendering differs only in the
    // dt value's bytes
    let prefix = "{\"dt\":\"".len();
    let stamp_len = "2024-01-02T03:04:05.006Z".len();
    assert_eq!(a[..prefix], c[..prefix]);
    assert_eq!(a[prefix + stamp_len..], c[prefix + stamp_len..]);
}

#[test]
fn later_field_writes_overwrite_in_place() {
    let mut fields = FieldMap::new();
    fields.insert("a".to_string(), FieldValue::U64(1));
    fields.insert("b".to_string(), FieldValue::U64(2));
    fields.insert("a".to_string(), FieldValue::U64(9));
    let rec = simple_event(fields, None);
    let json = record_to_json(&rec);
    assert!(json.contains("\"fields\":{\"a\":9,\"b\":2}"));
}

#[test]
fn span_record_merges_fields() {
    let mut initial = FieldMap::new();
    initial.insert("a".to_string(), FieldValue::U64(1));
    initial.insert("b".to_string(), FieldValue::U64(2));
    let mut span = SpanState::new("s".to_string(), initial);
    let mut update = FieldMap::new();
    update.insert("b".to_string(), FieldValue::U64(7));
    update.insert("c".to_string(), FieldValue::Bool(true));
    span.record(&update);
    let rec = simple_event(FieldMap::new(), Some(&span));
    let json = record_to_json(&rec);
    assert!(json.contains("\"span\":{\"name\":\"s\",\"a\":1,\"b\":7,\"c\":true}"));
}

#[test]
fn field_map_remove_returns_value() {
    let mut fields = FieldMap::new();
    fields.insert("x".to_string(), FieldValue::Bool(false));
    assert_eq!(
        fields.remove(&"x".to_string()),
        Some(FieldValue::Bool(false))
    );
    assert_eq!(fields.remove(&"x".to_string()), None);
    assert!(fields.is_empty());
}

#[test]
fn non_string_message_value_is_preserved() {
    let mut fields = FieldMap::new();
    fields.insert("message".to_string(), FieldValue::U64(7));
    let rec = simple_event(fields, None);
    let json = record_to_json(&rec);
    assert!(json.contains("\"message\":7"));
}

#[test]
fn span_field_named_name_overwrites_the_span_name() {
    let mut span_fields = FieldMap::new();
    span_fields.insert("name".to_string(), FieldValue::Str("other".to_string()));
    let span = SpanState::new("real".to_string(), span_fields);
    let rec = simple_event(FieldMap::new(), Some(&span));
    let json = record_to_json(&rec);
    assert!(json.contains("\"span\":{\"name\":\"other\"}"));
}
