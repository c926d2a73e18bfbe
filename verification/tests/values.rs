use dist_tracing::{
    event_to_values, format_rfc3339_millis, level_str, mk_field_name, now_millis, sample,
    sample_decision, should_report, span_to_values, Event, HoneycombVisitor, Level,
    OpenTelemetryVisitor, Span, SpanId, SpanMeta, TraceId, Value, Visit,
};
use sha1::Digest;

fn visitor_with(fields: &[(&str, &str)]) -> HoneycombVisitor {
    let mut v = HoneycombVisitor::empty();
    for (name, value) in fields {
        v.record_str(name, value);
    }
    v
}

#[test]
fn reserved_field_names_are_prefixed() {
    assert_eq!(mk_field_name("duration_ms".to_string()), "tracing.duration_ms");
    assert_eq!(mk_field_name("trace.trace_id".to_string()), "tracing.trace.trace_id");
    assert_eq!(mk_field_name("foo".to_string()), "foo");
}

#[test]
fn visitor_renames_colliding_fields() {
    let mut v = HoneycombVisitor::empty();
    v.record_str("duration_ms", "duration-value");
    v.record_str("foo", "bar");
    assert_eq!(
        v.0.get("tracing.duration_ms"),
        Some(&Value::Str("duration-value".to_string()))
    );
    assert_eq!(v.0.get("duration_ms"), None);
    assert_eq!(v.0.get("foo"), Some(&Value::Str("bar".to_string())));
}

#[test]
fn visitor_records_typed_fields() {
    let mut v = HoneycombVisitor::empty();
    v.record_i64("i", -3);
    v.record_u64("u", 7);
    v.record_bool("b", true);
    v.record_debug("d", "[1, 2]");
    assert_eq!(v.0.get("i"), Some(&Value::I64(-3)));
    assert_eq!(v.0.get("u"), Some(&Value::U64(7)));
    assert_eq!(v.0.get("b"), Some(&Value::Bool(true)));
    assert_eq!(v.0.get("d"), Some(&Value::Str("[1, 2]".to_string())));
}

#[test]
fn opentelemetry_visitor_keeps_raw_names() {
    let mut v = OpenTelemetryVisitor::empty();
    v.record_str("duration_ms", "duration-value");
    v.record_i64("n", 5);
    v.record_bool("b", false);
    assert_eq!(
        v.0.get("duration_ms"),
        Some(&Value::Str("duration-value".to_string()))
    );
    assert_eq!(v.0.get("tracing.duration_ms"), None);
    assert_eq!(v.0.get("n"), Some(&Value::I64(5)));
    assert_eq!(v.0.get("b"), Some(&Value::Bool(false)));
}

#[test]
fn later_field_values_win() {
    let mut v = HoneycombVisitor::empty();
    v.record_str("k", "first");
    v.record_str("k", "second");
    assert_eq!(v.0.get("k"), Some(&Value::Str("second".to_string())));
}

#[test]
fn span_serialises_every_reserved_field() {
    let span = Span {
        id: SpanId { tracing_id: 1, instance_id: 0 },
        trace_id: TraceId(135),
        parent_id: None,
        initialized_at: 0,
        elapsed_ms: 5,
        meta: SpanMeta { name: "s".to_string(), target: "t".to_string(), level: Level::Info },
        service_name: "svc".to_string(),
        values: visitor_with(&[("foo", "bar")]),
    };
    let m = span_to_values(span);
    assert_eq!(m.get("trace.span_id"), Some(&Value::Str("span-1-0".to_string())));
    assert_eq!(m.get("trace.trace_id"), Some(&Value::Str("135".to_string())));
    assert_eq!(m.get("trace.parent_id"), Some(&Value::Null));
    assert_eq!(m.get("service_name"), Some(&Value::Str("svc".to_string())));
    assert_eq!(m.get("level"), Some(&Value::Str("INFO".to_string())));
    assert_eq!(
        m.get("Timestamp"),
        Some(&Value::Str(format_rfc3339_millis(0)))
    );
    assert_eq!(m.get("name"), Some(&Value::Str("s".to_string())));
    assert_eq!(m.get("target"), Some(&Value::Str("t".to_string())));
    assert_eq!(m.get("duration_ms"), Some(&Value::I64(5)));
    assert_eq!(m.get("foo"), Some(&Value::Str("bar".to_string())));
}

#[test]
fn event_serialises_without_span_fields() {
    let event = Event {
        trace_id: TraceId(135),
        parent_id: Some(SpanId { tracing_id: 2, instance_id: 9 }),
        initialized_at: 947638923004,
        meta: SpanMeta { name: "e".to_string(), target: "t".to_string(), level: Level::Warn },
        service_name: "svc".to_string(),
        values: visitor_with(&[]),
    };
    let m = event_to_values(event);
    assert_eq!(m.get("trace.trace_id"), Some(&Value::Str("135".to_string())));
    assert_eq!(m.get("trace.parent_id"), Some(&Value::Str("span-2-9".to_string())));
    assert_eq!(m.get("level"), Some(&Value::Str("WARN".to_string())));
    assert_eq!(m.get("trace.span_id"), None);
    assert_eq!(m.get("duration_ms"), None);
}

#[test]
fn rfc3339_formats_known_instants() {
    assert_eq!(format_rfc3339_millis(0), "1970-01-01T00:00:00+00:00");
    assert_eq!(format_rfc3339_millis(947638923004), "2000-01-12T01:02:03.004+00:00");
}

#[test]
fn clock_is_nonnegative() {
    assert!(now_millis() >= 0);
}

#[test]
fn level_strings() {
    assert_eq!(level_str(Level::Trace), "TRACE");
    assert_eq!(level_str(Level::Debug), "DEBUG");
    assert_eq!(level_str(Level::Info), "INFO");
    assert_eq!(level_str(Level::Warn), "WARN");
    assert_eq!(level_str(Level::Error), "ERROR");
}

#[test]
fn sample_decision_on_known_digests() {
    // digest starting 00 00 00 01: far below any bound
    let low = vec![0u8, 0, 0, 1, 0];
    assert!(sample_decision(&low, 1));
    assert!(sample_decision(&low, 1000));
    // digest starting ff ff ff ff: above every bound but rate one
    let high = vec![255u8, 255, 255, 255, 0];
    assert!(sample_decision(&high, 1));
    assert!(!sample_decision(&high, 2));
}

#[test]
fn sample_matches_digest_of_string_form() {
    // the decision is exactly the sha1 hash of the trace id's decimal form
    let t = TraceId(135);
    let digest = sha1::Sha1::digest("135".as_bytes());
    let expected = u32::from_be_bytes([digest[0], digest[1], digest[2], digest[3]])
        <= u32::MAX / 3;
    assert_eq!(sample(3, &t), expected);
}

#[test]
fn sampling_is_trace_level() {
    // every record of one trace gets the same answer
    let t = TraceId::generate();
    let first = sample(7, &t);
    for _ in 0..5 {
        assert_eq!(sample(7, &t), first);
    }
}

#[test]
fn no_rate_reports_nothing() {
    assert!(!should_report(None, &TraceId(1)));
    assert_eq!(should_report(Some(1), &TraceId(1)), sample(1, &TraceId(1)));
}
