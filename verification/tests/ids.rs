use dist_tracing::digits::{parse_dec, parse_dec_u64, u128_to_dec, u64_to_dec};
use dist_tracing::{ParseSpanIdError, SpanId, TraceId};

#[test]
fn trace_id_round_trip_small() {
    let t = TraceId(135);
    let s = t.into_string();
    assert_eq!(s, "135");
    assert_eq!(TraceId::from_string(&s), Some(t));
}

#[test]
fn trace_id_round_trip_zero() {
    let t = TraceId(0);
    let s = t.into_string();
    assert_eq!(s, "0");
    assert_eq!(TraceId::from_string(&s), Some(t));
}

#[test]
fn trace_id_round_trip_max() {
    let t = TraceId(u128::MAX);
    let s = t.into_string();
    assert_eq!(s, "340282366920938463463374607431768211455");
    assert_eq!(TraceId::from_string(&s), Some(t));
}

#[test]
fn trace_id_rejects_malformed() {
    assert_eq!(TraceId::from_string(""), None);
    assert_eq!(TraceId::from_string("abc"), None);
    assert_eq!(TraceId::from_string("+1"), None);
    assert_eq!(TraceId::from_string("12 "), None);
    assert_eq!(TraceId::from_string("340282366920938463463374607431768211456"), None);
}

#[test]
fn trace_id_accepts_leading_zeros() {
    assert_eq!(TraceId::from_string("00135"), Some(TraceId(135)));
}

#[test]
fn trace_id_round_trip_u128() {
    let t: TraceId = 7u128.into();
    assert_eq!(t, TraceId(7));
    let s = t.into_string();
    assert_eq!(TraceId::from_string(&s), Some(t));
}

#[test]
fn trace_id_generate_round_trips() {
    let t = TraceId::generate();
    assert_eq!(TraceId::from_string(&t.into_string()), Some(t));
}

#[test]
fn span_id_round_trip() {
    let s = SpanId { tracing_id: 135, instance_id: 246 };
    let txt = s.into_string();
    assert_eq!(txt, "135-246");
    assert_eq!(SpanId::from_string(&txt), Ok(s));
}

#[test]
fn span_id_round_trip_zero_nonce() {
    let s = SpanId { tracing_id: 7, instance_id: 0 };
    assert_eq!(SpanId::from_string(&s.into_string()), Ok(s));
}

#[test]
fn span_id_rejects_zero_handle() {
    assert_eq!(SpanId::from_string("0-5"), Err(ParseSpanIdError::TryFromIntError));
}

#[test]
fn span_id_rejects_malformed() {
    assert_eq!(SpanId::from_string(""), Err(ParseSpanIdError::ParseIntError));
    assert_eq!(SpanId::from_string("135"), Err(ParseSpanIdError::ParseIntError));
    assert_eq!(SpanId::from_string("135-"), Err(ParseSpanIdError::ParseIntError));
    assert_eq!(SpanId::from_string("-135"), Err(ParseSpanIdError::ParseIntError));
    assert_eq!(SpanId::from_string("a-b"), Err(ParseSpanIdError::ParseIntError));
    assert_eq!(SpanId::from_string("1-2-3"), Err(ParseSpanIdError::ParseIntError));
    assert_eq!(
        SpanId::from_string("18446744073709551616-1"),
        Err(ParseSpanIdError::ParseIntError)
    );
}

#[test]
fn meta_field_names() {
    assert_eq!(TraceId::meta_field_name(), "trace-id");
    assert_eq!(SpanId::meta_field_name(), "span-id");
}

#[test]
fn decimal_codec_edges() {
    assert_eq!(u64_to_dec(0), "0");
    assert_eq!(u64_to_dec(u64::MAX), "18446744073709551615");
    assert_eq!(u128_to_dec(10), "10");
    assert_eq!(parse_dec("0"), Some(0));
    assert_eq!(parse_dec(""), None);
    assert_eq!(parse_dec_u64("18446744073709551615"), Some(u64::MAX));
    assert_eq!(parse_dec_u64("18446744073709551616"), None);
}
