use tracing_honeycomb::ParseSpanIdError;
use tracing_honeycomb::SpanId;
use tracing_honeycomb::TraceId;

#[test]
fn trace_id_round_trip_str() {
    let trace_id = TraceId::from_opaque(String::from("a string"));
    let s = trace_id.to_text();
    let res = TraceId::from_text(&s);
    assert_eq!(trace_id, res);
}

#[test]
fn trace_id_round_trip_empty_str() {
    let trace_id = TraceId::from_opaque(String::from(""));
    let s = trace_id.to_text();
    let res = TraceId::from_text(&s);
    assert_eq!(trace_id, res);
}

#[test]
fn trace_id_round_trip_u128() {
    let values: [u128; 5] = [0, 1, 42, 0x936da01f9abd4d9d80c702af85c822a8, u128::MAX];
    for v in values {
        let trace_id = TraceId::from_value(v);
        let s = trace_id.to_text();
        let res = TraceId::from_text(&s);
        assert_eq!(trace_id, res);
    }
}

#[test]
fn trace_id_round_trip_generated() {
    let a = TraceId::new();
    assert_eq!(a, TraceId::from_text(&a.to_text()));
    let b = TraceId::generate();
    assert_eq!(b, TraceId::from_text(&b.to_text()));
}

#[test]
fn trace_id_render_exact() {
    let trace_id = TraceId::from_value(0x936da01f9abd4d9d80c702af85c822a8);
    assert_eq!(trace_id.to_text(), "936da01f-9abd-4d9d-80c7-02af85c822a8");
    let zero = TraceId::from_value(0);
    assert_eq!(zero.to_text(), "00000000-0000-0000-0000-000000000000");
    let max = TraceId::from_value(u128::MAX);
    assert_eq!(max.to_text(), "ffffffff-ffff-ffff-ffff-ffffffffffff");
}

#[test]
fn trace_id_from_text_accepts_canonical_forms() {
    let lower = TraceId::from_text("936da01f-9abd-4d9d-80c7-02af85c822a8");
    assert_eq!(lower, TraceId::from_value(0x936da01f9abd4d9d80c702af85c822a8));
    // Uppercase digits parse to the same value; rendering is lowercase.
    let upper = TraceId::from_text("936DA01F-9ABD-4D9D-80C7-02AF85C822A8");
    assert_eq!(upper, lower);
    // Anything else is carried verbatim as an opaque identifier.
    let odd = TraceId::from_text("936da01f9abd4d9d80c702af85c822a8");
    assert_eq!(odd, TraceId::from_opaque(String::from("936da01f9abd4d9d80c702af85c822a8")));
}

#[test]
fn trace_id_try_to_value() {
    assert_eq!(TraceId::from_value(7).try_to_value(), Some(7));
    let opaque_uuid = TraceId::from_opaque(String::from("00000000-0000-0000-0000-000000000009"));
    assert_eq!(opaque_uuid.try_to_value(), Some(9));
    assert_eq!(TraceId::from_opaque(String::from("a string")).try_to_value(), None);
}

#[test]
fn meta_field_names() {
    assert_eq!(TraceId::meta_field_name(), "trace-id");
    assert_eq!(SpanId::meta_field_name(), "span-id");
}

#[test]
fn span_id_round_trip() {
    let cases: [(u64, u64); 4] = [(1, 1), (42, 7), (1, u64::MAX), (u64::MAX, u64::MAX)];
    for (a, b) in cases {
        let span_id = SpanId::new(a, b);
        let s = span_id.to_text();
        let res = SpanId::from_text(&s);
        assert_eq!(Ok(span_id), res);
    }
}

#[test]
fn span_id_render_exact() {
    assert_eq!(SpanId::new(1, 2).to_text(), "1-2");
    assert_eq!(SpanId::new(1234567890, 1).to_text(), "1234567890-1");
}

#[test]
fn span_id_parse_rejects_malformed() {
    // No separator: a format error.
    assert_eq!(SpanId::from_text("abc"), Err(ParseSpanIdError::FormatError));
    assert_eq!(SpanId::from_text(""), Err(ParseSpanIdError::FormatError));
    assert_eq!(SpanId::from_text("12"), Err(ParseSpanIdError::FormatError));
    // Empty or non-numeric fields: a numeric-parse error.
    assert_eq!(SpanId::from_text("1-"), Err(ParseSpanIdError::ParseIntError));
    assert_eq!(SpanId::from_text("-1"), Err(ParseSpanIdError::ParseIntError));
    assert_eq!(SpanId::from_text("a-1"), Err(ParseSpanIdError::ParseIntError));
    // The split is at the first separator, so the rest must be one number.
    assert_eq!(SpanId::from_text("1-2-3"), Err(ParseSpanIdError::ParseIntError));
    // Out of range for u64.
    assert_eq!(
        SpanId::from_text("18446744073709551616-1"),
        Err(ParseSpanIdError::ParseIntError)
    );
    assert_eq!(
        SpanId::from_text("18446744073709551615-1"),
        Ok(SpanId { local_id: u64::MAX, instance_id: 1 })
    );
    // 0 components are accepted at the parse level, though construction
    // requires components of at least 1.
    assert_eq!(SpanId::from_text("0-1"), Ok(SpanId { local_id: 0, instance_id: 1 }));
}
