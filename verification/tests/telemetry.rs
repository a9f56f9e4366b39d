use tracing_honeycomb::FieldValue;
use tracing_honeycomb::MemoryClient;
use tracing_honeycomb::Record;
use tracing_honeycomb::SubmitClient;
use tracing_honeycomb::SubmitError;
use tracing_honeycomb::SinkConfigError;
use tracing_honeycomb::Span;
use tracing_honeycomb::SpanEvent;
use tracing_honeycomb::SpanId;
use tracing_honeycomb::TelemetrySink;
use tracing_honeycomb::TraceId;
use tracing_honeycomb::Visitor;

fn make_span(trace_id: TraceId, visitor: Visitor) -> Span {
    Span {
        trace_id,
        span_id: SpanId::new(3, 4),
        parent_id: Some(SpanId::new(1, 1)),
        name: String::from("request"),
        visitor,
    }
}

fn make_event(trace_id: TraceId, visitor: Visitor) -> SpanEvent {
    SpanEvent {
        trace_id,
        span_id: SpanId::new(3, 4),
        name: String::from("lookup"),
        visitor,
    }
}

#[test]
fn memory_client_reports_rejection() {
    let mut accepting = MemoryClient::new(true);
    let record = Record {
        entries: vec![(String::from("key"), FieldValue::Truth(true))],
    };
    assert_eq!(accepting.submit(record), Ok(()));
    let mut rejecting = MemoryClient::new(false);
    let record = Record {
        entries: vec![(String::from("key"), FieldValue::Truth(true))],
    };
    assert_eq!(rejecting.submit(record), Err(SubmitError::Rejected));
    assert_eq!(rejecting.attempts.len(), 1);
}

#[test]
fn zero_denominator_is_rejected_at_construction() {
    let r = TelemetrySink::new(MemoryClient::new(true), Some(0));
    assert_eq!(r.err(), Some(SinkConfigError::ZeroSampleDenominator));
    assert!(TelemetrySink::new(MemoryClient::new(true), Some(1)).is_ok());
    assert!(TelemetrySink::new(MemoryClient::new(true), None).is_ok());
}

#[test]
fn sampling_determinism() {
    let none = TelemetrySink::new(MemoryClient::new(true), None).ok().unwrap();
    let one = TelemetrySink::new(MemoryClient::new(true), Some(1)).ok().unwrap();
    let two = TelemetrySink::new(MemoryClient::new(true), Some(2)).ok().unwrap();
    let even = TraceId::from_value(4);
    let odd = TraceId::from_value(3);
    let opaque = TraceId::from_opaque(String::from("external-trace"));
    for _ in 0..3 {
        assert!(none.should_report(&even));
        assert!(none.should_report(&odd));
        assert!(none.should_report(&opaque));
        assert!(one.should_report(&even));
        assert!(one.should_report(&odd));
        assert!(two.should_report(&even));
        assert!(!two.should_report(&odd));
        assert!(two.should_report(&opaque));
    }
}

#[test]
fn all_or_nothing_per_trace() {
    // Sampled out: several spans and events of one trace, none reported.
    let mut sink = TelemetrySink::new(MemoryClient::new(true), Some(2)).ok().unwrap();
    let out_trace = TraceId::from_value(3);
    sink.report_span(make_span(out_trace.clone(), Visitor::new()));
    sink.report_span(make_span(out_trace.clone(), Visitor::new()));
    sink.report_event(make_event(out_trace.clone(), Visitor::new()));
    assert_eq!(sink.client.attempts.len(), 0);
    // Sampled in: every span and event of the trace is reported.
    let in_trace = TraceId::from_value(4);
    sink.report_span(make_span(in_trace.clone(), Visitor::new()));
    sink.report_span(make_span(in_trace.clone(), Visitor::new()));
    sink.report_event(make_event(in_trace.clone(), Visitor::new()));
    assert_eq!(sink.client.attempts.len(), 3);
}

#[test]
fn submission_failure_is_non_fatal() {
    // A client that always fails: reporting completes, the record is dropped
    // after the attempt, and the sink stays usable.
    let mut sink = TelemetrySink::new(MemoryClient::new(false), None).ok().unwrap();
    sink.report_span(make_span(TraceId::from_value(1), Visitor::new()));
    sink.report_event(make_event(TraceId::from_value(1), Visitor::new()));
    assert_eq!(sink.client.attempts.len(), 2);
    sink.report_span(make_span(TraceId::from_value(2), Visitor::new()));
    assert_eq!(sink.client.attempts.len(), 3);
}

#[test]
fn record_completeness() {
    let mut sink = TelemetrySink::new(MemoryClient::new(true), None).ok().unwrap();
    let mut visitor = sink.create_record_visitor();
    visitor.record_field(String::from("key"), FieldValue::Text(String::from("val")));
    visitor.record_field(String::from("count"), FieldValue::Unsigned(5));
    visitor.record_field(String::from("offset"), FieldValue::Signed(-2));
    visitor.record_field(String::from("ok"), FieldValue::Truth(true));
    sink.report_span(make_span(TraceId::from_value(1), visitor));
    assert_eq!(sink.client.attempts.len(), 1);
    let entries = &sink.client.attempts[0].entries;
    let expected: [(&str, FieldValue); 8] = [
        ("key", FieldValue::Text(String::from("val"))),
        ("count", FieldValue::Unsigned(5)),
        ("offset", FieldValue::Signed(-2)),
        ("ok", FieldValue::Truth(true)),
        (
            "trace-id",
            FieldValue::Text(String::from("00000000-0000-0000-0000-000000000001")),
        ),
        ("span-id", FieldValue::Text(String::from("3-4"))),
        ("name", FieldValue::Text(String::from("request"))),
        ("parent-id", FieldValue::Text(String::from("1-1"))),
    ];
    assert_eq!(entries.len(), expected.len());
    for (i, (key, value)) in expected.iter().enumerate() {
        assert_eq!(entries[i].0.as_str(), *key);
        assert_eq!(&entries[i].1, value);
    }
}

#[test]
fn event_record_completeness() {
    let mut sink = TelemetrySink::new(MemoryClient::new(true), None).ok().unwrap();
    let mut visitor = sink.create_record_visitor();
    visitor.record_field(String::from("key"), FieldValue::Text(String::from("val")));
    sink.report_event(make_event(TraceId::from_value(2), visitor));
    assert_eq!(sink.client.attempts.len(), 1);
    let entries = &sink.client.attempts[0].entries;
    assert_eq!(entries.len(), 4);
    assert_eq!(entries[0].0.as_str(), "key");
    assert_eq!(entries[1].0.as_str(), "trace-id");
    assert_eq!(
        entries[1].1,
        FieldValue::Text(String::from("00000000-0000-0000-0000-000000000002"))
    );
    assert_eq!(entries[2].0.as_str(), "span-id");
    assert_eq!(entries[2].1, FieldValue::Text(String::from("3-4")));
    assert_eq!(entries[3].0.as_str(), "name");
    assert_eq!(entries[3].1, FieldValue::Text(String::from("lookup")));
}
