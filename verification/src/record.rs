//! Flat key/value records: the typed field values a visitor captures, the
//! span and event envelopes, and the flattening that always attaches the
//! trace and span identifiers under their meta field names.

use vstd::prelude::*;

use crate::span_id::span_id_text;
use crate::span_id::SpanId;
use crate::trace_id::trace_id_to_text;
use crate::trace_id::TraceId;

verus! {

/// One typed field value captured from a span or event.
#[derive(PartialEq, Eq, Clone, Debug)]
pub enum FieldValue {
    Text(String),
    Unsigned(u64),
    Signed(i64),
    Truth(bool),
}

/// The mathematical model of one field value.
pub enum FieldV {
    Text(Seq<char>),
    Unsigned(u64),
    Signed(i64),
    Truth(bool),
}

impl View for FieldValue {
    type V = FieldV;

    open spec fn view(&self) -> FieldV {
        match self {
            FieldValue::Text(s) => FieldV::Text(s@),
            FieldValue::Unsigned(u) => FieldV::Unsigned(*u),
            FieldValue::Signed(i) => FieldV::Signed(*i),
            FieldValue::Truth(b) => FieldV::Truth(*b),
        }
    }
}

/// The model of a flat record: its key/value pairs in order.
pub open spec fn entries_view(entries: Seq<(String, FieldValue)>) -> Seq<(Seq<char>, FieldV)> {
    entries.map_values(|e: (String, FieldValue)| (e.0@, e.1@))
}

/// Accumulates the typed fields of one span or event, in capture order.
#[derive(PartialEq, Eq, Clone, Debug)]
pub struct Visitor {
    pub fields: Vec<(String, FieldValue)>,
}

impl View for Visitor {
    type V = Seq<(Seq<char>, FieldV)>;

    open spec fn view(&self) -> Seq<(Seq<char>, FieldV)> {
        entries_view(self.fields@)
    }
}

impl Visitor {
    /// A fresh, empty accumulator.
    pub fn new() -> (v: Visitor)
        ensures
            v@ == Seq::<(Seq<char>, FieldV)>::empty(),
    {
        let v = Visitor { fields: Vec::new() };
        proof {
            assert(v@ =~= Seq::<(Seq<char>, FieldV)>::empty());
        }
        v
    }

    /// Records one field.
    pub fn record_field(&mut self, key: String, value: FieldValue)
        ensures
            final(self)@ == old(self)@.push((key@, value@)),
    {
        let ghost k = key@;
        let ghost v = value@;
        self.fields.push((key, value));
        proof {
            assert(final(self)@ =~= old(self)@.push((k, v)));
        }
    }
}

/// A flat key/value record, as handed to the submission client.
#[derive(PartialEq, Eq, Clone, Debug)]
pub struct Record {
    pub entries: Vec<(String, FieldValue)>,
}

impl View for Record {
    type V = Seq<(Seq<char>, FieldV)>;

    open spec fn view(&self) -> Seq<(Seq<char>, FieldV)> {
        entries_view(self.entries@)
    }
}

/// A completed span: identifiers, parent linkage, a name, and the fields the
/// visitor captured while the span was open.
#[derive(Clone, Debug)]
pub struct Span {
    pub trace_id: TraceId,
    pub span_id: SpanId,
    pub parent_id: Option<SpanId>,
    pub name: String,
    pub visitor: Visitor,
}

/// A point-in-time event within a span, sharing the span's identifiers.
#[derive(Clone, Debug)]
pub struct SpanEvent {
    pub trace_id: TraceId,
    pub span_id: SpanId,
    pub name: String,
    pub visitor: Visitor,
}

/// The flattened record of a span: the captured fields, then the trace and
/// span identifiers under their meta field names, the name, and the parent
/// identifier when the span has one.
pub open spec fn spec_span_record(s: Span) -> Seq<(Seq<char>, FieldV)> {
    s.visitor@.push(("trace-id"@, FieldV::Text(trace_id_to_text(s.trace_id@)))).push(
        ("span-id"@, FieldV::Text(span_id_text(s.span_id.local_id, s.span_id.instance_id))),
    ).push(("name"@, FieldV::Text(s.name@))) + (match s.parent_id {
        Some(p) => seq![(("parent-id"@, FieldV::Text(span_id_text(p.local_id, p.instance_id))))],
        None => Seq::empty(),
    })
}

/// The flattened record of an event: the captured fields, then the trace and
/// span identifiers under their meta field names, and the name.
pub open spec fn spec_event_record(e: SpanEvent) -> Seq<(Seq<char>, FieldV)> {
    e.visitor@.push(("trace-id"@, FieldV::Text(trace_id_to_text(e.trace_id@)))).push(
        ("span-id"@, FieldV::Text(span_id_text(e.span_id.local_id, e.span_id.instance_id))),
    ).push(("name"@, FieldV::Text(e.name@)))
}

/// Flattens a span into its record.
pub fn span_record(span: Span) -> (r: Record)
    ensures
        r@ == spec_span_record(span),
{
    let trace_text = span.trace_id.to_text();
    let span_text = span.span_id.to_text();
    let mut entries = span.visitor.fields;
    entries.push((String::from_str("trace-id"), FieldValue::Text(trace_text)));
    entries.push((String::from_str("span-id"), FieldValue::Text(span_text)));
    entries.push((String::from_str("name"), FieldValue::Text(span.name)));
    match span.parent_id {
        Some(p) => {
            let parent_text = p.to_text();
            entries.push((String::from_str("parent-id"), FieldValue::Text(parent_text)));
        },
        None => {},
    }
    let r = Record { entries };
    proof {
        assert(r@ =~= spec_span_record(span));
    }
    r
}

/// Flattens an event into its record.
pub fn event_record(event: SpanEvent) -> (r: Record)
    ensures
        r@ == spec_event_record(event),
{
    let trace_text = event.trace_id.to_text();
    let span_text = event.span_id.to_text();
    let mut entries = event.visitor.fields;
    entries.push((String::from_str("trace-id"), FieldValue::Text(trace_text)));
    entries.push((String::from_str("span-id"), FieldValue::Text(span_text)));
    entries.push((String::from_str("name"), FieldValue::Text(event.name)));
    let r = Record { entries };
    proof {
        assert(r@ =~= spec_event_record(event));
    }
    r
}

/// Record completeness, spans: the flattened record carries the trace and
/// span identifiers under their meta field names and every captured field,
/// each unchanged and in capture order.
pub proof fn lemma_span_record_complete(s: Span)
    ensures
        spec_span_record(s).contains(("trace-id"@, FieldV::Text(trace_id_to_text(s.trace_id@)))),
        spec_span_record(s).contains(
            ("span-id"@, FieldV::Text(span_id_text(s.span_id.local_id, s.span_id.instance_id))),
        ),
        spec_span_record(s).len() >= s.visitor@.len(),
        forall|i: int| 0 <= i < s.visitor@.len() ==> spec_span_record(s)[i] == s.visitor@[i],
{
    let r = spec_span_record(s);
    let n = s.visitor@.len() as int;
    assert(r[n] == ("trace-id"@, FieldV::Text(trace_id_to_text(s.trace_id@))));
    assert(r[n + 1] == ("span-id"@, FieldV::Text(
        span_id_text(s.span_id.local_id, s.span_id.instance_id),
    )));
}

/// Record completeness, events: as for spans.
pub proof fn lemma_event_record_complete(e: SpanEvent)
    ensures
        spec_event_record(e).contains(("trace-id"@, FieldV::Text(trace_id_to_text(e.trace_id@)))),
        spec_event_record(e).contains(
            ("span-id"@, FieldV::Text(span_id_text(e.span_id.local_id, e.span_id.instance_id))),
        ),
        spec_event_record(e).len() >= e.visitor@.len(),
        forall|i: int| 0 <= i < e.visitor@.len() ==> spec_event_record(e)[i] == e.visitor@[i],
{
    let r = spec_event_record(e);
    let n = e.visitor@.len() as int;
    assert(r[n] == ("trace-id"@, FieldV::Text(trace_id_to_text(e.trace_id@))));
    assert(r[n + 1] == ("span-id"@, FieldV::Text(
        span_id_text(e.span_id.local_id, e.span_id.instance_id),
    )));
}

} // verus!
