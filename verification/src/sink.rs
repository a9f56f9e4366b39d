//! The telemetry sink: a deterministic per-trace sampling predicate and the
//! reporting pipeline that flattens spans and events and hands the records to
//! a submission client. Submission failures are logged and dropped, never
//! propagated.

use vstd::prelude::*;

use std::io::Write;

use crate::record::event_record;
use crate::record::span_record;
use crate::record::spec_event_record;
use crate::record::spec_span_record;
use crate::record::SpanEvent;
use crate::record::FieldV;
use crate::record::Record;
use crate::record::Span;
use crate::record::Visitor;
use crate::trace_id::TraceId;
use crate::trace_id::TraceIdV;

verus! {

/// The submission client refused the record (for example, its buffer is
/// full). The record is lost; the client stays usable.
#[derive(PartialEq, Eq, Structural, Clone, Copy, Debug)]
pub enum SubmitError {
    Rejected,
}

/// Invalid sink configuration, rejected at construction time.
#[derive(PartialEq, Eq, Structural, Clone, Copy, Debug)]
pub enum SinkConfigError {
    /// A sampling denominator of zero would make the sampling predicate
    /// undefined.
    ZeroSampleDenominator,
}

/// A submission client: accepts one flat record at a time, buffering and
/// transmission being its own concern. `submitted` models the sequence of
/// records handed over so far, in order; every attempt is handed over,
/// whether or not the client accepts it.
pub trait SubmitClient: Sized {
    spec fn submitted(&self) -> Seq<Seq<(Seq<char>, FieldV)>>;

    fn submit(&mut self, record: Record) -> (r: Result<(), SubmitError>)
        ensures
            final(self).submitted() == old(self).submitted().push(record@),
    ;
}

/// An in-memory submission client: keeps every record handed to it and, when
/// configured to reject, fails each submission after recording the attempt.
pub struct MemoryClient {
    pub accept: bool,
    pub attempts: Vec<Record>,
}

impl MemoryClient {
    /// A fresh client with nothing submitted; `accept` decides whether
    /// submissions succeed or are rejected.
    pub fn new(accept: bool) -> (c: MemoryClient)
        ensures
            c.submitted() == Seq::<Seq<(Seq<char>, FieldV)>>::empty(),
            c.accept == accept,
    {
        let c = MemoryClient { accept, attempts: Vec::new() };
        proof {
            assert(c.submitted() =~= Seq::<Seq<(Seq<char>, FieldV)>>::empty());
        }
        c
    }
}

impl SubmitClient for MemoryClient {
    open spec fn submitted(&self) -> Seq<Seq<(Seq<char>, FieldV)>> {
        self.attempts@.map_values(|r: Record| r@)
    }

    fn submit(&mut self, record: Record) -> (r: Result<(), SubmitError>)
        ensures
            final(self).accept == old(self).accept,
            r is Ok <==> old(self).accept,
    {
        let ghost rv = record@;
        self.attempts.push(record);
        proof {
            assert(final(self).submitted() =~= old(self).submitted().push(rv));
        }
        if self.accept {
            Ok(())
        } else {
            Err(SubmitError::Rejected)
        }
    }
}

/// The sampling predicate: with no denominator every trace is reported; with
/// denominator `d`, a value-backed trace is reported exactly when its value
/// is divisible by `d`. An opaque (string-backed) trace identifier carries no
/// numeric value, so sampling does not apply to it and it is always reported.
pub open spec fn spec_should_report(sample_rate: Option<u128>, t: TraceIdV) -> bool {
    match sample_rate {
        None => true,
        Some(d) => match t {
            TraceIdV::Value(u) => (u as nat) % (d as nat) == 0,
            TraceIdV::Opaque(_) => true,
        },
    }
}

/// Relies on std's `io::stderr` (with the `writeln` macro): prints one
/// diagnostic line to the process's standard error stream.
#[verifier::external_body]
fn log_submission_failure() {
    let _ = writeln!(std::io::stderr(), "error sending telemetry record, dropping it");
}

/// The telemetry sink: one submission client and an optional sampling
/// denominator, fixed at construction.
pub struct TelemetrySink<C: SubmitClient> {
    pub client: C,
    pub sample_rate: Option<u128>,
}

impl<C: SubmitClient> TelemetrySink<C> {
    /// Well-formed: the denominator, if present, is nonzero. Established at
    /// construction and preserved by every method.
    pub open spec fn wf(&self) -> bool {
        self.sample_rate != Some(0u128)
    }

    /// Builds a sink; a zero sampling denominator is a configuration error.
    pub fn new(client: C, sample_rate: Option<u128>) -> (r: Result<
        TelemetrySink<C>,
        SinkConfigError,
    >)
        ensures
            match r {
                Ok(s) => sample_rate != Some(0u128) && s.client == client && s.sample_rate
                    == sample_rate && s.wf(),
                Err(e) => sample_rate == Some(0u128) && e == SinkConfigError::ZeroSampleDenominator,
            },
    {
        match sample_rate {
            Some(d) => {
                if d == 0 {
                    Err(SinkConfigError::ZeroSampleDenominator)
                } else {
                    Ok(TelemetrySink { client, sample_rate })
                }
            },
            None => Ok(TelemetrySink { client, sample_rate }),
        }
    }

    /// A fresh visitor for flattening one span's or event's fields.
    pub fn create_record_visitor(&self) -> (v: Visitor)
        ensures
            v@ == Seq::<(Seq<char>, FieldV)>::empty(),
    {
        Visitor::new()
    }

    /// The deterministic, side-effect-free sampling decision for one trace.
    pub fn should_report(&self, trace_id: &TraceId) -> (r: bool)
        requires
            self.wf(),
        ensures
            r == spec_should_report(self.sample_rate, trace_id@),
    {
        match self.sample_rate {
            None => true,
            Some(d) => match trace_id {
                TraceId::Value(u) => *u % d == 0,
                TraceId::Opaque(_) => true,
            },
        }
    }

    /// Reports one completed span: if its trace is sampled in, exactly its
    /// flattened record is handed to the submission client; if not, the sink
    /// is left untouched. A submission failure is logged and dropped.
    pub fn report_span(&mut self, span: Span)
        requires
            old(self).wf(),
        ensures
            final(self).wf(),
            final(self).sample_rate == old(self).sample_rate,
            spec_should_report(old(self).sample_rate, span.trace_id@)
                ==> final(self).client.submitted()
                == old(self).client.submitted().push(spec_span_record(span)),
            !spec_should_report(old(self).sample_rate, span.trace_id@)
                ==> *final(self) == *old(self),
    {
        if self.should_report(&span.trace_id) {
            let record = span_record(span);
            match self.client.submit(record) {
                Ok(_) => {},
                Err(_) => {
                    log_submission_failure();
                },
            }
        }
    }

    /// Reports one event, under the same contract as `report_span`.
    pub fn report_event(&mut self, event: SpanEvent)
        requires
            old(self).wf(),
        ensures
            final(self).wf(),
            final(self).sample_rate == old(self).sample_rate,
            spec_should_report(old(self).sample_rate, event.trace_id@)
                ==> final(self).client.submitted()
                == old(self).client.submitted().push(spec_event_record(event)),
            !spec_should_report(old(self).sample_rate, event.trace_id@)
                ==> *final(self) == *old(self),
    {
        if self.should_report(&event.trace_id) {
            let record = event_record(event);
            match self.client.submit(record) {
                Ok(_) => {},
                Err(_) => {
                    log_submission_failure();
                },
            }
        }
    }
}

/// Sampling determinism: the decision is a function of the denominator and
/// the trace identifier alone; without a denominator, and with denominator 1,
/// every trace is reported; with denominator 2 a value-backed trace is
/// reported exactly when its value is even.
pub proof fn lemma_sampling_determinism(t: TraceIdV)
    ensures
        spec_should_report(None, t),
        spec_should_report(Some(1u128), t),
        t matches TraceIdV::Value(u) ==> (spec_should_report(Some(2u128), t) <==> (u as nat) % 2
            == 0),
{
    match t {
        TraceIdV::Value(u) => {
            assert((u as nat) % 1 == 0) by (nonlinear_arith);
        },
        TraceIdV::Opaque(_) => {},
    }
}

/// All-or-nothing per trace: two spans or events carrying equal trace
/// identifiers get the same sampling decision, so a sampled-in trace has all
/// of its records reported and a sampled-out trace none.
pub proof fn lemma_uniform_sampling(sample_rate: Option<u128>, a: TraceIdV, b: TraceIdV)
    requires
        a == b,
    ensures
        spec_should_report(sample_rate, a) == spec_should_report(sample_rate, b),
{
}

} // verus!
