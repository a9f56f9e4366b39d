//! Identifier model and reporting pipeline for a telemetry sink.
//!
//! The crate provides two identifier types with a lossless text round trip —
//! `TraceId` for one distributed trace and `SpanId` for one span within a
//! trace — together with `TelemetrySink`, which decides by a deterministic
//! sampling predicate whether a trace is reported, flattens spans and events
//! into key/value records, and hands them to a submission client.

pub mod decimal;
pub mod honey;
pub mod record;
pub mod sink;
pub mod span_id;
pub(crate) mod strutil;
pub mod trace_id;
pub mod uuidtext;

pub use honey::HoneyClient;
pub use honey::HoneycombTelemetry;
pub use record::SpanEvent;
pub use record::FieldV;
pub use record::FieldValue;
pub use record::Record;
pub use record::Span;
pub use record::Visitor;
pub use sink::MemoryClient;
pub use sink::SinkConfigError;
pub use sink::SubmitClient;
pub use sink::SubmitError;
pub use sink::TelemetrySink;
pub use span_id::ParseSpanIdError;
pub use span_id::SpanId;
pub use trace_id::TraceId;
pub use trace_id::TraceIdV;
