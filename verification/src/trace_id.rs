//! Trace identifiers: a tagged union of a 128-bit value and an opaque string,
//! with generation, an infallible text parse, a canonical rendering, and a
//! proved round trip.

use vstd::prelude::*;

use crate::uuidtext::is_uuid_text;
use crate::uuidtext::lemma_uuid_round_trip;
use crate::uuidtext::parse_uuid;
use crate::uuidtext::render_uuid;
use crate::uuidtext::uuid_text;
use crate::uuidtext::uuid_value;

verus! {

/// Identity of one distributed trace, shared by every span and event in it.
/// Either a self-generated 128-bit value or an externally supplied opaque
/// string.
#[derive(Eq, Hash, Clone, Debug)]
pub enum TraceId {
    Value(u128),
    Opaque(String),
}

/// The mathematical model of a trace identifier.
pub enum TraceIdV {
    Value(u128),
    Opaque(Seq<char>),
}

impl View for TraceId {
    type V = TraceIdV;

    open spec fn view(&self) -> TraceIdV {
        match self {
            TraceId::Value(u) => TraceIdV::Value(*u),
            TraceId::Opaque(s) => TraceIdV::Opaque(s@),
        }
    }
}

/// The rendered text of a trace identifier: the canonical hyphenated
/// lowercase layout for a 128-bit value, the string itself verbatim for an
/// opaque identifier.
pub open spec fn trace_id_to_text(v: TraceIdV) -> Seq<char> {
    match v {
        TraceIdV::Value(u) => uuid_text(u),
        TraceIdV::Opaque(t) => t,
    }
}

/// What parsing yields on each input: a 128-bit value when the text is in
/// canonical form, otherwise the whole input as an opaque identifier.
/// Parsing therefore never fails.
pub open spec fn trace_id_from_text(s: Seq<char>) -> TraceIdV {
    if is_uuid_text(s) {
        TraceIdV::Value(uuid_value(s) as u128)
    } else {
        TraceIdV::Opaque(s)
    }
}

/// Relies on uuid's `Uuid::new_v4`: a freshly generated random (version 4)
/// identifier, returned as its 128-bit value. Nothing is promised of the
/// value: it depends on the random source.
#[verifier::external_body]
fn fresh_uuid_value() -> (u: u128) {
    uuid::Uuid::new_v4().as_u128()
}

impl TraceId {
    /// The key under which this identifier is attached to outgoing records.
    pub fn meta_field_name() -> (r: &'static str)
        ensures
            r@ == "trace-id"@,
    {
        "trace-id"
    }

    /// A fresh trace identifier backed by a random 128-bit value.
    pub fn new() -> (r: TraceId)
        ensures
            r@ is Value,
    {
        TraceId::Value(fresh_uuid_value())
    }

    /// A fresh trace identifier backed by a random 128-bit value.
    /// Legacy alias of `new`.
    pub fn generate() -> (r: TraceId)
        ensures
            r@ is Value,
    {
        TraceId::Value(fresh_uuid_value())
    }

    /// A trace identifier carrying the given 128-bit value.
    pub fn from_value(u: u128) -> (r: TraceId)
        ensures
            r@ == TraceIdV::Value(u),
    {
        TraceId::Value(u)
    }

    /// A trace identifier carrying the given string verbatim.
    pub fn from_opaque(s: String) -> (r: TraceId)
        ensures
            r@ == TraceIdV::Opaque(s@),
    {
        TraceId::Opaque(s)
    }

    /// Parses a trace identifier from text; never fails.
    pub fn from_text(s: &str) -> (r: TraceId)
        ensures
            r@ == trace_id_from_text(s@),
    {
        match parse_uuid(s) {
            Some(u) => TraceId::Value(u),
            None => TraceId::Opaque(s.to_owned()),
        }
    }

    /// Renders the identifier as text.
    pub fn to_text(&self) -> (r: String)
        ensures
            r@ == trace_id_to_text(self@),
    {
        match self {
            TraceId::Value(u) => render_uuid(*u),
            TraceId::Opaque(s) => s.clone(),
        }
    }

    /// The 128-bit value behind the identifier: directly for a value-backed
    /// one, by parsing for an opaque one in canonical form; `None` otherwise.
    pub fn try_to_value(&self) -> (r: Option<u128>)
        ensures
            match self@ {
                TraceIdV::Value(u) => r == Some(u),
                TraceIdV::Opaque(t) => if is_uuid_text(t) {
                    r == Some(uuid_value(t) as u128)
                } else {
                    r is None
                },
            },
    {
        match self {
            TraceId::Value(u) => Some(*u),
            TraceId::Opaque(s) => parse_uuid(s.as_str()),
        }
    }
}

impl PartialEq for TraceId {
    fn eq(&self, other: &TraceId) -> (r: bool) {
        match (self, other) {
            (TraceId::Value(a), TraceId::Value(b)) => *a == *b,
            (TraceId::Opaque(s), TraceId::Opaque(t)) => *s == *t,
            _ => false,
        }
    }
}

impl vstd::std_specs::cmp::PartialEqSpecImpl for TraceId {
    open spec fn obeys_eq_spec() -> bool {
        true
    }

    open spec fn eq_spec(&self, other: &TraceId) -> bool {
        self@ == other@
    }
}

/// Round-trip law: parsing the rendered text of any trace identifier yields
/// an equal identifier — for value-backed identifiers always, for opaque ones
/// whenever the carried string is not itself in the canonical 128-bit layout
/// (such a string parses to the value-backed form instead).
pub proof fn lemma_trace_id_round_trip(v: TraceIdV)
    requires
        v matches TraceIdV::Opaque(t) ==> !is_uuid_text(t),
    ensures
        trace_id_from_text(trace_id_to_text(v)) == v,
{
    match v {
        TraceIdV::Value(u) => {
            lemma_uuid_round_trip(u);
        },
        TraceIdV::Opaque(t) => {
        },
    }
}

} // verus!
