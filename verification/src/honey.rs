//! The libhoney-backed submission client: declarations of the outside types,
//! one trusted wrapper per outside call, and a verified `SubmitClient`
//! implementation that hands each record's fields to an outgoing event.

use vstd::prelude::*;

use libhoney::FieldHolder;

use crate::record::FieldV;
use crate::record::FieldValue;
use crate::record::Record;
use crate::sink::SubmitClient;
use crate::sink::SubmitError;

verus! {

#[verifier::external_type_specification]
#[verifier::external_body]
pub struct ExConfig(libhoney::Config);

/// Holds the libhoney client. Its declaration cannot be given to Verus (the
/// `Sender` bound on its type parameter would need the outside trait), so the
/// whole holder is opaque and every access goes through a trusted wrapper.
#[verifier::external_body]
struct ClientHandle {
    inner: libhoney::Client<libhoney::transmission::Transmission>,
}

#[verifier::external_type_specification]
#[verifier::external_body]
pub struct ExEvent(libhoney::Event);

#[verifier::external_type_specification]
#[verifier::external_body]
pub struct ExError(libhoney::Error);

#[verifier::external_type_specification]
#[verifier::external_body]
pub struct ExValue(serde_json::Value);

/// Relies on libhoney's `init`: builds a client from the given configuration
/// and starts its background transmission (aborting the process if the
/// transmission cannot be started).
#[verifier::external_body]
fn init_client(cfg: libhoney::Config) -> (c: ClientHandle) {
    ClientHandle { inner: libhoney::init(cfg) }
}

/// Relies on libhoney's `Client::new_event`: a fresh outgoing event,
/// prepopulated with the fields in the client's scope.
#[verifier::external_body]
fn client_new_event(c: &ClientHandle) -> (e: libhoney::Event) {
    c.inner.new_event()
}

/// Relies on libhoney's `FieldHolder::add_field`: sets the named field on the
/// event (events already sent ignore further fields; ours are not yet sent).
#[verifier::external_body]
fn event_add_field(e: &mut libhoney::Event, key: &str, value: serde_json::Value) {
    e.add_field(key, value);
}

/// Relies on libhoney's `Event::send`: enqueues the event on the client's
/// transmission, returning an error when the event has no fields or a
/// required option (api host, api key, dataset) is missing; a client-level
/// sample rate above 1 may make the client itself drop the event, and a full
/// queue is dropped by the transmission, reported on its response channel.
#[verifier::external_body]
fn event_send(e: &mut libhoney::Event, c: &mut ClientHandle) -> (r: Result<(), libhoney::Error>) {
    e.send(&mut c.inner)
}

/// Relies on serde_json's `From<&str> for Value`: a JSON string value.
#[verifier::external_body]
fn json_text(v: &str) -> (r: serde_json::Value) {
    serde_json::Value::from(v)
}

/// Relies on serde_json's `From<u64> for Value`: a JSON number value.
#[verifier::external_body]
fn json_unsigned(v: u64) -> (r: serde_json::Value) {
    serde_json::Value::from(v)
}

/// Relies on serde_json's `From<i64> for Value`: a JSON number value.
#[verifier::external_body]
fn json_signed(v: i64) -> (r: serde_json::Value) {
    serde_json::Value::from(v)
}

/// Relies on serde_json's `From<bool> for Value`: a JSON boolean value.
#[verifier::external_body]
fn json_truth(v: bool) -> (r: serde_json::Value) {
    serde_json::Value::from(v)
}

/// Converts one captured field value into the submission client's value type.
fn to_json_value(v: &FieldValue) -> serde_json::Value {
    match v {
        FieldValue::Text(s) => json_text(s.as_str()),
        FieldValue::Unsigned(u) => json_unsigned(*u),
        FieldValue::Signed(i) => json_signed(*i),
        FieldValue::Truth(b) => json_truth(*b),
    }
}

/// A submission client backed by a libhoney client. Submissions are
/// serialized by exclusive access (`&mut`): a holder performs the whole
/// construct-and-submit sequence before anyone else can begin one.
pub struct HoneyClient {
    client: ClientHandle,
    history: Ghost<Seq<Seq<(Seq<char>, FieldV)>>>,
}

impl HoneyClient {
    /// Builds the client from a libhoney configuration and starts its
    /// transmission.
    pub fn new(cfg: libhoney::Config) -> (c: HoneyClient)
        ensures
            c.submitted() == Seq::<Seq<(Seq<char>, FieldV)>>::empty(),
    {
        HoneyClient { client: init_client(cfg), history: Ghost(Seq::empty()) }
    }
}

/// The sink backed by the libhoney submission client.
pub type HoneycombTelemetry = crate::sink::TelemetrySink<HoneyClient>;

impl crate::sink::TelemetrySink<HoneyClient> {
    /// Builds the libhoney-backed sink straight from a libhoney
    /// configuration: starts the client and validates the sampling
    /// denominator.
    pub fn with_config(cfg: libhoney::Config, sample_rate: Option<u128>) -> (r: Result<
        HoneycombTelemetry,
        crate::sink::SinkConfigError,
    >)
        ensures
            match r {
                Ok(s) => sample_rate != Some(0u128) && s.sample_rate == sample_rate && s.wf()
                    && s.client.submitted() == Seq::<Seq<(Seq<char>, FieldV)>>::empty(),
                Err(e) => sample_rate == Some(0u128) && e
                    == crate::sink::SinkConfigError::ZeroSampleDenominator,
            },
    {
        crate::sink::TelemetrySink::new(HoneyClient::new(cfg), sample_rate)
    }
}

impl SubmitClient for HoneyClient {
    closed spec fn submitted(&self) -> Seq<Seq<(Seq<char>, FieldV)>> {
        self.history@
    }

    /// Builds one outgoing event carrying exactly the record's fields and
    /// enqueues it; any refusal by the client is reported as `Rejected`.
    fn submit(&mut self, record: Record) -> (r: Result<(), SubmitError>) {
        let mut ev = client_new_event(&self.client);
        let n: usize = record.entries.len();
        let mut i: usize = 0;
        while i < n
            invariant
                n == record.entries.len(),
            decreases n - i,
        {
            let value = to_json_value(&record.entries[i].1);
            event_add_field(&mut ev, record.entries[i].0.as_str(), value);
            i = i + 1;
        }
        self.history = Ghost(self.history@.push(record@));
        let sent = event_send(&mut ev, &mut self.client);
        match sent {
            Ok(_) => Ok(()),
            Err(_) => Err(SubmitError::Rejected),
        }
    }
}

} // verus!
