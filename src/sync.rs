//! The sync endpoint: push (`submit`) and pull (`fetch_since`) over the
//! event store. It holds no state of its own between calls.
use vstd::prelude::*;
use crate::event::{Event, EventView};
use crate::store::{get_events_since, inserted, newer_than, EventStore};

verus! {

/// Why an event envelope was refused.
#[derive(Debug, Clone, Copy, PartialEq, Eq, Structural)]
pub enum EnvelopeError {
    MissingId,
    MissingEntityId,
    MissingEntityType,
    MissingEventType,
    MissingDeviceId,
    MalformedPayload,
}

/// The query of a pull: events strictly newer than `since` are wanted.
#[derive(Debug, Clone, Copy, PartialEq, Eq, Structural)]
pub struct SinceQuery {
    pub since: i64,
}

/// Whether `s` is one well-formed JSON value.
pub uninterp spec fn is_json_text(s: Seq<char>) -> bool;

/// Relies on `serde_json::from_str` into `serde_json::Value`: it succeeds
/// exactly on text that holds one JSON value.
#[verifier::external_body]
fn parses_as_json(text: &str) -> (r: bool)
    ensures
        r == is_json_text(text@),
{
    serde_json::from_str::<serde_json::Value>(text).is_ok()
}

/// The first defect of an envelope, given whether its payload is valid
/// JSON, in the order the fields are checked; `None` when it is sound.
pub open spec fn envelope_defect(e: EventView, payload_ok: bool) -> Option<EnvelopeError> {
    if e.id.len() == 0 {
        Some(EnvelopeError::MissingId)
    } else if e.entity_id.len() == 0 {
        Some(EnvelopeError::MissingEntityId)
    } else if e.entity_type.len() == 0 {
        Some(EnvelopeError::MissingEntityType)
    } else if e.event_type.len() == 0 {
        Some(EnvelopeError::MissingEventType)
    } else if e.device_id.len() == 0 {
        Some(EnvelopeError::MissingDeviceId)
    } else if !payload_ok {
        Some(EnvelopeError::MalformedPayload)
    } else {
        None
    }
}

/// The outcome of a check given the defect found, if any.
pub open spec fn check_outcome(d: Option<EnvelopeError>) -> Result<(), EnvelopeError> {
    match d {
        Some(err) => Err(err),
        None => Ok(()),
    }
}

/// Checks the envelope of `event`, given whether its payload parsed as JSON.
pub fn check_envelope_with(event: &Event, payload_ok: bool) -> (r: Result<(), EnvelopeError>)
    ensures
        r == check_outcome(envelope_defect(event@, payload_ok)),
{
    if event.id.as_str().is_empty() {
        Err(EnvelopeError::MissingId)
    } else if event.entity_id.as_str().is_empty() {
        Err(EnvelopeError::MissingEntityId)
    } else if event.entity_type.as_str().is_empty() {
        Err(EnvelopeError::MissingEntityType)
    } else if event.event_type.as_str().is_empty() {
        Err(EnvelopeError::MissingEventType)
    } else if event.device_id.as_str().is_empty() {
        Err(EnvelopeError::MissingDeviceId)
    } else if !payload_ok {
        Err(EnvelopeError::MalformedPayload)
    } else {
        Ok(())
    }
}

/// Checks the envelope of `event`: identifiers and tags non-empty, payload
/// one JSON value.
pub fn check_envelope(event: &Event) -> (r: Result<(), EnvelopeError>)
    ensures
        r == check_outcome(envelope_defect(event@, is_json_text(event@.payload))),
{
    let payload_ok = parses_as_json(event.payload.as_str());
    check_envelope_with(event, payload_ok)
}

/// Pushes `event`. A sound envelope is stored unless its identifier is
/// already held; a duplicate is success all the same. A malformed one is
/// refused and the store is left as it was.
pub fn submit(store: &mut EventStore, event: Event) -> (r: Result<(), EnvelopeError>)
    requires
        old(store).wf(),
    ensures
        final(store).wf(),
        r == check_outcome(envelope_defect(event@, is_json_text(event@.payload))),
        r is Ok ==> final(store)@ == inserted(old(store)@, event@),
        r is Err ==> final(store)@ == old(store)@,
{
    match check_envelope(&event) {
        Err(err) => Err(err),
        Ok(()) => {
            store.insert(event);
            Ok(())
        },
    }
}

/// Pulls the events strictly newer than `query.since`, in log order.
pub fn fetch_since(store: &EventStore, query: &SinceQuery) -> (r: Vec<Event>)
    ensures
        r@.map_values(|e: Event| e@) == newer_than(store@, query.since),
{
    get_events_since(store, query.since)
}

} // verus!
