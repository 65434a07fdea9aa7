//! The event record: one immutable change to one domain entity.
use vstd::prelude::*;
use crate::order::id_before;

verus! {

/// A change to a domain entity, produced once by one device.
///
/// `payload` holds the change as serialized JSON text, forwarded verbatim.
/// `timestamp` is the producing device's clock in milliseconds; it orders
/// events and need not be unique.
#[derive(Debug, Clone)]
pub struct Event {
    pub id: String,
    pub entity_id: String,
    pub entity_type: String,
    pub event_type: String,
    pub payload: String,
    pub timestamp: i64,
    pub device_id: String,
}

/// The seven fields of an event as mathematical values.
pub struct EventView {
    pub id: Seq<char>,
    pub entity_id: Seq<char>,
    pub entity_type: Seq<char>,
    pub event_type: Seq<char>,
    pub payload: Seq<char>,
    pub timestamp: i64,
    pub device_id: Seq<char>,
}

impl View for Event {
    type V = EventView;

    open spec fn view(&self) -> EventView {
        EventView {
            id: self.id@,
            entity_id: self.entity_id@,
            entity_type: self.entity_type@,
            event_type: self.event_type@,
            payload: self.payload@,
            timestamp: self.timestamp,
            device_id: self.device_id@,
        }
    }
}

/// The log order: by timestamp, and by identifier among equal timestamps.
pub open spec fn key_before(a: EventView, b: EventView) -> bool {
    a.timestamp < b.timestamp || (a.timestamp == b.timestamp && id_before(a.id, b.id))
}

/// The hyphenated text of a UUID.
pub uninterp spec fn uuid_text_of(x: u128) -> Seq<char>;

/// Relies on `uuid::Uuid::new_v4`: a random version-4 UUID, as its 128-bit value.
#[verifier::external_body]
pub(crate) fn fresh_uuid() -> (r: u128) {
    uuid::Uuid::new_v4().as_u128()
}

/// Relies on `uuid::Uuid::from_u128` and the `Display` of `Uuid`: the
/// hyphenated lowercase form, 36 characters long.
#[verifier::external_body]
fn uuid_text(x: u128) -> (r: String)
    ensures
        r@ == uuid_text_of(x),
        r@.len() == 36,
{
    uuid::Uuid::from_u128(x).to_string()
}

/// Relies on `chrono::Utc::now` and `DateTime::timestamp_millis`: the
/// current time in milliseconds since the Unix epoch.
#[verifier::external_body]
fn now_millis() -> (r: i64) {
    chrono::Utc::now().timestamp_millis()
}

impl Event {
    /// A new event with a fresh random identifier, stamped with the current time.
    pub fn new(
        entity_id: String,
        entity_type: String,
        event_type: String,
        payload: String,
        device_id: String,
    ) -> (r: Event)
        ensures
            r.id@.len() == 36,
            r.entity_id@ == entity_id@,
            r.entity_type@ == entity_type@,
            r.event_type@ == event_type@,
            r.payload@ == payload@,
            r.device_id@ == device_id@,
    {
        Event {
            id: uuid_text(fresh_uuid()),
            entity_id,
            entity_type,
            event_type,
            payload,
            timestamp: now_millis(),
            device_id,
        }
    }

    /// A field-by-field copy.
    pub fn duplicate(&self) -> (r: Event)
        ensures
            r@ == self@,
    {
        Event {
            id: self.id.clone(),
            entity_id: self.entity_id.clone(),
            entity_type: self.entity_type.clone(),
            event_type: self.event_type.clone(),
            payload: self.payload.clone(),
            timestamp: self.timestamp,
            device_id: self.device_id.clone(),
        }
    }

    /// Whether `self` sorts strictly before `other` in the log order.
    pub fn precedes(&self, other: &Event) -> (r: bool)
        ensures
            r == key_before(self@, other@),
    {
        if self.timestamp != other.timestamp {
            self.timestamp < other.timestamp
        } else {
            crate::order::id_precedes(self.id.as_str(), other.id.as_str())
        }
    }
}

} // verus!
