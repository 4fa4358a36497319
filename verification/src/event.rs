//! The event: one decoded record, tagged with its kind.

use vstd::prelude::*;
use crate::model::{EventKind, EventView};
use crate::records::{
    CallbackUpdated, CalledBack, Fulfilled, Registered, Requested, RequestedAlt, Responded,
    Transferred, Withdrawn,
};

verus! {

/// The mark of bytes that start with no known discriminator.
#[derive(Debug, Clone, Copy, PartialEq, Eq, Structural)]
pub struct UnknownEvent;

/// Why bytes could not be read as an event.
#[derive(Debug, Clone, Copy, PartialEq, Eq, Structural)]
pub enum DispatchError {
    /// No discriminator of the registry starts the bytes.
    UnknownEventKind(UnknownEvent),
    /// The bytes start with the discriminator of this kind, but what follows
    /// is not a record of it.
    MalformedPayload(EventKind),
}

impl UnknownEvent {
    /// What this error says.
    pub fn message(&self) -> (out: &'static str)
        ensures
            out@ == "unknown event"@,
    {
        "unknown event"
    }
}

impl DispatchError {
    /// What this error says.
    pub fn message(&self) -> (out: &'static str)
        ensures
            out@ == (match *self {
                DispatchError::UnknownEventKind(_) => "unknown discriminator for an event"@,
                DispatchError::MalformedPayload(_) => "malformed payload for an event"@,
            }),
    {
        match self {
            DispatchError::UnknownEventKind(_) => "unknown discriminator for an event",
            DispatchError::MalformedPayload(_) => "malformed payload for an event",
        }
    }
}

/// Any of the events that the program emits. More kinds may be added, so a
/// `match` on an event needs an arm for those that it does not name.
#[derive(Debug, Clone, PartialEq, Eq)]
#[non_exhaustive]
pub enum Event {
    CallbackUpdated(CallbackUpdated),
    CalledBack(CalledBack),
    Fulfilled(Fulfilled),
    Registered(Registered),
    Requested(Requested),
    RequestedAlt(RequestedAlt),
    Responded(Responded),
    Transferred(Transferred),
    Withdrawn(Withdrawn),
}

impl View for Event {
    type V = EventView;

    open spec fn view(&self) -> EventView {
        match *self {
            Event::CallbackUpdated(record) => record@,
            Event::CalledBack(record) => record@,
            Event::Fulfilled(record) => record@,
            Event::Registered(record) => record@,
            Event::Requested(record) => record@,
            Event::RequestedAlt(record) => record@,
            Event::Responded(record) => record@,
            Event::Transferred(record) => record@,
            Event::Withdrawn(record) => record@,
        }
    }
}

impl Event {
    /// The kind of this event.
    pub fn kind(&self) -> (out: EventKind)
        ensures
            out == self@.kind(),
    {
        match self {
            Event::CallbackUpdated(_) => EventKind::CallbackUpdated,
            Event::CalledBack(_) => EventKind::CalledBack,
            Event::Fulfilled(_) => EventKind::Fulfilled,
            Event::Registered(_) => EventKind::Registered,
            Event::Requested(_) => EventKind::Requested,
            Event::RequestedAlt(_) => EventKind::RequestedAlt,
            Event::Responded(_) => EventKind::Responded,
            Event::Transferred(_) => EventKind::Transferred,
            Event::Withdrawn(_) => EventKind::Withdrawn,
        }
    }
}

} // verus!
