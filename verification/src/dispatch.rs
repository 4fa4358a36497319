//! The dispatcher: from raw bytes to an event.
//!
//! The bytes are held against the registry line by line. The first line whose
//! discriminator starts the bytes decides the kind, and what follows the
//! discriminator is decoded as a record of that kind.

use vstd::prelude::*;
use crate::event::{DispatchError, Event, UnknownEvent};
use crate::layout::{lemma_parse_of_payload, lemma_payload_of_parse, parse_payload};
use crate::model::{EventKind, EventView};
use crate::records::{
    CallbackUpdated, CalledBack, Fulfilled, Registered, Requested, RequestedAlt, Responded,
    Transferred, Withdrawn,
};
use crate::registry::{
    discriminator, first_hit, first_match, hits, lemma_discriminators_distinct, lemma_first_hit,
    lemma_first_hit_found, lemma_standard_hit, lemma_standard_table, rank, registry,
    standard_entry, standard_table, EntryView, RegistryEntry, DISCRIMINATOR_LEN,
};
use vstd::slice::slice_subrange;

verus! {

/// What `bytes` are as an event of the kind of `entry`: the record that
/// follows the discriminator, or the error that says that none does.
pub open spec fn decode_as(entry: EntryView, bytes: Seq<u8>) -> Result<EventView, DispatchError> {
    match parse_payload(entry.kind, bytes.skip(entry.discriminator.len() as int)) {
        Some(event) => Ok(event),
        None => Err(DispatchError::MalformedPayload(entry.kind)),
    }
}

/// What the dispatcher makes of `bytes` with the registry `table`.
pub open spec fn dispatch_over(table: Seq<EntryView>, bytes: Seq<u8>) -> Result<
    EventView,
    DispatchError,
> {
    match first_hit(table, bytes) {
        None => Err(DispatchError::UnknownEventKind(UnknownEvent)),
        Some(i) => decode_as(table[i], bytes),
    }
}

/// What the dispatcher makes of `bytes` with the standard registry.
pub open spec fn dispatch(bytes: Seq<u8>) -> Result<EventView, DispatchError> {
    dispatch_over(standard_table(), bytes)
}

/// Whether the outcome `out` of a run is what the model `expected`.
pub open spec fn agrees(
    out: Result<Event, DispatchError>,
    expected: Result<EventView, DispatchError>,
) -> bool {
    match out {
        Ok(event) => expected == Ok::<EventView, DispatchError>(event@),
        Err(error) => expected == Err::<EventView, DispatchError>(error),
    }
}

impl EventView {
    /// This event as the program emits it: the discriminator of its kind,
    /// then its payload.
    pub open spec fn encoding(self) -> Seq<u8> {
        discriminator(self.kind()) + self.payload()
    }
}

/// Whether `bytes` start with the discriminator of no kind of event.
pub open spec fn starts_no_kind(bytes: Seq<u8>) -> bool {
    forall|kind: EventKind| !(#[trigger] discriminator(kind).is_prefix_of(bytes))
}

/// With the standard registry, bytes that start with the discriminator of a
/// kind are decoded as that kind and as no other.
pub proof fn lemma_dispatch_by_kind(bytes: Seq<u8>, kind: EventKind)
    requires
        discriminator(kind).is_prefix_of(bytes),
    ensures
        dispatch(bytes) == decode_as(standard_entry(kind), bytes),
{
    lemma_standard_table(kind);
    lemma_standard_hit(bytes);
    let i = first_hit(standard_table(), bytes)->Some_0;
    assert(standard_table()[i].kind == kind);
    assert(standard_table()[i] == standard_table()[rank(kind)]);
}

/// Encoding undoes dispatching: what the dispatcher accepts is a well-formed
/// event, and the bytes start with that event as the program emits it.
pub proof fn lemma_encoding_of_dispatch(bytes: Seq<u8>)
    requires
        dispatch(bytes) is Ok,
    ensures
        dispatch(bytes)->Ok_0.well_formed(),
        dispatch(bytes)->Ok_0.encoding().is_prefix_of(bytes),
{
    lemma_standard_hit(bytes);
    let i = first_hit(standard_table(), bytes)->Some_0;
    let kind = standard_table()[i].kind;
    lemma_standard_table(kind);
    lemma_discriminators_distinct(kind, kind);
    let tail = bytes.skip(8);
    lemma_payload_of_parse(kind, tail);
    let event = dispatch(bytes)->Ok_0;
    assert(event.encoding() =~= bytes.subrange(0, event.encoding().len() as int)) by {
        assert(discriminator(kind) =~= bytes.subrange(0, 8));
        assert(event.payload() =~= tail.subrange(0, event.payload().len() as int));
    }
}

/// Dispatching undoes encoding: a well-formed event as the program emits it,
/// followed by any bytes at all, is read back as that event.
pub proof fn lemma_dispatch_of_encoding(event: EventView, rest: Seq<u8>)
    requires
        event.well_formed(),
    ensures
        dispatch(event.encoding() + rest) == Ok::<EventView, DispatchError>(event),
{
    let kind = event.kind();
    let bytes = event.encoding() + rest;
    let table = standard_table();
    lemma_discriminators_distinct(kind, kind);
    lemma_standard_table(kind);
    lemma_standard_hit(bytes);
    assert(discriminator(kind).is_prefix_of(bytes)) by {
        assert(bytes.subrange(0, 8) =~= discriminator(kind));
    }
    assert(first_hit(table, bytes) is Some);
    let i = first_hit(table, bytes)->Some_0;
    assert(table[i].kind == kind);
    assert(table[i] == table[rank(kind)]);
    assert(bytes.skip(8) =~= event.payload() + rest);
    lemma_parse_of_payload(event, rest);
}

/// Bytes are read as one event at most: two well-formed events that both
/// start the same bytes, as the program emits them, are one and the same.
pub proof fn lemma_encoding_is_unambiguous(a: EventView, b: EventView, bytes: Seq<u8>)
    requires
        a.well_formed(),
        b.well_formed(),
        a.encoding().is_prefix_of(bytes),
        b.encoding().is_prefix_of(bytes),
    ensures
        a == b,
{
    let after_a = bytes.skip(a.encoding().len() as int);
    let after_b = bytes.skip(b.encoding().len() as int);
    assert(a.encoding() + after_a =~= bytes);
    assert(b.encoding() + after_b =~= bytes);
    lemma_dispatch_of_encoding(a, after_a);
    lemma_dispatch_of_encoding(b, after_b);
}

/// Bytes that start with no discriminator are of an unknown kind, and only
/// those are.
pub proof fn lemma_unknown_kind(bytes: Seq<u8>)
    ensures
        starts_no_kind(bytes) <==> dispatch(bytes) == Err::<EventView, DispatchError>(
            DispatchError::UnknownEventKind(UnknownEvent),
        ),
{
    lemma_standard_hit(bytes);
}

/// Bytes shorter than a discriminator are of an unknown kind.
pub proof fn lemma_short_input_is_unknown(bytes: Seq<u8>)
    requires
        bytes.len() < DISCRIMINATOR_LEN,
    ensures
        dispatch(bytes) == Err::<EventView, DispatchError>(
            DispatchError::UnknownEventKind(UnknownEvent),
        ),
{
    assert forall|kind: EventKind| !(#[trigger] discriminator(kind).is_prefix_of(bytes)) by {
        lemma_discriminators_distinct(kind, kind);
    }
    lemma_unknown_kind(bytes);
}

/// The first line that matches decides, whatever the registry: the bytes are
/// decoded as its kind, and no line below it is looked at.
pub proof fn lemma_dispatch_takes_first(table: Seq<EntryView>, bytes: Seq<u8>, first: int)
    requires
        0 <= first < table.len(),
        hits(table[first], bytes),
        forall|j: int| 0 <= j < first ==> !hits(#[trigger] table[j], bytes),
    ensures
        dispatch_over(table, bytes) == decode_as(table[first], bytes),
{
    lemma_first_hit_found(table, bytes, first);
}

/// The first match wins: where the discriminators of two lines of a registry
/// both start the bytes, the later line has no say. The outcome is the one
/// that the registry without that line gives.
pub proof fn lemma_dispatch_first_match_wins(
    table: Seq<EntryView>,
    bytes: Seq<u8>,
    earlier: int,
    later: int,
)
    requires
        0 <= earlier < later < table.len(),
        hits(table[earlier], bytes),
        hits(table[later], bytes),
    ensures
        dispatch_over(table, bytes) == dispatch_over(table.remove(later), bytes),
{
    let without = table.remove(later);
    lemma_first_hit(table, bytes);
    let i = first_hit(table, bytes)->Some_0;
    assert(i <= earlier);
    assert(without[i] == table[i]);
    assert forall|j: int| 0 <= j < i implies !hits(#[trigger] without[j], bytes) by {
        assert(without[j] == table[j]);
    }
    lemma_first_hit_found(without, bytes, i);
}

/// Decodes the record of kind `kind` that `tail` starts with.
pub fn decode(kind: EventKind, tail: &[u8]) -> (out: Option<Event>)
    ensures
        match out {
            Some(event) => parse_payload(kind, tail@) == Some(event@),
            None => parse_payload(kind, tail@) is None,
        },
{
    match kind {
        EventKind::CallbackUpdated => match CallbackUpdated::decode(tail) {
            Some(record) => Some(Event::CallbackUpdated(record)),
            None => None,
        },
        EventKind::CalledBack => match CalledBack::decode(tail) {
            Some(record) => Some(Event::CalledBack(record)),
            None => None,
        },
        EventKind::Fulfilled => match Fulfilled::decode(tail) {
            Some(record) => Some(Event::Fulfilled(record)),
            None => None,
        },
        EventKind::Registered => match Registered::decode(tail) {
            Some(record) => Some(Event::Registered(record)),
            None => None,
        },
        EventKind::Requested => match Requested::decode(tail) {
            Some(record) => Some(Event::Requested(record)),
            None => None,
        },
        EventKind::RequestedAlt => match RequestedAlt::decode(tail) {
            Some(record) => Some(Event::RequestedAlt(record)),
            None => None,
        },
        EventKind::Responded => match Responded::decode(tail) {
            Some(record) => Some(Event::Responded(record)),
            None => None,
        },
        EventKind::Transferred => match Transferred::decode(tail) {
            Some(record) => Some(Event::Transferred(record)),
            None => None,
        },
        EventKind::Withdrawn => match Withdrawn::decode(tail) {
            Some(record) => Some(Event::Withdrawn(record)),
            None => None,
        },
    }
}

/// Reads `bytes` as an event with the registry `table`: the first line of
/// `table` whose discriminator starts `bytes` decides the kind.
pub fn dispatch_with(table: &[RegistryEntry], bytes: &[u8]) -> (out: Result<Event, DispatchError>)
    ensures
        agrees(out, dispatch_over(table.deep_view(), bytes@)),
{
    match first_match(table, bytes) {
        None => Err(DispatchError::UnknownEventKind(UnknownEvent)),
        Some(i) => {
            let kind: EventKind = table[i].kind;
            let tail: &[u8] = slice_subrange(bytes, DISCRIMINATOR_LEN, bytes.len());
            match decode(kind, tail) {
                Some(event) => Ok(event),
                None => Err(DispatchError::MalformedPayload(kind)),
            }
        },
    }
}

impl Event {
    /// Reads `bytes` as an event.
    ///
    /// The kinds are tried in their declared order, and the first whose
    /// discriminator starts `bytes` is decoded from the bytes that follow it.
    /// Bytes that start with no discriminator give
    /// [`DispatchError::UnknownEventKind`]; a payload that is no record of the
    /// kind found gives [`DispatchError::MalformedPayload`].
    pub fn try_from_bytes(bytes: &[u8]) -> (out: Result<Event, DispatchError>)
        ensures
            agrees(out, dispatch(bytes@)),
            starts_no_kind(bytes@) <==> out == Err::<Event, DispatchError>(
                DispatchError::UnknownEventKind(UnknownEvent),
            ),
            bytes@.len() < DISCRIMINATOR_LEN ==> out == Err::<Event, DispatchError>(
                DispatchError::UnknownEventKind(UnknownEvent),
            ),
            forall|kind: EventKind| #[trigger]
                discriminator(kind).is_prefix_of(bytes@) ==> agrees(
                    out,
                    decode_as(standard_entry(kind), bytes@),
                ),
    {
        let table: [RegistryEntry; 9] = registry();
        let lines: &[RegistryEntry] = table.as_slice();
        proof {
            assert(lines.deep_view() =~= table.deep_view());
            lemma_unknown_kind(bytes@);
            if bytes@.len() < DISCRIMINATOR_LEN {
                lemma_short_input_is_unknown(bytes@);
            }
            assert forall|kind: EventKind| #[trigger]
                discriminator(kind).is_prefix_of(bytes@) implies dispatch(bytes@) == decode_as(
                standard_entry(kind),
                bytes@,
            ) by {
                lemma_dispatch_by_kind(bytes@, kind);
            }
        }
        dispatch_with(lines, bytes)
    }
}

} // verus!
