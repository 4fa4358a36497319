//! The layout of each kind of event on the wire, and the decoders that read it.
//!
//! A payload is the fields of the record in their declared order, with nothing
//! between them: an address, a seed and the randomness as their bytes, a
//! boolean as one byte, an amount as an eight-byte number, and a callback as
//! one byte that says whether there is one, followed, if there is, by its
//! length as a four-byte number and its bytes. Bytes after the last field are
//! not part of the record and are ignored.

use vstd::prelude::*;
use crate::model::{is_callback, EventKind, EventView};
use crate::records::{
    Address, CallbackUpdated, CalledBack, Fulfilled, Registered, Requested, RequestedAlt,
    Responded, Transferred, Withdrawn,
};
use crate::records::callback_view;
use crate::wire::{
    field, holds, le_bytes, le_number_at, le_value, lemma_le_bytes_len, lemma_le_bytes_of_value,
    lemma_le_value_bound, lemma_le_value_of_bytes, lemma_radix_power_values,
};
use vstd::slice::{slice_subrange, slice_to_vec};

verus! {

/// The byte that stands for a boolean.
pub open spec fn bool_bytes(b: bool) -> Seq<u8> {
    seq![if b { 1u8 } else { 0u8 }]
}

/// The bytes that stand for an amount.
pub open spec fn amount_bytes(amount: u64) -> Seq<u8> {
    le_bytes(amount as nat, 8)
}

/// The bytes that stand for a callback, or for its absence.
pub open spec fn callback_bytes(callback: Option<Seq<u8>>) -> Seq<u8> {
    match callback {
        None => seq![0u8],
        Some(data) => seq![1u8] + le_bytes(data.len(), 4) + data,
    }
}

impl EventView {
    /// The payload of this event: its fields as they follow the discriminator.
    pub open spec fn payload(self) -> Seq<u8> {
        match self {
            EventView::CallbackUpdated { client, owner, defined } => {
                client + owner + bool_bytes(defined)
            },
            EventView::CalledBack { program } => program,
            EventView::Fulfilled { seed, client, randomness } => seed + client + randomness,
            EventView::Registered { client, program, state, owner } => {
                client + program + state + owner
            },
            EventView::Requested { seed, client, callback, callback_override } => {
                seed + client + callback_bytes(callback) + bool_bytes(callback_override)
            },
            EventView::RequestedAlt { seed, client, callback } => {
                seed + client + callback_bytes(callback)
            },
            EventView::Responded { client, seed, randomness } => client + seed + randomness,
            EventView::Transferred { client, owner, new_owner } => client + owner + new_owner,
            EventView::Withdrawn { client, owner, amount } => {
                client + owner + amount_bytes(amount)
            },
        }
    }
}

/// Whether the byte of `s` at offset `at` is there and stands for a boolean.
pub open spec fn holds_bool(s: Seq<u8>, at: int) -> bool {
    holds(s, at, 1) && s[at] <= 1
}

/// The boolean that the byte of `s` at offset `at` stands for.
pub open spec fn bool_at(s: Seq<u8>, at: int) -> bool {
    s[at] == 1
}

/// The callback that `s` holds from offset `at` on, together with the offset
/// of the byte that follows it; `None` where the bytes are no callback.
pub open spec fn parse_callback(s: Seq<u8>, at: int) -> Option<(Option<Seq<u8>>, int)> {
    if !holds(s, at, 1) {
        None
    } else if s[at] == 0 {
        Some((None, at + 1))
    } else if s[at] == 1 && holds(s, at + 1, 4) && holds(
        s,
        at + 5,
        le_value(field(s, at + 1, 4)) as int,
    ) {
        let len = le_value(field(s, at + 1, 4)) as int;
        Some((Some(field(s, at + 5, len)), at + 5 + len))
    } else {
        None
    }
}

/// The record of kind `kind` that the payload `s` starts with, or `None` where
/// `s` is too short or holds a byte that the layout does not allow.
pub open spec fn parse_payload(kind: EventKind, s: Seq<u8>) -> Option<EventView> {
    match kind {
        EventKind::CallbackUpdated => {
            if holds(s, 0, 64) && holds_bool(s, 64) {
                Some(
                    EventView::CallbackUpdated {
                        client: field(s, 0, 32),
                        owner: field(s, 32, 32),
                        defined: bool_at(s, 64),
                    },
                )
            } else {
                None
            }
        },
        EventKind::CalledBack => {
            if holds(s, 0, 32) {
                Some(EventView::CalledBack { program: field(s, 0, 32) })
            } else {
                None
            }
        },
        EventKind::Fulfilled => {
            if holds(s, 0, 128) {
                Some(
                    EventView::Fulfilled {
                        seed: field(s, 0, 32),
                        client: field(s, 32, 32),
                        randomness: field(s, 64, 64),
                    },
                )
            } else {
                None
            }
        },
        EventKind::Registered => {
            if holds(s, 0, 128) {
                Some(
                    EventView::Registered {
                        client: field(s, 0, 32),
                        program: field(s, 32, 32),
                        state: field(s, 64, 32),
                        owner: field(s, 96, 32),
                    },
                )
            } else {
                None
            }
        },
        EventKind::Requested => {
            if !holds(s, 0, 64) {
                None
            } else {
                match parse_callback(s, 64) {
                    Some((callback, next)) => {
                        if holds_bool(s, next) {
                            Some(
                                EventView::Requested {
                                    seed: field(s, 0, 32),
                                    client: field(s, 32, 32),
                                    callback,
                                    callback_override: bool_at(s, next),
                                },
                            )
                        } else {
                            None
                        }
                    },
                    None => None,
                }
            }
        },
        EventKind::RequestedAlt => {
            if !holds(s, 0, 64) {
                None
            } else {
                match parse_callback(s, 64) {
                    Some((callback, next)) => Some(
                        EventView::RequestedAlt {
                            seed: field(s, 0, 32),
                            client: field(s, 32, 32),
                            callback,
                        },
                    ),
                    None => None,
                }
            }
        },
        EventKind::Responded => {
            if holds(s, 0, 128) {
                Some(
                    EventView::Responded {
                        client: field(s, 0, 32),
                        seed: field(s, 32, 32),
                        randomness: field(s, 64, 64),
                    },
                )
            } else {
                None
            }
        },
        EventKind::Transferred => {
            if holds(s, 0, 96) {
                Some(
                    EventView::Transferred {
                        client: field(s, 0, 32),
                        owner: field(s, 32, 32),
                        new_owner: field(s, 64, 32),
                    },
                )
            } else {
                None
            }
        },
        EventKind::Withdrawn => {
            if holds(s, 0, 72) {
                Some(
                    EventView::Withdrawn {
                        client: field(s, 0, 32),
                        owner: field(s, 32, 32),
                        amount: le_value(field(s, 64, 8)) as u64,
                    },
                )
            } else {
                None
            }
        },
    }
}

/// A callback that was written down is read back, whatever follows it: the
/// reader finds it at the offset where it was written and stops at its end.
pub proof fn lemma_parse_of_callback_bytes(
    before: Seq<u8>,
    callback: Option<Seq<u8>>,
    after: Seq<u8>,
)
    requires
        is_callback(callback),
    ensures
        parse_callback(before + callback_bytes(callback) + after, before.len() as int) == Some(
            (callback, (before.len() + callback_bytes(callback).len()) as int),
        ),
{
    let s = before + callback_bytes(callback) + after;
    let at = before.len() as int;
    match callback {
        None => {
            assert(s[at] == 0);
        },
        Some(data) => {
            let len = data.len();
            lemma_le_bytes_len(len, 4);
            lemma_radix_power_values();
            lemma_le_value_of_bytes(len, 4);
            assert(s[at] == 1);
            assert(field(s, at + 1, 4) =~= le_bytes(len, 4));
            assert(field(s, at + 5, len as int) =~= data);
        },
    }
}

/// What the reader takes for a callback is a callback as it is written down:
/// the bytes from `at` up to where the reader stops are its encoding.
pub proof fn lemma_callback_bytes_of_parse(s: Seq<u8>, at: int)
    requires
        parse_callback(s, at) is Some,
    ensures
        ({
            let (callback, next) = parse_callback(s, at)->Some_0;
            &&& is_callback(callback)
            &&& at < next <= s.len()
            &&& s.subrange(at, next) == callback_bytes(callback)
        }),
{
    let (callback, next) = parse_callback(s, at)->Some_0;
    match callback {
        None => {
            assert(s.subrange(at, next) =~= callback_bytes(callback));
        },
        Some(data) => {
            let prefix = field(s, at + 1, 4);
            lemma_le_value_bound(prefix);
            lemma_radix_power_values();
            lemma_le_bytes_of_value(prefix);
            assert(data.len() == le_value(prefix));
            assert(s.subrange(at, next) =~= callback_bytes(callback));
        },
    }
}

/// Decoding undoes encoding: the payload of a well-formed event, followed by
/// any bytes at all, is read back as that event.
pub proof fn lemma_parse_of_payload(event: EventView, rest: Seq<u8>)
    requires
        event.well_formed(),
    ensures
        parse_payload(event.kind(), event.payload() + rest) == Some(event),
{
    let s = event.payload() + rest;
    match event {
        EventView::CallbackUpdated { client, owner, defined } => {
            assert(field(s, 0, 32) =~= client);
            assert(field(s, 32, 32) =~= owner);
            assert(s[64] == bool_bytes(defined)[0]);
        },
        EventView::CalledBack { program } => {
            assert(field(s, 0, 32) =~= program);
        },
        EventView::Fulfilled { seed, client, randomness } => {
            assert(field(s, 0, 32) =~= seed);
            assert(field(s, 32, 32) =~= client);
            assert(field(s, 64, 64) =~= randomness);
        },
        EventView::Registered { client, program, state, owner } => {
            assert(field(s, 0, 32) =~= client);
            assert(field(s, 32, 32) =~= program);
            assert(field(s, 64, 32) =~= state);
            assert(field(s, 96, 32) =~= owner);
        },
        EventView::Requested { seed, client, callback, callback_override } => {
            let before = seed + client;
            let after = bool_bytes(callback_override) + rest;
            lemma_parse_of_callback_bytes(before, callback, after);
            assert(s =~= before + callback_bytes(callback) + after);
            assert(field(s, 0, 32) =~= seed);
            assert(field(s, 32, 32) =~= client);
            let next = 64 + callback_bytes(callback).len() as int;
            assert(s[next] == bool_bytes(callback_override)[0]);
        },
        EventView::RequestedAlt { seed, client, callback } => {
            let before = seed + client;
            lemma_parse_of_callback_bytes(before, callback, rest);
            assert(s =~= before + callback_bytes(callback) + rest);
            assert(field(s, 0, 32) =~= seed);
            assert(field(s, 32, 32) =~= client);
        },
        EventView::Responded { client, seed, randomness } => {
            assert(field(s, 0, 32) =~= client);
            assert(field(s, 32, 32) =~= seed);
            assert(field(s, 64, 64) =~= randomness);
        },
        EventView::Transferred { client, owner, new_owner } => {
            assert(field(s, 0, 32) =~= client);
            assert(field(s, 32, 32) =~= owner);
            assert(field(s, 64, 32) =~= new_owner);
        },
        EventView::Withdrawn { client, owner, amount } => {
            lemma_le_bytes_len(amount as nat, 8);
            lemma_radix_power_values();
            lemma_le_value_of_bytes(amount as nat, 8);
            assert(field(s, 0, 32) =~= client);
            assert(field(s, 32, 32) =~= owner);
            assert(field(s, 64, 8) =~= amount_bytes(amount));
        },
    }
}

/// Encoding undoes decoding: what the decoder accepts as a record of kind
/// `kind` is a well-formed event of that kind, and the bytes start with its
/// payload.
pub proof fn lemma_payload_of_parse(kind: EventKind, s: Seq<u8>)
    requires
        parse_payload(kind, s) is Some,
    ensures
        ({
            let event = parse_payload(kind, s)->Some_0;
            &&& event.kind() == kind
            &&& event.well_formed()
            &&& event.payload().is_prefix_of(s)
        }),
{
    let event = parse_payload(kind, s)->Some_0;
    match kind {
        EventKind::Requested => {
            lemma_callback_bytes_of_parse(s, 64);
            let (callback, next) = parse_callback(s, 64)->Some_0;
            assert(s.subrange(64, next) == callback_bytes(callback));
            assert(event.payload() =~= s.subrange(0, next + 1));
        },
        EventKind::RequestedAlt => {
            lemma_callback_bytes_of_parse(s, 64);
            let (callback, next) = parse_callback(s, 64)->Some_0;
            assert(s.subrange(64, next) == callback_bytes(callback));
            assert(event.payload() =~= s.subrange(0, next));
        },
        EventKind::Withdrawn => {
            let number = field(s, 64, 8);
            lemma_le_value_bound(number);
            lemma_radix_power_values();
            lemma_le_bytes_of_value(number);
            assert(event.payload() =~= s.subrange(0, 72));
        },
        EventKind::CallbackUpdated => {
            assert(event.payload() =~= s.subrange(0, 65));
        },
        EventKind::CalledBack => {
            assert(event.payload() =~= s.subrange(0, 32));
        },
        EventKind::Fulfilled => {
            assert(event.payload() =~= s.subrange(0, 128));
        },
        EventKind::Registered => {
            assert(event.payload() =~= s.subrange(0, 128));
        },
        EventKind::Responded => {
            assert(event.payload() =~= s.subrange(0, 128));
        },
        EventKind::Transferred => {
            assert(event.payload() =~= s.subrange(0, 96));
        },
    }
}

/// A payload is read in one way only: two well-formed events of one kind
/// whose payloads both start the same bytes are one and the same event.
pub proof fn lemma_payload_is_unambiguous(a: EventView, b: EventView, bytes: Seq<u8>)
    requires
        a.well_formed(),
        b.well_formed(),
        a.kind() == b.kind(),
        a.payload().is_prefix_of(bytes),
        b.payload().is_prefix_of(bytes),
    ensures
        a == b,
{
    let after_a = bytes.skip(a.payload().len() as int);
    let after_b = bytes.skip(b.payload().len() as int);
    assert(a.payload() + after_a =~= bytes);
    assert(b.payload() + after_b =~= bytes);
    lemma_parse_of_payload(a, after_a);
    lemma_parse_of_payload(b, after_b);
}

/// Copies the `N` bytes from offset `at` on into an array.
pub fn array_at<const N: usize>(bytes: &[u8], at: usize) -> (out: [u8; N])
    requires
        holds(bytes@, at as int, N as int),
    ensures
        out@ == field(bytes@, at as int, N as int),
{
    let mut out: [u8; N] = [0u8; N];
    let mut i: usize = 0;
    proof {
        assert(bytes@.len() == bytes.len());
    }
    while i < N
        invariant
            i <= N,
            at + N <= usize::MAX,
            holds(bytes@, at as int, N as int),
            forall|j: int| 0 <= j < i ==> out@[j] == bytes@[at + j],
        decreases N - i,
    {
        out[i] = bytes[at + i];
        i = i + 1;
    }
    proof {
        assert(out@ =~= field(bytes@, at as int, N as int));
    }
    out
}

/// Reads the address held in the 32 bytes from offset `at` on.
pub fn address_at(bytes: &[u8], at: usize) -> (out: Address)
    requires
        holds(bytes@, at as int, 32),
    ensures
        out@ == field(bytes@, at as int, 32),
{
    Address { bytes: array_at::<32>(bytes, at) }
}

impl CallbackUpdated {
    /// Decodes the record that `tail` starts with.
    pub fn decode(tail: &[u8]) -> (out: Option<CallbackUpdated>)
        ensures
            match out {
                Some(record) => parse_payload(EventKind::CallbackUpdated, tail@) == Some(record@),
                None => parse_payload(EventKind::CallbackUpdated, tail@) is None,
            },
    {
        if tail.len() < 65 {
            return None;
        }
        let flag: u8 = tail[64];
        if flag > 1 {
            return None;
        }
        Some(
            CallbackUpdated {
                client: address_at(tail, 0),
                owner: address_at(tail, 32),
                defined: flag == 1,
            },
        )
    }
}

/// Reads the callback held from offset `at` on, and says where the next
/// field starts.
pub fn callback_at(bytes: &[u8], at: usize) -> (out: Option<(Option<Vec<u8>>, usize)>)
    ensures
        match out {
            Some((callback, next)) => parse_callback(bytes@, at as int) == Some(
                (callback_view(callback), next as int),
            ),
            None => parse_callback(bytes@, at as int) is None,
        },
{
    if at >= bytes.len() {
        return None;
    }
    let tag: u8 = bytes[at];
    if tag == 0 {
        return Some((None, at + 1));
    }
    if tag != 1 || bytes.len() - at < 5 {
        return None;
    }
    let len: u64 = le_number_at(bytes, at + 1, 4);
    proof {
        lemma_le_value_bound(field(bytes@, at + 1, 4));
        lemma_radix_power_values();
    }
    let room: usize = bytes.len() - at - 5;
    if (room as u64) < len {
        return None;
    }
    let len: usize = len as usize;
    let data: Vec<u8> = slice_to_vec(slice_subrange(bytes, at + 5, at + 5 + len));
    Some((Some(data), at + 5 + len))
}

impl CalledBack {
    /// Decodes the record that `tail` starts with.
    pub fn decode(tail: &[u8]) -> (out: Option<CalledBack>)
        ensures
            match out {
                Some(record) => parse_payload(EventKind::CalledBack, tail@) == Some(record@),
                None => parse_payload(EventKind::CalledBack, tail@) is None,
            },
    {
        if tail.len() < 32 {
            return None;
        }
        Some(CalledBack { program: address_at(tail, 0) })
    }
}

impl Fulfilled {
    /// Decodes the record that `tail` starts with.
    pub fn decode(tail: &[u8]) -> (out: Option<Fulfilled>)
        ensures
            match out {
                Some(record) => parse_payload(EventKind::Fulfilled, tail@) == Some(record@),
                None => parse_payload(EventKind::Fulfilled, tail@) is None,
            },
    {
        if tail.len() < 128 {
            return None;
        }
        Some(
            Fulfilled {
                seed: array_at::<32>(tail, 0),
                client: address_at(tail, 32),
                randomness: array_at::<64>(tail, 64),
            },
        )
    }
}

impl Registered {
    /// Decodes the record that `tail` starts with.
    pub fn decode(tail: &[u8]) -> (out: Option<Registered>)
        ensures
            match out {
                Some(record) => parse_payload(EventKind::Registered, tail@) == Some(record@),
                None => parse_payload(EventKind::Registered, tail@) is None,
            },
    {
        if tail.len() < 128 {
            return None;
        }
        Some(
            Registered {
                client: address_at(tail, 0),
                program: address_at(tail, 32),
                state: address_at(tail, 64),
                owner: address_at(tail, 96),
            },
        )
    }
}

impl Requested {
    /// Decodes the record that `tail` starts with.
    pub fn decode(tail: &[u8]) -> (out: Option<Requested>)
        ensures
            match out {
                Some(record) => parse_payload(EventKind::Requested, tail@) == Some(record@),
                None => parse_payload(EventKind::Requested, tail@) is None,
            },
    {
        if tail.len() < 64 {
            return None;
        }
        match callback_at(tail, 64) {
            None => None,
            Some((callback, next)) => {
                if next >= tail.len() {
                    return None;
                }
                let flag: u8 = tail[next];
                if flag > 1 {
                    return None;
                }
                Some(
                    Requested {
                        seed: array_at::<32>(tail, 0),
                        client: address_at(tail, 32),
                        callback,
                        callback_override: flag == 1,
                    },
                )
            },
        }
    }
}

impl RequestedAlt {
    /// Decodes the record that `tail` starts with.
    pub fn decode(tail: &[u8]) -> (out: Option<RequestedAlt>)
        ensures
            match out {
                Some(record) => parse_payload(EventKind::RequestedAlt, tail@) == Some(record@),
                None => parse_payload(EventKind::RequestedAlt, tail@) is None,
            },
    {
        if tail.len() < 64 {
            return None;
        }
        match callback_at(tail, 64) {
            None => None,
            Some((callback, next)) => Some(
                RequestedAlt {
                    seed: array_at::<32>(tail, 0),
                    client: address_at(tail, 32),
                    callback,
                },
            ),
        }
    }
}

impl Responded {
    /// Decodes the record that `tail` starts with.
    pub fn decode(tail: &[u8]) -> (out: Option<Responded>)
        ensures
            match out {
                Some(record) => parse_payload(EventKind::Responded, tail@) == Some(record@),
                None => parse_payload(EventKind::Responded, tail@) is None,
            },
    {
        if tail.len() < 128 {
            return None;
        }
        Some(
            Responded {
                client: address_at(tail, 0),
                seed: array_at::<32>(tail, 32),
                randomness: array_at::<64>(tail, 64),
            },
        )
    }
}

impl Transferred {
    /// Decodes the record that `tail` starts with.
    pub fn decode(tail: &[u8]) -> (out: Option<Transferred>)
        ensures
            match out {
                Some(record) => parse_payload(EventKind::Transferred, tail@) == Some(record@),
                None => parse_payload(EventKind::Transferred, tail@) is None,
            },
    {
        if tail.len() < 96 {
            return None;
        }
        Some(
            Transferred {
                client: address_at(tail, 0),
                owner: address_at(tail, 32),
                new_owner: address_at(tail, 64),
            },
        )
    }
}

impl Withdrawn {
    /// Decodes the record that `tail` starts with.
    pub fn decode(tail: &[u8]) -> (out: Option<Withdrawn>)
        ensures
            match out {
                Some(record) => parse_payload(EventKind::Withdrawn, tail@) == Some(record@),
                None => parse_payload(EventKind::Withdrawn, tail@) is None,
            },
    {
        if tail.len() < 72 {
            return None;
        }
        Some(
            Withdrawn {
                client: address_at(tail, 0),
                owner: address_at(tail, 32),
                amount: le_number_at(tail, 64, 8),
            },
        )
    }
}

} // verus!
