//! The mathematical model of an event: its kind and its fields as plain
//! sequences of bytes. Every contract of the library speaks of this model.

use vstd::prelude::*;

verus! {

/// Number of bytes in an account address.
pub const ADDRESS_LEN: usize = 32;

/// Number of bytes in a request seed.
pub const SEED_LEN: usize = 32;

/// Number of bytes of randomness in a fulfilled request.
pub const RANDOMNESS_LEN: usize = 64;

/// One more than the longest callback that the wire format can carry:
/// its length is written as a four-byte number.
pub open spec fn callback_limit() -> nat {
    0x1_0000_0000
}

/// The kinds of event that the program emits, in the order in which the
/// dispatcher tries them.
#[derive(Debug, Clone, Copy, PartialEq, Eq, Structural)]
pub enum EventKind {
    CallbackUpdated,
    CalledBack,
    Fulfilled,
    Registered,
    Requested,
    RequestedAlt,
    Responded,
    Transferred,
    Withdrawn,
}

/// What an event says, whatever Rust value holds it.
pub enum EventView {
    CallbackUpdated { client: Seq<u8>, owner: Seq<u8>, defined: bool },
    CalledBack { program: Seq<u8> },
    Fulfilled { seed: Seq<u8>, client: Seq<u8>, randomness: Seq<u8> },
    Registered { client: Seq<u8>, program: Seq<u8>, state: Seq<u8>, owner: Seq<u8> },
    Requested { seed: Seq<u8>, client: Seq<u8>, callback: Option<Seq<u8>>, callback_override: bool },
    RequestedAlt { seed: Seq<u8>, client: Seq<u8>, callback: Option<Seq<u8>> },
    Responded { client: Seq<u8>, seed: Seq<u8>, randomness: Seq<u8> },
    Transferred { client: Seq<u8>, owner: Seq<u8>, new_owner: Seq<u8> },
    Withdrawn { client: Seq<u8>, owner: Seq<u8>, amount: u64 },
}

/// Whether `s` has the size of an address.
pub open spec fn is_address(s: Seq<u8>) -> bool {
    s.len() == ADDRESS_LEN
}

/// Whether `s` has the size of a seed.
pub open spec fn is_seed(s: Seq<u8>) -> bool {
    s.len() == SEED_LEN
}

/// Whether `s` has the size of a fulfilled request's randomness.
pub open spec fn is_randomness(s: Seq<u8>) -> bool {
    s.len() == RANDOMNESS_LEN
}

/// Whether a callback, if there is one, is short enough to be written down.
pub open spec fn is_callback(c: Option<Seq<u8>>) -> bool {
    match c {
        Some(data) => data.len() < callback_limit(),
        None => true,
    }
}

impl EventView {
    /// The kind of this event.
    pub open spec fn kind(self) -> EventKind {
        match self {
            EventView::CallbackUpdated { .. } => EventKind::CallbackUpdated,
            EventView::CalledBack { .. } => EventKind::CalledBack,
            EventView::Fulfilled { .. } => EventKind::Fulfilled,
            EventView::Registered { .. } => EventKind::Registered,
            EventView::Requested { .. } => EventKind::Requested,
            EventView::RequestedAlt { .. } => EventKind::RequestedAlt,
            EventView::Responded { .. } => EventKind::Responded,
            EventView::Transferred { .. } => EventKind::Transferred,
            EventView::Withdrawn { .. } => EventKind::Withdrawn,
        }
    }

    /// The amount in lamports that the line of this event shows: that of a
    /// withdrawal, and none for any other event.
    pub open spec fn lamports(self) -> Option<u64> {
        match self {
            EventView::Withdrawn { amount, .. } => Some(amount),
            _ => None,
        }
    }

    /// Whether every field has the size that its kind of event gives it.
    pub open spec fn well_formed(self) -> bool {
        match self {
            EventView::CallbackUpdated { client, owner, defined } => {
                is_address(client) && is_address(owner)
            },
            EventView::CalledBack { program } => is_address(program),
            EventView::Fulfilled { seed, client, randomness } => {
                is_seed(seed) && is_address(client) && is_randomness(randomness)
            },
            EventView::Registered { client, program, state, owner } => {
                is_address(client) && is_address(program) && is_address(state) && is_address(owner)
            },
            EventView::Requested { seed, client, callback, callback_override } => {
                is_seed(seed) && is_address(client) && is_callback(callback)
            },
            EventView::RequestedAlt { seed, client, callback } => {
                is_seed(seed) && is_address(client) && is_callback(callback)
            },
            EventView::Responded { client, seed, randomness } => {
                is_address(client) && is_seed(seed) && is_randomness(randomness)
            },
            EventView::Transferred { client, owner, new_owner } => {
                is_address(client) && is_address(owner) && is_address(new_owner)
            },
            EventView::Withdrawn { client, owner, amount } => {
                is_address(client) && is_address(owner)
            },
        }
    }
}

} // verus!
