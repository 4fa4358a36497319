//! The records that the events carry, one type per kind of event.

use vstd::prelude::*;
use crate::model::EventView;

verus! {

/// The address of an account: 32 opaque bytes.
#[derive(Debug, Clone, Copy, PartialEq, Eq)]
pub struct Address {
    pub bytes: [u8; 32],
}

impl View for Address {
    type V = Seq<u8>;

    open spec fn view(&self) -> Seq<u8> {
        self.bytes@
    }
}

/// What a callback holds: its bytes, or nothing where there is none.
pub open spec fn callback_view(callback: Option<Vec<u8>>) -> Option<Seq<u8>> {
    match callback {
        Some(data) => Some(data@),
        None => None,
    }
}

/// A client's callback was set or removed by its owner.
#[derive(Debug, Clone, Copy, PartialEq, Eq)]
pub struct CallbackUpdated {
    pub client: Address,
    pub owner: Address,
    pub defined: bool,
}

/// A callback was invoked on a program.
#[derive(Debug, Clone, Copy, PartialEq, Eq)]
pub struct CalledBack {
    pub program: Address,
}

/// A request for randomness was fulfilled.
#[derive(Debug, Clone, Copy, PartialEq, Eq)]
pub struct Fulfilled {
    pub seed: [u8; 32],
    pub client: Address,
    pub randomness: [u8; 64],
}

/// A client was registered.
#[derive(Debug, Clone, Copy, PartialEq, Eq)]
pub struct Registered {
    pub client: Address,
    pub program: Address,
    pub state: Address,
    pub owner: Address,
}

/// A client asked for randomness.
#[derive(Debug, Clone, PartialEq, Eq)]
pub struct Requested {
    pub seed: [u8; 32],
    pub client: Address,
    /// The callback to invoke once the request is fulfilled, as the bytes
    /// that the program wrote for it; they are carried, not interpreted.
    pub callback: Option<Vec<u8>>,
    /// Whether the callback came with the request and overrides the one
    /// that the client has registered.
    pub callback_override: bool,
}

/// A client asked for randomness, naming accounts through lookup tables.
#[derive(Debug, Clone, PartialEq, Eq)]
pub struct RequestedAlt {
    pub seed: [u8; 32],
    pub client: Address,
    /// The callback that came with the request, as the bytes that the
    /// program wrote for it; they are carried, not interpreted.
    pub callback: Option<Vec<u8>>,
}

/// An authority answered a request.
#[derive(Debug, Clone, Copy, PartialEq, Eq)]
pub struct Responded {
    pub client: Address,
    pub seed: [u8; 32],
    pub randomness: [u8; 64],
}

/// A client passed to a new owner.
#[derive(Debug, Clone, Copy, PartialEq, Eq)]
pub struct Transferred {
    pub client: Address,
    pub owner: Address,
    pub new_owner: Address,
}

/// An owner withdrew funds from a client.
#[derive(Debug, Clone, Copy, PartialEq, Eq)]
pub struct Withdrawn {
    pub client: Address,
    pub owner: Address,
    /// The amount withdrawn, in lamports.
    pub amount: u64,
}

impl View for CallbackUpdated {
    type V = EventView;

    open spec fn view(&self) -> EventView {
        EventView::CallbackUpdated {
            client: self.client@,
            owner: self.owner@,
            defined: self.defined,
        }
    }
}

impl View for CalledBack {
    type V = EventView;

    open spec fn view(&self) -> EventView {
        EventView::CalledBack { program: self.program@ }
    }
}

impl View for Fulfilled {
    type V = EventView;

    open spec fn view(&self) -> EventView {
        EventView::Fulfilled {
            seed: self.seed@,
            client: self.client@,
            randomness: self.randomness@,
        }
    }
}

impl View for Registered {
    type V = EventView;

    open spec fn view(&self) -> EventView {
        EventView::Registered {
            client: self.client@,
            program: self.program@,
            state: self.state@,
            owner: self.owner@,
        }
    }
}

impl View for Requested {
    type V = EventView;

    open spec fn view(&self) -> EventView {
        EventView::Requested {
            seed: self.seed@,
            client: self.client@,
            callback: callback_view(self.callback),
            callback_override: self.callback_override,
        }
    }
}

impl View for RequestedAlt {
    type V = EventView;

    open spec fn view(&self) -> EventView {
        EventView::RequestedAlt {
            seed: self.seed@,
            client: self.client@,
            callback: callback_view(self.callback),
        }
    }
}

impl View for Responded {
    type V = EventView;

    open spec fn view(&self) -> EventView {
        EventView::Responded {
            client: self.client@,
            seed: self.seed@,
            randomness: self.randomness@,
        }
    }
}

impl View for Transferred {
    type V = EventView;

    open spec fn view(&self) -> EventView {
        EventView::Transferred {
            client: self.client@,
            owner: self.owner@,
            new_owner: self.new_owner@,
        }
    }
}

impl View for Withdrawn {
    type V = EventView;

    open spec fn view(&self) -> EventView {
        EventView::Withdrawn { client: self.client@, owner: self.owner@, amount: self.amount }
    }
}

} // verus!
