//! One line of text for each event.
//!
//! Each kind of event has a template, a function from the texts of its
//! fields to the line. An address enters the line as it is displayed, a seed
//! and the randomness in Base58. The amount of a withdrawal enters it as the
//! text that the caller hands in: how a number of lamports reads as a number
//! of SOL is the caller's to say.

use vstd::prelude::*;
use crate::event::Event;
use crate::model::EventView;
use crate::records::{
    Address, CallbackUpdated, CalledBack, Fulfilled, Registered, Requested, RequestedAlt,
    Responded, Transferred, Withdrawn,
};
use crate::text::{address_display, address_text, base58_encode, base58_text};

verus! {

/// The line for a callback that was set (`defined`) or removed.
pub open spec fn callback_updated_text(defined: bool, client: Seq<char>, owner: Seq<char>) -> Seq<
    char,
> {
    "CallbackUpdated: "@ + (if defined {
        "set"@
    } else {
        "unset"@
    }) + " for "@ + client + " by "@ + owner
}

/// The line for a callback that was invoked.
pub open spec fn called_back_text(program: Seq<char>) -> Seq<char> {
    "CalledBack: "@ + program
}

/// The line for a fulfilled request.
pub open spec fn fulfilled_text(seed: Seq<char>, client: Seq<char>, randomness: Seq<char>) -> Seq<
    char,
> {
    "Fulfilled: "@ + seed + " for "@ + client + " with "@ + randomness
}

/// The line for a registered client.
pub open spec fn registered_text(
    client: Seq<char>,
    program: Seq<char>,
    state: Seq<char>,
    owner: Seq<char>,
) -> Seq<char> {
    "Registered: "@ + client + " as "@ + program + " with "@ + state + " by "@ + owner
}

/// How a request names its callback: one given with the request overrides
/// the client's own (`overriding`), one without that mark is the client's,
/// and there may be none.
pub open spec fn requested_phrase(has_callback: bool, overriding: bool) -> Seq<char> {
    if has_callback {
        if overriding {
            "with request-level"@
        } else {
            "with client-level"@
        }
    } else {
        "without"@
    }
}

/// The line for a request.
pub open spec fn requested_text(
    seed: Seq<char>,
    client: Seq<char>,
    has_callback: bool,
    overriding: bool,
) -> Seq<char> {
    "Requested: "@ + seed + " by "@ + client + " "@ + requested_phrase(has_callback, overriding)
        + " callback"@
}

/// How a request made through lookup tables names its callback: it is always
/// given with the request, or there is none.
pub open spec fn requested_alt_phrase(has_callback: bool) -> Seq<char> {
    if has_callback {
        "with request-level"@
    } else {
        "without"@
    }
}

/// The line for a request made through lookup tables.
pub open spec fn requested_alt_text(seed: Seq<char>, client: Seq<char>, has_callback: bool) -> Seq<
    char,
> {
    "Requested (ALT): "@ + seed + " by "@ + client + " "@ + requested_alt_phrase(has_callback)
        + " callback"@
}

/// The line for an answered request. The client stands in it twice.
pub open spec fn responded_text(client: Seq<char>, seed: Seq<char>, randomness: Seq<char>) -> Seq<
    char,
> {
    "Responded: "@ + client + " to "@ + seed + " of "@ + client + " with "@ + randomness
}

/// The line for a client that passed to a new owner.
pub open spec fn transferred_text(client: Seq<char>, owner: Seq<char>, new_owner: Seq<char>) -> Seq<
    char,
> {
    "Transferred: "@ + client + " from "@ + owner + " to "@ + new_owner
}

/// The line for a withdrawal, where `amount` is the text of the amount in SOL.
pub open spec fn withdrawn_text(amount: Seq<char>, client: Seq<char>, owner: Seq<char>) -> Seq<
    char,
> {
    "Withdrawn: "@ + amount + " SOL from "@ + client + " by "@ + owner
}

impl EventView {
    /// The line of text for this event, where `amount` is the text of the
    /// amount in SOL that the line of a withdrawal shows. The lines of the
    /// other events show no amount and do not depend on it.
    pub open spec fn text(self, amount: Seq<char>) -> Seq<char> {
        match self {
            EventView::CallbackUpdated { client, owner, defined } => callback_updated_text(
                defined,
                address_text(client),
                address_text(owner),
            ),
            EventView::CalledBack { program } => called_back_text(address_text(program)),
            EventView::Fulfilled { seed, client, randomness } => fulfilled_text(
                base58_text(seed),
                address_text(client),
                base58_text(randomness),
            ),
            EventView::Registered { client, program, state, owner } => registered_text(
                address_text(client),
                address_text(program),
                address_text(state),
                address_text(owner),
            ),
            EventView::Requested { seed, client, callback, callback_override } => requested_text(
                base58_text(seed),
                address_text(client),
                callback is Some,
                callback_override,
            ),
            EventView::RequestedAlt { seed, client, callback } => requested_alt_text(
                base58_text(seed),
                address_text(client),
                callback is Some,
            ),
            EventView::Responded { client, seed, randomness } => responded_text(
                address_text(client),
                base58_text(seed),
                base58_text(randomness),
            ),
            EventView::Transferred { client, owner, new_owner } => transferred_text(
                address_text(client),
                address_text(owner),
                address_text(new_owner),
            ),
            EventView::Withdrawn { client, owner, amount: lamports } => withdrawn_text(
                amount,
                address_text(client),
                address_text(owner),
            ),
        }
    }
}

/// Whether `phrase` stands somewhere in `line`.
pub open spec fn contains_phrase(line: Seq<char>, phrase: Seq<char>) -> bool {
    exists|at: int| stands_at(line, phrase, at)
}

/// Whether `phrase` stands in `line` at offset `at`.
pub open spec fn stands_at(line: Seq<char>, phrase: Seq<char>, at: int) -> bool {
    0 <= at && at + phrase.len() <= line.len() && line.subrange(at, at + phrase.len()) == phrase
}

/// The line of a request whose callback came with it and overrides the
/// client's says so, whatever the seed and the client.
pub proof fn lemma_request_level_is_named(event: EventView, amount: Seq<char>)
    requires
        event matches EventView::Requested { callback, callback_override, .. } && callback is Some
            && callback_override,
    ensures
        contains_phrase(event.text(amount), "with request-level callback"@),
{
    reveal_strlit("Requested: ");
    reveal_strlit(" by ");
    reveal_strlit(" ");
    reveal_strlit("with request-level");
    reveal_strlit(" callback");
    reveal_strlit("with request-level callback");
    let line = event.text(amount);
    let phrase = "with request-level callback"@;
    let at = line.len() - phrase.len();
    assert(line.subrange(at, at + phrase.len()) =~= phrase);
    assert(stands_at(line, phrase, at));
}

/// The line of a callback that was removed says `unset for`, whatever the
/// client and the owner.
pub proof fn lemma_unset_is_named(event: EventView, amount: Seq<char>)
    requires
        event matches EventView::CallbackUpdated { defined, .. } && !defined,
    ensures
        contains_phrase(event.text(amount), "unset for"@),
{
    reveal_strlit("CallbackUpdated: ");
    reveal_strlit("unset");
    reveal_strlit(" for ");
    reveal_strlit(" by ");
    reveal_strlit("unset for");
    let line = event.text(amount);
    let phrase = "unset for"@;
    let at = "CallbackUpdated: "@.len() as int;
    assert(line.subrange(at, at + phrase.len()) =~= phrase);
    assert(stands_at(line, phrase, at));
}

/// Writes the line for a callback that was set or removed.
pub fn callback_updated_line(defined: bool, client: &str, owner: &str) -> (out: String)
    ensures
        out@ == callback_updated_text(defined, client@, owner@),
{
    let mut out: String = String::from_str("CallbackUpdated: ");
    if defined {
        out.append("set");
    } else {
        out.append("unset");
    }
    out.append(" for ");
    out.append(client);
    out.append(" by ");
    out.append(owner);
    out
}

/// Writes the line for a callback that was invoked.
pub fn called_back_line(program: &str) -> (out: String)
    ensures
        out@ == called_back_text(program@),
{
    let mut out: String = String::from_str("CalledBack: ");
    out.append(program);
    out
}

/// Writes the line for a fulfilled request.
pub fn fulfilled_line(seed: &str, client: &str, randomness: &str) -> (out: String)
    ensures
        out@ == fulfilled_text(seed@, client@, randomness@),
{
    let mut out: String = String::from_str("Fulfilled: ");
    out.append(seed);
    out.append(" for ");
    out.append(client);
    out.append(" with ");
    out.append(randomness);
    out
}

/// Writes the line for a registered client.
pub fn registered_line(client: &str, program: &str, state: &str, owner: &str) -> (out: String)
    ensures
        out@ == registered_text(client@, program@, state@, owner@),
{
    let mut out: String = String::from_str("Registered: ");
    out.append(client);
    out.append(" as ");
    out.append(program);
    out.append(" with ");
    out.append(state);
    out.append(" by ");
    out.append(owner);
    out
}

/// Writes the line for a request.
pub fn requested_line(seed: &str, client: &str, has_callback: bool, overriding: bool) -> (out:
    String)
    ensures
        out@ == requested_text(seed@, client@, has_callback, overriding),
{
    let mut out: String = String::from_str("Requested: ");
    out.append(seed);
    out.append(" by ");
    out.append(client);
    out.append(" ");
    if has_callback {
        if overriding {
            out.append("with request-level");
        } else {
            out.append("with client-level");
        }
    } else {
        out.append("without");
    }
    out.append(" callback");
    out
}

/// Writes the line for a request made through lookup tables.
pub fn requested_alt_line(seed: &str, client: &str, has_callback: bool) -> (out: String)
    ensures
        out@ == requested_alt_text(seed@, client@, has_callback),
{
    let mut out: String = String::from_str("Requested (ALT): ");
    out.append(seed);
    out.append(" by ");
    out.append(client);
    out.append(" ");
    if has_callback {
        out.append("with request-level");
    } else {
        out.append("without");
    }
    out.append(" callback");
    out
}

/// Writes the line for an answered request.
pub fn responded_line(client: &str, seed: &str, randomness: &str) -> (out: String)
    ensures
        out@ == responded_text(client@, seed@, randomness@),
{
    let mut out: String = String::from_str("Responded: ");
    out.append(client);
    out.append(" to ");
    out.append(seed);
    out.append(" of ");
    out.append(client);
    out.append(" with ");
    out.append(randomness);
    out
}

/// Writes the line for a client that passed to a new owner.
pub fn transferred_line(client: &str, owner: &str, new_owner: &str) -> (out: String)
    ensures
        out@ == transferred_text(client@, owner@, new_owner@),
{
    let mut out: String = String::from_str("Transferred: ");
    out.append(client);
    out.append(" from ");
    out.append(owner);
    out.append(" to ");
    out.append(new_owner);
    out
}

/// Writes the line for a withdrawal, where `amount` is the text of the
/// amount in SOL.
pub fn withdrawn_line(amount: &str, client: &str, owner: &str) -> (out: String)
    ensures
        out@ == withdrawn_text(amount@, client@, owner@),
{
    let mut out: String = String::from_str("Withdrawn: ");
    out.append(amount);
    out.append(" SOL from ");
    out.append(client);
    out.append(" by ");
    out.append(owner);
    out
}

impl Address {
    /// This address as text.
    pub fn to_text(&self) -> (out: String)
        ensures
            out@ == address_text(self@),
    {
        address_display(&self.bytes)
    }
}

impl CallbackUpdated {
    /// The line of text for this record.
    pub fn format(&self) -> (out: String)
        ensures
            out@ == callback_updated_text(
                self.defined,
                address_text(self.client@),
                address_text(self.owner@),
            ),
    {
        let client: String = self.client.to_text();
        let owner: String = self.owner.to_text();
        callback_updated_line(self.defined, client.as_str(), owner.as_str())
    }
}

impl CalledBack {
    /// The line of text for this record.
    pub fn format(&self) -> (out: String)
        ensures
            out@ == called_back_text(address_text(self.program@)),
    {
        let program: String = self.program.to_text();
        called_back_line(program.as_str())
    }
}

impl Fulfilled {
    /// The line of text for this record.
    pub fn format(&self) -> (out: String)
        ensures
            out@ == fulfilled_text(
                base58_text(self.seed@),
                address_text(self.client@),
                base58_text(self.randomness@),
            ),
    {
        let seed: String = base58_encode(self.seed.as_slice());
        let client: String = self.client.to_text();
        let randomness: String = base58_encode(self.randomness.as_slice());
        fulfilled_line(seed.as_str(), client.as_str(), randomness.as_str())
    }
}

impl Registered {
    /// The line of text for this record.
    pub fn format(&self) -> (out: String)
        ensures
            out@ == registered_text(
                address_text(self.client@),
                address_text(self.program@),
                address_text(self.state@),
                address_text(self.owner@),
            ),
    {
        let client: String = self.client.to_text();
        let program: String = self.program.to_text();
        let state: String = self.state.to_text();
        let owner: String = self.owner.to_text();
        registered_line(client.as_str(), program.as_str(), state.as_str(), owner.as_str())
    }
}

impl Requested {
    /// The line of text for this record.
    pub fn format(&self) -> (out: String)
        ensures
            out@ == requested_text(
                base58_text(self.seed@),
                address_text(self.client@),
                self.callback is Some,
                self.callback_override,
            ),
    {
        let seed: String = base58_encode(self.seed.as_slice());
        let client: String = self.client.to_text();
        requested_line(
            seed.as_str(),
            client.as_str(),
            self.callback.is_some(),
            self.callback_override,
        )
    }
}

impl RequestedAlt {
    /// The line of text for this record.
    pub fn format(&self) -> (out: String)
        ensures
            out@ == requested_alt_text(
                base58_text(self.seed@),
                address_text(self.client@),
                self.callback is Some,
            ),
    {
        let seed: String = base58_encode(self.seed.as_slice());
        let client: String = self.client.to_text();
        requested_alt_line(seed.as_str(), client.as_str(), self.callback.is_some())
    }
}

impl Responded {
    /// The line of text for this record.
    pub fn format(&self) -> (out: String)
        ensures
            out@ == responded_text(
                address_text(self.client@),
                base58_text(self.seed@),
                base58_text(self.randomness@),
            ),
    {
        let client: String = self.client.to_text();
        let seed: String = base58_encode(self.seed.as_slice());
        let randomness: String = base58_encode(self.randomness.as_slice());
        responded_line(client.as_str(), seed.as_str(), randomness.as_str())
    }
}

impl Transferred {
    /// The line of text for this record.
    pub fn format(&self) -> (out: String)
        ensures
            out@ == transferred_text(
                address_text(self.client@),
                address_text(self.owner@),
                address_text(self.new_owner@),
            ),
    {
        let client: String = self.client.to_text();
        let owner: String = self.owner.to_text();
        let new_owner: String = self.new_owner.to_text();
        transferred_line(client.as_str(), owner.as_str(), new_owner.as_str())
    }
}

impl Withdrawn {
    /// The line of text for this record, where `amount` is the text of
    /// `self.amount` lamports as a number of SOL. The text is taken as it is
    /// given: how the number reads is the caller's to say.
    pub fn format(&self, amount: &str) -> (out: String)
        ensures
            out@ == withdrawn_text(amount@, address_text(self.client@), address_text(self.owner@)),
    {
        let client: String = self.client.to_text();
        let owner: String = self.owner.to_text();
        withdrawn_line(amount, client.as_str(), owner.as_str())
    }
}

impl Event {
    /// The amount in lamports that the line of this event shows: that of a
    /// withdrawal, and none for any other event.
    pub fn lamports(&self) -> (out: Option<u64>)
        ensures
            out == self@.lamports(),
    {
        match self {
            Event::Withdrawn(record) => Some(record.amount),
            _ => None,
        }
    }

    /// The line of text for this event: that of the record it holds.
    ///
    /// `amount` is the text, as a number of SOL, of the amount that
    /// [`Event::lamports`] gives. It is read for a withdrawal only, and taken
    /// as it is given.
    pub fn format(&self, amount: &str) -> (out: String)
        ensures
            out@ == self@.text(amount@),
    {
        match self {
            Event::CallbackUpdated(record) => record.format(),
            Event::CalledBack(record) => record.format(),
            Event::Fulfilled(record) => record.format(),
            Event::Registered(record) => record.format(),
            Event::Requested(record) => record.format(),
            Event::RequestedAlt(record) => record.format(),
            Event::Responded(record) => record.format(),
            Event::Transferred(record) => record.format(),
            Event::Withdrawn(record) => record.format(amount),
        }
    }
}

/// The line of an event depends on what the event says and on the text given
/// for its amount, and on nothing else: two events that say the same have the
/// same line, so formatting one event twice gives one text.
pub proof fn lemma_text_is_determined(a: Event, b: Event, amount: Seq<char>)
    requires
        a@ == b@,
    ensures
        a@.text(amount) == b@.text(amount),
{
}

/// Only the line of a withdrawal shows an amount: the line of any other
/// event is the same whatever text is given for one.
pub proof fn lemma_text_without_amount(event: EventView, one: Seq<char>, other: Seq<char>)
    requires
        event.lamports() is None,
    ensures
        event.text(one) == event.text(other),
{
}

} // verus!
