//! The registry of event kinds: the discriminator of each kind, the order in
//! which the kinds are tried, and the search for the first kind that matches.

use vstd::prelude::*;
use crate::model::EventKind;

verus! {

/// Number of bytes in a discriminator.
pub const DISCRIMINATOR_LEN: usize = 8;

/// The discriminator of a kind of event: the first eight bytes of the SHA-256
/// digest of the text `event:` followed by the name of the kind.
pub open spec fn discriminator(kind: EventKind) -> Seq<u8> {
    match kind {
        EventKind::CallbackUpdated => seq![73u8, 115u8, 171u8, 177u8, 42u8, 193u8, 178u8, 202u8],
        EventKind::CalledBack => seq![80u8, 119u8, 132u8, 128u8, 66u8, 146u8, 64u8, 21u8],
        EventKind::Fulfilled => seq![210u8, 174u8, 131u8, 213u8, 40u8, 182u8, 83u8, 110u8],
        EventKind::Registered => seq![11u8, 222u8, 10u8, 72u8, 160u8, 110u8, 165u8, 227u8],
        EventKind::Requested => seq![193u8, 152u8, 94u8, 182u8, 138u8, 135u8, 173u8, 205u8],
        EventKind::RequestedAlt => seq![35u8, 45u8, 235u8, 194u8, 198u8, 184u8, 209u8, 54u8],
        EventKind::Responded => seq![126u8, 30u8, 4u8, 36u8, 65u8, 90u8, 60u8, 218u8],
        EventKind::Transferred => seq![21u8, 132u8, 239u8, 64u8, 146u8, 239u8, 166u8, 68u8],
        EventKind::Withdrawn => seq![20u8, 89u8, 223u8, 198u8, 194u8, 124u8, 219u8, 13u8],
    }
}

/// The kinds of event in the order in which the dispatcher tries them.
pub open spec fn declared_order() -> Seq<EventKind> {
    seq![
        EventKind::CallbackUpdated,
        EventKind::CalledBack,
        EventKind::Fulfilled,
        EventKind::Registered,
        EventKind::Requested,
        EventKind::RequestedAlt,
        EventKind::Responded,
        EventKind::Transferred,
        EventKind::Withdrawn,
    ]
}

/// The place of a kind in the declared order.
pub open spec fn rank(kind: EventKind) -> int {
    match kind {
        EventKind::CallbackUpdated => 0,
        EventKind::CalledBack => 1,
        EventKind::Fulfilled => 2,
        EventKind::Registered => 3,
        EventKind::Requested => 4,
        EventKind::RequestedAlt => 5,
        EventKind::Responded => 6,
        EventKind::Transferred => 7,
        EventKind::Withdrawn => 8,
    }
}

/// One line of a registry: a kind of event and the bytes that announce it.
#[derive(Debug, Clone, Copy, PartialEq, Eq)]
pub struct RegistryEntry {
    pub kind: EventKind,
    pub discriminator: [u8; 8],
}

/// What a line of a registry says.
pub struct EntryView {
    pub kind: EventKind,
    pub discriminator: Seq<u8>,
}

impl View for RegistryEntry {
    type V = EntryView;

    open spec fn view(&self) -> EntryView {
        EntryView { kind: self.kind, discriminator: self.discriminator@ }
    }
}

impl DeepView for RegistryEntry {
    type V = EntryView;

    open spec fn deep_view(&self) -> EntryView {
        self@
    }
}

/// The line of the standard registry for `kind`.
pub open spec fn standard_entry(kind: EventKind) -> EntryView {
    EntryView { kind, discriminator: discriminator(kind) }
}

/// The standard registry: every kind with its discriminator, in the declared order.
pub open spec fn standard_table() -> Seq<EntryView> {
    declared_order().map_values(|kind: EventKind| standard_entry(kind))
}

/// Whether `bytes` start with the discriminator of `entry`.
pub open spec fn hits(entry: EntryView, bytes: Seq<u8>) -> bool {
    entry.discriminator.is_prefix_of(bytes)
}

/// The first line of `table` at or after `from` that `bytes` start with.
pub open spec fn first_hit_from(table: Seq<EntryView>, bytes: Seq<u8>, from: int) -> Option<int>
    decreases table.len() - from,
{
    if from < 0 || from >= table.len() {
        None
    } else if hits(table[from], bytes) {
        Some(from)
    } else {
        first_hit_from(table, bytes, from + 1)
    }
}

/// The first line of `table` that `bytes` start with.
pub open spec fn first_hit(table: Seq<EntryView>, bytes: Seq<u8>) -> Option<int> {
    first_hit_from(table, bytes, 0)
}

/// Every discriminator has eight bytes, and no two kinds share one.
pub proof fn lemma_discriminators_distinct(a: EventKind, b: EventKind)
    ensures
        discriminator(a).len() == DISCRIMINATOR_LEN,
        a != b ==> discriminator(a) != discriminator(b),
        a != b ==> discriminator(a)[0] != discriminator(b)[0],
{
}

/// Bytes start with the discriminator of at most one kind.
pub proof fn lemma_one_kind_at_most(a: EventKind, b: EventKind, bytes: Seq<u8>)
    requires
        discriminator(a).is_prefix_of(bytes),
        discriminator(b).is_prefix_of(bytes),
    ensures
        a == b,
{
    lemma_discriminators_distinct(a, b);
    assert(discriminator(a)[0] == bytes.subrange(0, 8)[0]);
    assert(discriminator(b)[0] == bytes.subrange(0, 8)[0]);
}

/// The standard registry holds each kind once, at its rank.
pub proof fn lemma_standard_table(kind: EventKind)
    ensures
        standard_table().len() == 9,
        0 <= rank(kind) < 9,
        standard_table()[rank(kind)] == standard_entry(kind),
        forall|i: int| 0 <= i < 9 ==> rank(#[trigger] standard_table()[i].kind) == i,
{
}

/// What the search skips did not match: a result of `from` on lies at or
/// after `from`, matches, and nothing between `from` and it does; no result
/// means no match from `from` on.
pub proof fn lemma_first_hit_from(table: Seq<EntryView>, bytes: Seq<u8>, from: int)
    requires
        0 <= from,
    ensures
        match first_hit_from(table, bytes, from) {
            Some(i) => {
                &&& from <= i < table.len()
                &&& hits(table[i], bytes)
                &&& forall|j: int| from <= j < i ==> !hits(#[trigger] table[j], bytes)
            },
            None => forall|j: int| from <= j < table.len() ==> !hits(#[trigger] table[j], bytes),
        },
    decreases table.len() - from,
{
    if from < table.len() && !hits(table[from], bytes) {
        lemma_first_hit_from(table, bytes, from + 1);
    }
}

/// The search finds the first line that matches, and finds none only where
/// no line matches.
pub proof fn lemma_first_hit(table: Seq<EntryView>, bytes: Seq<u8>)
    ensures
        match first_hit(table, bytes) {
            Some(i) => {
                &&& 0 <= i < table.len()
                &&& hits(table[i], bytes)
                &&& forall|j: int| 0 <= j < i ==> !hits(#[trigger] table[j], bytes)
            },
            None => forall|j: int| 0 <= j < table.len() ==> !hits(#[trigger] table[j], bytes),
        },
{
    lemma_first_hit_from(table, bytes, 0);
}

/// The first match wins: where two lines of a registry both match, the
/// search never answers with the later one.
pub proof fn lemma_first_match_wins(
    table: Seq<EntryView>,
    bytes: Seq<u8>,
    earlier: int,
    later: int,
)
    requires
        0 <= earlier < later < table.len(),
        hits(table[earlier], bytes),
        hits(table[later], bytes),
    ensures
        first_hit(table, bytes) is Some,
        first_hit(table, bytes)->Some_0 <= earlier,
        first_hit(table, bytes) != Some(later),
{
    lemma_first_hit(table, bytes);
}

/// A line that matches, with no match above it, is the one the search finds.
pub proof fn lemma_first_hit_found(table: Seq<EntryView>, bytes: Seq<u8>, i: int)
    requires
        0 <= i < table.len(),
        hits(table[i], bytes),
        forall|j: int| 0 <= j < i ==> !hits(#[trigger] table[j], bytes),
    ensures
        first_hit(table, bytes) == Some(i),
{
    lemma_first_hit(table, bytes);
}

/// In the standard registry the search finds the one kind whose discriminator
/// starts the bytes, and nothing where there is no such kind.
pub proof fn lemma_standard_hit(bytes: Seq<u8>)
    ensures
        match first_hit(standard_table(), bytes) {
            Some(i) => {
                &&& 0 <= i < 9
                &&& discriminator(standard_table()[i].kind).is_prefix_of(bytes)
                &&& forall|kind: EventKind| #[trigger]
                    discriminator(kind).is_prefix_of(bytes) ==> kind == standard_table()[i].kind
            },
            None => forall|kind: EventKind| !(#[trigger] discriminator(kind).is_prefix_of(bytes)),
        },
{
    let table = standard_table();
    lemma_first_hit(table, bytes);
    match first_hit(table, bytes) {
        Some(i) => {
            let found = table[i].kind;
            assert(hits(table[i], bytes));
            assert forall|kind: EventKind| #[trigger]
                discriminator(kind).is_prefix_of(bytes) implies kind == found by {
                lemma_one_kind_at_most(kind, found, bytes);
            }
        },
        None => {
            assert forall|kind: EventKind| !(#[trigger] discriminator(kind).is_prefix_of(
                bytes,
            )) by {
                lemma_standard_table(kind);
                assert(!hits(table[rank(kind)], bytes));
            }
        },
    }
}

/// The discriminator of a kind of event.
pub fn discriminator_of(kind: EventKind) -> (out: [u8; 8])
    ensures
        out@ == discriminator(kind),
{
    let out: [u8; 8] = match kind {
        EventKind::CallbackUpdated => [73, 115, 171, 177, 42, 193, 178, 202],
        EventKind::CalledBack => [80, 119, 132, 128, 66, 146, 64, 21],
        EventKind::Fulfilled => [210, 174, 131, 213, 40, 182, 83, 110],
        EventKind::Registered => [11, 222, 10, 72, 160, 110, 165, 227],
        EventKind::Requested => [193, 152, 94, 182, 138, 135, 173, 205],
        EventKind::RequestedAlt => [35, 45, 235, 194, 198, 184, 209, 54],
        EventKind::Responded => [126, 30, 4, 36, 65, 90, 60, 218],
        EventKind::Transferred => [21, 132, 239, 64, 146, 239, 166, 68],
        EventKind::Withdrawn => [20, 89, 223, 198, 194, 124, 219, 13],
    };
    proof {
        assert(out@ =~= discriminator(kind));
    }
    out
}

/// The line of the standard registry for `kind`.
pub fn entry_of(kind: EventKind) -> (out: RegistryEntry)
    ensures
        out@ == standard_entry(kind),
{
    RegistryEntry { kind, discriminator: discriminator_of(kind) }
}

/// The standard registry, in the declared order.
pub fn registry() -> (out: [RegistryEntry; 9])
    ensures
        out.deep_view() == standard_table(),
{
    let out: [RegistryEntry; 9] = [
        entry_of(EventKind::CallbackUpdated),
        entry_of(EventKind::CalledBack),
        entry_of(EventKind::Fulfilled),
        entry_of(EventKind::Registered),
        entry_of(EventKind::Requested),
        entry_of(EventKind::RequestedAlt),
        entry_of(EventKind::Responded),
        entry_of(EventKind::Transferred),
        entry_of(EventKind::Withdrawn),
    ];
    proof {
        assert(out.deep_view() =~= standard_table());
    }
    out
}

/// Whether `bytes` start with `prefix`.
pub fn starts_with(bytes: &[u8], prefix: &[u8]) -> (out: bool)
    ensures
        out == prefix@.is_prefix_of(bytes@),
{
    if prefix.len() > bytes.len() {
        return false;
    }
    let mut i: usize = 0;
    while i < prefix.len()
        invariant
            i <= prefix.len() <= bytes.len(),
            forall|j: int| 0 <= j < i ==> prefix@[j] == bytes@[j],
        decreases prefix.len() - i,
    {
        if prefix[i] != bytes[i] {
            proof {
                assert(bytes@.subrange(0, prefix@.len() as int)[i as int] == bytes@[i as int]);
            }
            return false;
        }
        i = i + 1;
    }
    true
}

/// Finds the first line of `table` whose discriminator `bytes` start with.
/// Lines further down are not looked at, whether they match or not.
pub fn first_match(table: &[RegistryEntry], bytes: &[u8]) -> (out: Option<usize>)
    ensures
        match out {
            Some(i) => {
                &&& first_hit(table.deep_view(), bytes@) == Some(i as int)
                &&& i < table.len()
                &&& hits(table[i as int]@, bytes@)
            },
            None => first_hit(table.deep_view(), bytes@) is None,
        },
{
    let mut i: usize = 0;
    while i < table.len()
        invariant
            i <= table.len(),
            first_hit(table.deep_view(), bytes@) == first_hit_from(
                table.deep_view(),
                bytes@,
                i as int,
            ),
        decreases table.len() - i,
    {
        if starts_with(bytes, table[i].discriminator.as_slice()) {
            return Some(i);
        }
        i = i + 1;
    }
    None
}

} // verus!
