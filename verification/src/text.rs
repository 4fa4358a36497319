//! The text forms that outside crates give: Base58 of a sequence of bytes,
//! as `bs58` writes it, and the text of an address, as the `Pubkey` of
//! `anchor_lang` displays it.

use vstd::prelude::*;

verus! {

/// The Base58 text of a sequence of bytes in the Bitcoin alphabet, which is
/// the text that `bs58` gives for it. It depends on the bytes alone.
pub uninterp spec fn base58_text(bytes: Seq<u8>) -> Seq<char>;

/// The text of the address with the given 32 bytes, which is what the
/// `Display` of a `Pubkey` writes for it. It depends on the bytes alone.
pub uninterp spec fn address_text(bytes: Seq<u8>) -> Seq<char>;

/// Encodes `bytes` with `bs58::encode(..).into_string()`.
///
/// Trusted, not proved: the contract only gives the result its name. The
/// encoder writes into a buffer that it sizes itself, so it does not fail,
/// and it reads nothing but `bytes`.
#[verifier::external_body]
pub(crate) fn base58_encode(bytes: &[u8]) -> (text: String)
    ensures
        text@ == base58_text(bytes@),
{
    bs58::encode(bytes).into_string()
}

/// Writes an address as `anchor_lang::prelude::Pubkey` displays it: the
/// bytes become a `Pubkey` by `Pubkey::new_from_array`, and its `Display`
/// gives the text.
///
/// Trusted, not proved: the contract only gives the result its name. The
/// `Display` of a `Pubkey` encodes its 32 bytes into a buffer of fixed size
/// and reads nothing else.
#[verifier::external_body]
pub(crate) fn address_display(bytes: &[u8; 32]) -> (text: String)
    ensures
        text@ == address_text(bytes@),
{
    anchor_lang::prelude::Pubkey::new_from_array(*bytes).to_string()
}

} // verus!
