//! Addresses: the identity of a caller and the key of a record.

use anchor_lang::prelude::Pubkey;
use vstd::prelude::*;

verus! {

/// The ledger's address type, `anchor_lang::prelude::Pubkey`: the `Address`
/// of the `solana-address` crate under the name that the framework gives it.
///
/// The verifier treats an address as an opaque value: it can be stored,
/// copied and compared, and nothing else is known of it.
#[verifier::external_type_specification]
#[verifier::external_body]
pub struct ExPubkey(anchor_lang::prelude::Pubkey);

/// Compares two addresses with `Pubkey`'s `PartialEq::eq`.
///
/// Trusted, not proved: an address is a fixed array of 32 bytes and the impl
/// is derived, so it answers `true` exactly when the two are the same
/// address.
#[verifier::external_body]
pub(crate) fn same_key(a: &Pubkey, b: &Pubkey) -> (same: bool)
    ensures
        same == (*a == *b),
{
    a == b
}

} // verus!
