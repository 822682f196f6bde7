use vstd::prelude::*;

verus! {

/// Why an escrow operation did not happen. A failed operation leaves every
/// balance and every offer as it was.
#[derive(Clone, Copy, Debug, PartialEq, Eq, Structural, Hash)]
pub enum EscrowError {
    /// The paying account is not open or holds less than the amount asked.
    InsufficientFunds,
    /// The maker already has a live offer under this id.
    DuplicateOffer,
    /// An account holds another asset than the one stated, or the asset or
    /// its decimal precision is not the registered one.
    AssetMismatch,
    /// The accounts supplied are not the ones the offer and its parties own.
    AccountMismatch,
    /// The authority that was to sign for a transfer does not own the source.
    InvalidAuthority,
    /// No live offer stands under the key referred to.
    OfferNotFound,
}

} // verus!
