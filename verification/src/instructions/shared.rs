use crate::error::EscrowError;
use crate::ledger::{credit_fits, moved, Ledger, TransferChecked};
use crate::state::{AccountKey, Authority, Identity};
use vstd::prelude::*;

verus! {

/// Moves `amount` of asset `mint` from `from` to `to` by a checked transfer
/// that states the precision registered for `mint`. Either the whole amount
/// moves or nothing changes.
pub fn transfer_tokens(
    ledger: &mut Ledger,
    from: &AccountKey,
    to: &AccountKey,
    amount: u64,
    mint: &Identity,
    authority: &Authority,
) -> (r: Result<(), EscrowError>)
    requires
        old(ledger).wf(),
    ensures
        final(ledger).wf(),
        r == old(ledger).transfer_outcome(
            TransferChecked { from: *from, to: *to, mint: *mint, authority: *authority },
            amount,
            old(ledger).precision(*mint),
        ),
        r is Err || *from == *to ==> *final(ledger) == *old(ledger),
        r is Ok ==> final(ledger).balances() == moved(old(ledger).balances(), *from, *to, amount),
        r is Ok ==> credit_fits(old(ledger).balances(), *from, *to, amount),
        final(ledger).mints() == old(ledger).mints(),
        forall|m: Identity| final(ledger).supply(m) == old(ledger).supply(m),
{
    let decimals = match ledger.decimals(mint) {
        Some(decimals) => decimals,
        None => {
            return Err(EscrowError::AssetMismatch);
        },
    };
    let accounts = TransferChecked { from: *from, to: *to, mint: *mint, authority: *authority };
    ledger.transfer_checked(&accounts, amount, decimals)
}

} // verus!
