//! What holds of the two operations taken together.

use crate::error::EscrowError;
use crate::escrow::Escrow;
use crate::instructions::accept_offer::AcceptOffer;
use crate::instructions::make_offer::MakeOffer;
use crate::ledger::{applied, opened};
use crate::state::{AccountKey, Authority, Offer, OfferKey};
use vstd::prelude::*;

verus! {

/// An offer is accepted once. Where one acceptance went through, taking the
/// escrow from `before` to `after`, any further acceptance of the same offer
/// finds no offer, whatever accounts it names and whoever the taker is.
pub proof fn accepted_offer_is_gone(
    before: Escrow,
    after: Escrow,
    first: AcceptOffer,
    second: AcceptOffer,
)
    requires
        before.wf(),
        first.outcome(before.ledger(), before.book()) is Ok,
        after.book().offers() == before.book().offers().remove(first.offer),
        second.offer == first.offer,
    ensures
        second.outcome(after.ledger(), after.book()) == Err::<(), EscrowError>(
            EscrowError::OfferNotFound,
        ),
{
}

/// The two sides of the swap do not run into each other. They do where the
/// maker accepts their own offer, so that the payment moves nothing, or where
/// the offer trades an asset for itself, so that the taker pays from the
/// account that receives; then only amounts that happen to agree keep the two
/// sides apart.
pub open spec fn sides_apart(ctx: AcceptOffer, offer: Offer, released: u64) -> bool {
    if ctx.taker == ctx.maker {
        if ctx.token_mint_a == ctx.token_mint_b {
            released == offer.token_b_wanted_amount
        } else {
            offer.token_b_wanted_amount == 0
        }
    } else {
        ctx.token_mint_a != ctx.token_mint_b || offer.token_b_wanted_amount == 0
    }
}

/// An acceptance settles both sides in full: in the balances that it leaves,
/// the vault is closed, the taker's holding of asset A has grown by all that
/// the vault held, and the maker's holding of asset B has grown by the
/// wanted amount. The two balances come out so on every acceptance whose
/// sides are apart, and on no other. An account that was not open before
/// counts as empty.
pub proof fn acceptance_settles_both_sides(state: Escrow, ctx: AcceptOffer)
    requires
        state.wf(),
        ctx.outcome(state.ledger(), state.book()) is Ok,
    ensures
        ({
            let before = state.ledger().balances();
            let offer = state.book().offers()[ctx.offer];
            let after = ctx.settled(before, offer);
            &&& before.contains_key(ctx.vault)
            &&& !after.contains_key(ctx.vault)
            &&& after.contains_key(ctx.taker_token_account_a)
            &&& after.contains_key(ctx.maker_token_account_b)
            &&& sides_apart(ctx, offer, before[ctx.vault]) <==> {
                &&& after[ctx.taker_token_account_a] == state.ledger().held(
                    ctx.taker_token_account_a,
                ) + before[ctx.vault]
                &&& after[ctx.maker_token_account_b] == state.ledger().held(
                    ctx.maker_token_account_b,
                ) + offer.token_b_wanted_amount
            }
        }),
{
    let ledger = state.ledger();
    let before = ledger.balances();
    let offer = state.book().offers()[ctx.offer];
    assert(state.book().offers().contains_key(ctx.offer));
    assert(ctx.vault == AccountKey::of_offer(ctx.offer, offer.token_mint_a));
    assert(before.contains_key(ctx.vault));
    if before.contains_key(ctx.maker_token_account_b) && ctx.maker_token_account_b
        != ctx.taker_token_account_b {
        ledger.two_accounts_fit(ctx.taker_token_account_b, ctx.maker_token_account_b);
    }
    if before.contains_key(ctx.taker_token_account_a) {
        ledger.two_accounts_fit(ctx.vault, ctx.taker_token_account_a);
    }
    if before.contains_key(ctx.maker_token_account_b) && ctx.maker_token_account_b
        == ctx.taker_token_account_a {
        ledger.two_accounts_fit(ctx.vault, ctx.maker_token_account_b);
    }
}

/// An acceptance between two parties, of one asset for another, changes four
/// accounts and no other: the taker has received all that the vault held and
/// paid the wanted amount, the maker has received the wanted amount, and the
/// vault is closed.
pub proof fn acceptance_between_two_parties(state: Escrow, ctx: AcceptOffer, other: AccountKey)
    requires
        state.wf(),
        ctx.outcome(state.ledger(), state.book()) is Ok,
        ctx.taker != ctx.maker,
        ctx.token_mint_a != ctx.token_mint_b,
    ensures
        ({
            let before = state.ledger().balances();
            let offer = state.book().offers()[ctx.offer];
            let after = ctx.settled(before, offer);
            &&& sides_apart(ctx, offer, before[ctx.vault])
            &&& after.contains_key(ctx.taker_token_account_b)
            &&& after[ctx.taker_token_account_b] == before[ctx.taker_token_account_b]
                - offer.token_b_wanted_amount
            &&& other != ctx.vault && other != ctx.taker_token_account_a && other
                != ctx.taker_token_account_b && other != ctx.maker_token_account_b ==> (
            after.contains_key(other) == before.contains_key(other) && after[other] == before[other])
        }),
{
}

/// The balances that an acceptance leaves are those that its plan makes: the
/// two receiving accounts are opened, then the payment, the release of all
/// that the vault then holds, and the closure go through in turn, at
/// whatever precisions they state.
pub proof fn plan_settles(
    ctx: AcceptOffer,
    offer: Offer,
    balances: Map<AccountKey, u64>,
    precision_a: u8,
    precision_b: u8,
)
    ensures
        ({
            let ready = opened(
                opened(balances, ctx.taker_token_account_a),
                ctx.maker_token_account_b,
            );
            let paid = applied(ready, ctx.payment(&offer, precision_b));
            let plan = ctx.spec_plan(&offer, paid[ctx.vault], precision_a, precision_b);
            applied(applied(applied(ready, plan[0]), plan[1]), plan[2]) == ctx.settled(
                balances,
                offer,
            )
        }),
{
}

/// An id is used once while its offer lives. Where one creation went
/// through, taking the escrow from `before` to `after`, no further creation
/// by the same maker under the same id goes through, whatever the amounts:
/// it is refused as a duplicate, unless it names accounts that are not the
/// maker's own, and is refused for that.
pub proof fn created_offer_blocks_its_id(
    before: Escrow,
    after: Escrow,
    first: MakeOffer,
    second: MakeOffer,
    id: u64,
    first_amount: u64,
    second_amount: u64,
)
    requires
        before.wf(),
        first.outcome(before.ledger(), before.book(), id, first_amount) is Ok,
        after.book().offers().contains_key(first.offer),
        second.maker == first.maker,
    ensures
        second.outcome(after.ledger(), after.book(), id, second_amount) == Err::<(), EscrowError>(
            if second.offer == first.offer && second.maker_token_account_a.authority
                == Authority::Party(second.maker) {
                EscrowError::DuplicateOffer
            } else {
                EscrowError::AccountMismatch
            },
        ),
{
}

/// A live offer and its vault stand and fall together: in a well-formed
/// escrow the vault of every live offer is open, and every open account that
/// an offer owns is the vault of a live offer.
pub proof fn offer_and_vault_go_together(state: Escrow, key: OfferKey, account: AccountKey)
    requires
        state.wf(),
    ensures
        state.book().offers().contains_key(key) ==> state.ledger().balances().contains_key(
            AccountKey::of_offer(key, state.book().offers()[key].token_mint_a),
        ),
        state.ledger().balances().contains_key(account) && account.authority == Authority::Offer(key) ==> state.book().offers().contains_key(key) && account == AccountKey::of_offer(
            key,
            state.book().offers()[key].token_mint_a,
        ),
{
}

} // verus!
