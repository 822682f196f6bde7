//! The escrow: a token ledger and the live offers, each with its vault, and
//! the two operations that create and accept an offer.
//!
//! Both operations are atomic. Each decides first, on the state as it
//! stands, whether it can go through, and only then changes anything: a
//! failed operation leaves the state as it was.

use crate::book::OfferBook;
use crate::error::EscrowError;
use crate::instructions::accept_offer::{transfer_tokens_to_maker, withdraw_and_close_escrow, AcceptOffer};
use crate::instructions::make_offer::{save_offer, send_offered_tokens_to_escrow, MakeOffer};
use crate::ledger::{opened, Ledger, MintInfo};
use crate::state::{AccountKey, Authority, Identity, Offer, OfferKey};
use vstd::prelude::*;

verus! {

/// The shared state of the escrow. Only the two operations move funds into
/// and out of a vault: callers read the ledger and the offers, and change
/// them through this type alone.
#[derive(Clone, Debug, PartialEq, Eq)]
pub struct Escrow {
    ledger: Ledger,
    book: OfferBook,
}

/// Every live offer has its vault, and every vault its live offer: the offer
/// trades two registered assets, its vault is open and holds the asset
/// offered, and no account is owned by an offer that is not live.
pub open spec fn in_custody(ledger: &Ledger, book: &OfferBook) -> bool {
    &&& forall|key: OfferKey| #[trigger]
        book.offers().contains_key(key) ==> {
            &&& ledger.mints().contains_key(book.offers()[key].token_mint_a)
            &&& ledger.mints().contains_key(book.offers()[key].token_mint_b)
            &&& ledger.balances().contains_key(
                AccountKey::of_offer(key, book.offers()[key].token_mint_a),
            )
        }
    &&& forall|account: AccountKey| #[trigger]
        ledger.balances().contains_key(account) ==> (account.authority matches Authority::Offer(key)
            ==> book.offers().contains_key(key) && book.offers()[key].token_mint_a == account.mint)
}

/// Between `before` and `after` no vault was opened, closed, filled or
/// drained, but for `vault`.
pub open spec fn vaults_kept_but(
    before: Map<AccountKey, u64>,
    after: Map<AccountKey, u64>,
    vault: AccountKey,
) -> bool {
    forall|account: AccountKey|
        #![trigger before.contains_key(account)]
        #![trigger after.contains_key(account)]
        account.authority is Offer && account != vault ==> before.contains_key(account)
            == after.contains_key(account) && before[account] == after[account]
}

/// Between `before` and `after` no vault was opened, closed, filled or
/// drained.
pub open spec fn vaults_kept(before: Map<AccountKey, u64>, after: Map<AccountKey, u64>) -> bool {
    forall|account: AccountKey|
        #![trigger before.contains_key(account)]
        #![trigger after.contains_key(account)]
        account.authority is Offer ==> before.contains_key(account) == after.contains_key(account)
            && before[account] == after[account]
}

impl Escrow {
    /// The token ledger.
    pub closed spec fn spec_ledger(&self) -> &Ledger {
        &self.ledger
    }

    /// The token ledger, to read.
    #[verifier::when_used_as_spec(spec_ledger)]
    pub fn ledger(&self) -> (ledger: &Ledger)
        ensures
            ledger == self.spec_ledger(),
    {
        &self.ledger
    }

    /// The live offers.
    pub closed spec fn spec_book(&self) -> &OfferBook {
        &self.book
    }

    /// The live offers, to read.
    #[verifier::when_used_as_spec(spec_book)]
    pub fn book(&self) -> (book: &OfferBook)
        ensures
            book == self.spec_book(),
    {
        &self.book
    }

    /// The ledger and the store are in order, and offers and vaults go
    /// together.
    pub open spec fn wf(&self) -> bool {
        &&& self.ledger().wf()
        &&& self.book().wf()
        &&& in_custody(self.ledger(), self.book())
    }

    /// An escrow without assets, accounts or offers.
    pub fn new() -> (state: Escrow)
        ensures
            state.wf(),
            state.ledger().balances() == Map::<AccountKey, u64>::empty(),
            state.ledger().mints() == Map::<Identity, MintInfo>::empty(),
            state.book().offers() == Map::<OfferKey, Offer>::empty(),
    {
        Escrow { ledger: Ledger::new(), book: OfferBook::new() }
    }

    /// Registers the asset type `mint` with its decimal precision and no
    /// supply. Returns `false`, and changes nothing, if it is registered
    /// already.
    pub fn register_mint(&mut self, mint: Identity, decimals: u8) -> (registered: bool)
        requires
            old(self).wf(),
        ensures
            final(self).wf(),
            registered == !old(self).ledger().mints().contains_key(mint),
            !registered ==> *final(self) == *old(self),
            registered ==> final(self).ledger().mints() == old(self).ledger().mints().insert(
                mint,
                MintInfo { decimals, supply: 0 },
            ),
            final(self).ledger().balances() == old(self).ledger().balances(),
            final(self).book() == old(self).book(),
            forall|m: Identity| final(self).ledger().supply(m) == old(self).ledger().supply(m),
    {
        let registered = self.ledger.register_mint(mint, decimals);
        proof {
            assert forall|key: OfferKey| #[trigger]
                self.book.offers().contains_key(key) implies self.ledger.mints().contains_key(
                self.book.offers()[key].token_mint_a,
            ) && self.ledger.mints().contains_key(self.book.offers()[key].token_mint_b) by {
                assert(old(self).ledger.mints().contains_key(self.book.offers()[key].token_mint_a));
                assert(old(self).ledger.mints().contains_key(self.book.offers()[key].token_mint_b));
            }
        }
        registered
    }

    /// Opens the account in which `owner` holds asset `mint`, empty, unless
    /// it is open already. Fails with `AssetMismatch`, and changes nothing,
    /// if `mint` is not registered.
    pub fn open_account(&mut self, owner: Identity, mint: Identity) -> (r: Result<(), EscrowError>)
        requires
            old(self).wf(),
        ensures
            final(self).wf(),
            r == if old(self).ledger().mints().contains_key(mint) {
                Ok::<(), EscrowError>(())
            } else {
                Err(EscrowError::AssetMismatch)
            },
            r is Err ==> *final(self) == *old(self),
            r is Ok ==> final(self).ledger().balances() == opened(
                old(self).ledger().balances(),
                AccountKey::of_party(owner, mint),
            ),
            vaults_kept(old(self).ledger().balances(), final(self).ledger().balances()),
            final(self).ledger().mints() == old(self).ledger().mints(),
            final(self).book() == old(self).book(),
            forall|m: Identity| final(self).ledger().supply(m) == old(self).ledger().supply(m),
    {
        let r = self.ledger.open_account(AccountKey::party(owner, mint));
        proof {
            if r is Ok {
                assert forall|account: AccountKey| #[trigger]
                    self.ledger.balances().contains_key(account) implies (account.authority matches Authority::Offer(
                    key,
                ) ==> self.book.offers().contains_key(key) && self.book.offers()[key].token_mint_a
                    == account.mint) by {
                    assert(account == AccountKey::of_party(owner, mint) || old(
                        self,
                    ).ledger.balances().contains_key(account));
                }
            }
        }
        r
    }

    /// Credits `amount` of new supply of asset `mint` to the open account of
    /// `owner`. Returns `false`, and changes nothing, if the account is not
    /// open or the supply of `mint` would no longer fit in 64 bits.
    pub fn mint_to(&mut self, owner: Identity, mint: Identity, amount: u64) -> (minted: bool)
        requires
            old(self).wf(),
        ensures
            final(self).wf(),
            minted == (old(self).ledger().balances().contains_key(AccountKey::of_party(owner, mint))
                && old(self).ledger().supply(mint) + amount <= u64::MAX),
            !minted ==> *final(self) == *old(self),
            minted ==> final(self).ledger().balances() == old(self).ledger().balances().insert(
                AccountKey::of_party(owner, mint),
                (old(self).ledger().balances()[AccountKey::of_party(owner, mint)] + amount) as u64,
            ),
            minted ==> final(self).ledger().mints() == old(self).ledger().mints().insert(
                mint,
                MintInfo {
                    decimals: old(self).ledger().mints()[mint].decimals,
                    supply: (old(self).ledger().supply(mint) + amount) as u64,
                },
            ),
            vaults_kept(old(self).ledger().balances(), final(self).ledger().balances()),
            final(self).book() == old(self).book(),
            forall|m: Identity|
                final(self).ledger().supply(m) == old(self).ledger().supply(m) + if minted && m
                    == mint {
                    amount as nat
                } else {
                    0
                },
    {
        let key = AccountKey::party(owner, mint);
        let minted = self.ledger.mint_to(&key, amount);
        proof {
            if minted {
                assert forall|k: OfferKey| #[trigger]
                    self.book.offers().contains_key(k) implies self.ledger.mints().contains_key(
                    self.book.offers()[k].token_mint_a,
                ) && self.ledger.mints().contains_key(self.book.offers()[k].token_mint_b)
                    && self.ledger.balances().contains_key(
                    AccountKey::of_offer(k, self.book.offers()[k].token_mint_a),
                ) by {
                    assert(old(self).ledger.mints().contains_key(self.book.offers()[k].token_mint_a));
                    assert(old(self).ledger.mints().contains_key(self.book.offers()[k].token_mint_b));
                }
                assert forall|account: AccountKey| #[trigger]
                    self.ledger.balances().contains_key(account) implies (account.authority matches Authority::Offer(
                    k,
                ) ==> self.book.offers().contains_key(k) && self.book.offers()[k].token_mint_a
                    == account.mint) by {
                    assert(old(self).ledger.balances().contains_key(account));
                }
            }
        }
        minted
    }
}

/// Creates an offer: the maker deposits `token_a_offered_amount` of asset A
/// in a new vault and asks `token_b_wanted_amount` of asset B for it.
///
/// Either the deposit has moved into the vault and the record stands, or an
/// error is returned and nothing has changed. No value is made or lost.
pub fn make_offer(
    state: &mut Escrow,
    ctx: &MakeOffer,
    id: u64,
    token_a_offered_amount: u64,
    token_b_wanted_amount: u64,
) -> (r: Result<Offer, EscrowError>)
    requires
        old(state).wf(),
    ensures
        final(state).wf(),
        match r {
            Ok(offer) => {
                &&& ctx.outcome(old(state).ledger(), old(state).book(), id, token_a_offered_amount)
                    is Ok
                &&& offer == ctx.record(id, token_b_wanted_amount)
                &&& final(state).book().offers() == old(state).book().offers().insert(
                    ctx.offer,
                    offer,
                )
                &&& final(state).ledger().balances() == ctx.funded(
                    old(state).ledger().balances(),
                    token_a_offered_amount,
                )
                &&& final(state).ledger().balances()[ctx.maker_token_account_a] == old(
                    state,
                ).ledger().balances()[ctx.maker_token_account_a] - token_a_offered_amount
                &&& final(state).ledger().balances().contains_key(ctx.vault)
                &&& final(state).ledger().balances()[ctx.vault] == token_a_offered_amount
                &&& !old(state).ledger().balances().contains_key(ctx.vault)
            },
            Err(e) => {
                &&& ctx.outcome(old(state).ledger(), old(state).book(), id, token_a_offered_amount)
                    == Err::<(), EscrowError>(e)
                &&& *final(state) == *old(state)
            },
        },
        vaults_kept_but(
            old(state).ledger().balances(),
            final(state).ledger().balances(),
            ctx.vault,
        ),
        final(state).ledger().mints() == old(state).ledger().mints(),
        forall|m: Identity| final(state).ledger().supply(m) == old(state).ledger().supply(m),
{
    ctx.validate(&state.ledger, &state.book, id, token_a_offered_amount)?;
    proof {
        if state.ledger.balances().contains_key(ctx.vault) {
            assert(state.book.offers().contains_key(ctx.offer));
        }
    }
    // From here on nothing fails: the decision above has seen to it.
    state.ledger.open_account(ctx.vault)?;
    send_offered_tokens_to_escrow(&mut state.ledger, ctx, token_a_offered_amount)?;
    let offer = save_offer(&mut state.book, ctx, id, token_b_wanted_amount)?;
    proof {
        assert forall|key: OfferKey| #[trigger]
            state.book.offers().contains_key(key) implies state.ledger.mints().contains_key(
            state.book.offers()[key].token_mint_a,
        ) && state.ledger.mints().contains_key(state.book.offers()[key].token_mint_b)
            && state.ledger.balances().contains_key(
            AccountKey::of_offer(key, state.book.offers()[key].token_mint_a),
        ) by {
            if key != ctx.offer {
                assert(old(state).book.offers().contains_key(key));
            }
        }
        assert forall|account: AccountKey| #[trigger]
            state.ledger.balances().contains_key(account) implies (account.authority matches Authority::Offer(
            key,
        ) ==> state.book.offers().contains_key(key) && state.book.offers()[key].token_mint_a
            == account.mint) by {
            if account != ctx.vault {
                assert(old(state).ledger.balances().contains_key(account));
            }
        }
    }
    Ok(offer)
}

/// Accepts an offer: the taker pays what the maker wants of asset B and
/// receives all that the vault holds of asset A; the vault and the record
/// are closed in favour of the maker.
///
/// Either the whole swap has happened and the offer and its vault are gone,
/// or an error is returned and nothing has changed. No value is made or
/// lost. A payment by the maker to the maker moves nothing, and where the
/// two assets are one the taker pays from the account that receives: the
/// two balances stated below say what comes of that.
pub fn accept_offer(state: &mut Escrow, ctx: &AcceptOffer) -> (r: Result<(), EscrowError>)
    requires
        old(state).wf(),
    ensures
        final(state).wf(),
        match r {
            Ok(()) => {
                let offer = old(state).book().offers()[ctx.offer];
                let paid: int = if ctx.taker != ctx.maker {
                    offer.token_b_wanted_amount as int
                } else {
                    0
                };
                let released = old(state).ledger().balances()[ctx.vault];
                let one_asset = ctx.token_mint_a == ctx.token_mint_b;
                &&& ctx.outcome(old(state).ledger(), old(state).book()) is Ok
                &&& final(state).book().offers() == old(state).book().offers().remove(ctx.offer)
                &&& final(state).ledger().balances() == ctx.settled(
                    old(state).ledger().balances(),
                    offer,
                )
                &&& !final(state).book().offers().contains_key(ctx.offer)
                &&& !final(state).ledger().balances().contains_key(ctx.vault)
                &&& final(state).ledger().balances()[ctx.taker_token_account_a] == old(
                    state,
                ).ledger().held(ctx.taker_token_account_a) + released - if one_asset {
                    paid
                } else {
                    0
                }
                &&& final(state).ledger().balances()[ctx.maker_token_account_b] == old(
                    state,
                ).ledger().held(ctx.maker_token_account_b) + paid + if one_asset && ctx.taker
                    == ctx.maker {
                    released as int
                } else {
                    0
                }
            },
            Err(e) => {
                &&& ctx.outcome(old(state).ledger(), old(state).book()) == Err::<(), EscrowError>(e)
                &&& *final(state) == *old(state)
            },
        },
        vaults_kept_but(
            old(state).ledger().balances(),
            final(state).ledger().balances(),
            ctx.vault,
        ),
        final(state).ledger().mints() == old(state).ledger().mints(),
        forall|m: Identity| final(state).ledger().supply(m) == old(state).ledger().supply(m),
{
    let offer = ctx.validate(&state.ledger, &state.book)?;
    proof {
        assert(state.book.offers().contains_key(ctx.offer));
        assert(ctx.vault == AccountKey::of_offer(ctx.offer, offer.token_mint_a));
        assert(state.ledger.balances().contains_key(ctx.vault));
    }
    // From here on nothing fails: the decision above has seen to it.
    state.ledger.open_account(ctx.taker_token_account_a)?;
    state.ledger.open_account(ctx.maker_token_account_b)?;
    transfer_tokens_to_maker(&mut state.ledger, ctx, &offer)?;
    withdraw_and_close_escrow(&mut state.ledger, ctx, &offer)?;
    state.book.remove(&ctx.offer);
    proof {
        assert forall|key: OfferKey| #[trigger]
            state.book.offers().contains_key(key) implies state.ledger.mints().contains_key(
            state.book.offers()[key].token_mint_a,
        ) && state.ledger.mints().contains_key(state.book.offers()[key].token_mint_b)
            && state.ledger.balances().contains_key(
            AccountKey::of_offer(key, state.book.offers()[key].token_mint_a),
        ) by {
            assert(old(state).book.offers().contains_key(key));
        }
        assert forall|account: AccountKey| #[trigger]
            state.ledger.balances().contains_key(account) implies (account.authority matches Authority::Offer(
            key,
        ) ==> state.book.offers().contains_key(key) && state.book.offers()[key].token_mint_a
            == account.mint) by {
            if account != ctx.taker_token_account_a && account != ctx.maker_token_account_b {
                assert(old(state).ledger.balances().contains_key(account));
            }
        }
    }
    Ok(())
}

} // verus!
