use crate::book::OfferBook;
use crate::constants::{offer_seed, offer_seed_bytes};
use crate::error::EscrowError;
use crate::instructions::shared::transfer_tokens;
use crate::ledger::{
    applied, credit_fits, moved, opened, CloseAccount, Ledger, TokenInstruction, TransferChecked,
};
use crate::state::{AccountKey, Authority, Identity, Offer, OfferKey};
use vstd::bytes::{spec_u64_to_le_bytes, u64_to_le_bytes};
use vstd::prelude::*;

verus! {

/// The taker's payment of asset B to the maker: the first half of the swap.
/// Either the wanted amount moves or nothing changes.
pub fn transfer_tokens_to_maker(ledger: &mut Ledger, ctx: &AcceptOffer, offer: &Offer) -> (r: Result<
    (),
    EscrowError,
>)
    requires
        old(ledger).wf(),
    ensures
        final(ledger).wf(),
        r == old(ledger).outcome_of(ctx.payment(offer, old(ledger).precision(ctx.token_mint_b))),
        r is Err ==> *final(ledger) == *old(ledger),
        r is Ok ==> final(ledger).balances() == applied(
            old(ledger).balances(),
            ctx.payment(offer, old(ledger).precision(ctx.token_mint_b)),
        ),
        r is Ok ==> credit_fits(
            old(ledger).balances(),
            ctx.taker_token_account_b,
            ctx.maker_token_account_b,
            offer.token_b_wanted_amount,
        ),
        final(ledger).mints() == old(ledger).mints(),
        forall|m: Identity| final(ledger).supply(m) == old(ledger).supply(m),
{
    transfer_tokens(
        ledger,
        &ctx.taker_token_account_b,
        &ctx.maker_token_account_b,
        offer.token_b_wanted_amount,
        &ctx.token_mint_b,
        &Authority::Party(ctx.taker),
    )
}

/// The release of the vault as `ledger` stands: the transfer of all that the
/// vault holds, at the precision registered for asset A.
pub open spec fn release_on(ledger: &Ledger, ctx: &AcceptOffer, offer: &Offer) -> TokenInstruction {
    ctx.release(offer, ledger.held(ctx.vault), ledger.precision(ctx.token_mint_a))
}

/// How the release and closure of the vault end on `ledger`: as the release
/// does, and then as the closure does on what the release leaves. A vault
/// that names itself as the receiver keeps what it holds and cannot be
/// closed unless it is empty.
pub open spec fn withdraw_outcome(ledger: &Ledger, ctx: &AcceptOffer, offer: &Offer) -> Result<
    (),
    EscrowError,
> {
    let released = ledger.outcome_of(release_on(ledger, ctx, offer));
    if released is Err {
        released
    } else if ctx.vault == ctx.taker_token_account_a && ledger.held(ctx.vault) != 0 {
        Err(EscrowError::AccountMismatch)
    } else {
        Ok(())
    }
}

/// The second half of the swap: all that the vault holds at this moment goes
/// to the taker, signed for by the offer itself, and the empty vault is
/// closed in favour of the maker. Either both happen or nothing changes.
pub fn withdraw_and_close_escrow(ledger: &mut Ledger, ctx: &AcceptOffer, offer: &Offer) -> (r: Result<
    (),
    EscrowError,
>)
    requires
        old(ledger).wf(),
    ensures
        final(ledger).wf(),
        r == withdraw_outcome(old(ledger), ctx, offer),
        r is Err ==> *final(ledger) == *old(ledger),
        r is Ok ==> final(ledger).balances() == applied(
            applied(old(ledger).balances(), release_on(old(ledger), ctx, offer)),
            ctx.closure(offer),
        ),
        r is Ok ==> credit_fits(
            old(ledger).balances(),
            ctx.vault,
            ctx.taker_token_account_a,
            old(ledger).held(ctx.vault),
        ),
        final(ledger).mints() == old(ledger).mints(),
        forall|m: Identity| final(ledger).supply(m) == old(ledger).supply(m),
{
    let authority = ctx.authority(offer);
    let in_vault = match ledger.balance(&ctx.vault) {
        Some(amount) => amount,
        None => 0,
    };
    transfer_tokens(
        ledger,
        &ctx.vault,
        &ctx.taker_token_account_a,
        in_vault,
        &ctx.token_mint_a,
        &authority,
    )?;
    ledger.process(&ctx.closure(offer))
}

/// The accounts that one acceptance names.
#[derive(Clone, Copy, Debug, PartialEq, Eq, Structural, Hash)]
pub struct AcceptOffer {
    /// Who accepts, and signs for the payment.
    pub taker: Identity,
    /// Who made the offer.
    pub maker: Identity,
    /// The asset in the vault.
    pub token_mint_a: Identity,
    /// The asset the maker wants.
    pub token_mint_b: Identity,
    /// Where the taker receives asset A; opened if need be.
    pub taker_token_account_a: AccountKey,
    /// From where the taker pays asset B.
    pub taker_token_account_b: AccountKey,
    /// Where the maker receives asset B; opened if need be.
    pub maker_token_account_b: AccountKey,
    /// The offer that is accepted.
    pub offer: OfferKey,
    /// The vault of that offer.
    pub vault: AccountKey,
}

impl AcceptOffer {
    /// The accounts of the acceptance, by `taker`, of the offer that `maker`
    /// made under `id` of asset A for asset B.
    pub fn new(
        taker: Identity,
        maker: Identity,
        token_mint_a: Identity,
        token_mint_b: Identity,
        id: u64,
    ) -> (ctx: AcceptOffer)
        ensures
            ctx == (AcceptOffer {
                taker,
                maker,
                token_mint_a,
                token_mint_b,
                taker_token_account_a: AccountKey::of_party(taker, token_mint_a),
                taker_token_account_b: AccountKey::of_party(taker, token_mint_b),
                maker_token_account_b: AccountKey::of_party(maker, token_mint_b),
                offer: OfferKey { maker, id },
                vault: AccountKey::of_offer(OfferKey { maker, id }, token_mint_a),
            }),
    {
        let offer = OfferKey { maker, id };
        AcceptOffer {
            taker,
            maker,
            token_mint_a,
            token_mint_b,
            taker_token_account_a: AccountKey::party(taker, token_mint_a),
            taker_token_account_b: AccountKey::party(taker, token_mint_b),
            maker_token_account_b: AccountKey::party(maker, token_mint_b),
            offer,
            vault: AccountKey::vault(offer, token_mint_a),
        }
    }

    /// The authority that releases the vault: the record that `maker` keeps
    /// under the id of `offer`.
    pub open spec fn spec_authority(&self, offer: &Offer) -> Authority {
        Authority::Offer(OfferKey { maker: self.maker, id: offer.id })
    }

    /// The authority that releases the vault.
    #[verifier::when_used_as_spec(spec_authority)]
    pub fn authority(&self, offer: &Offer) -> (authority: Authority)
        ensures
            authority == self.spec_authority(offer),
    {
        Authority::Offer(OfferKey { maker: self.maker, id: offer.id })
    }

    /// The seeds by which the offer signs for its vault: the word `offer`,
    /// the maker's 32 bytes, the id in eight bytes little-endian, and the
    /// salt of the record's address.
    pub fn signer_seeds(&self, offer: &Offer) -> (seeds: Vec<Vec<u8>>)
        ensures
            seeds@.len() == 4,
            seeds@[0]@ == offer_seed(),
            seeds@[1]@ == self.maker.spec_bytes(),
            seeds@[2]@ == spec_u64_to_le_bytes(offer.id),
            seeds@[3]@ == seq![offer.bump],
    {
        let mut seeds: Vec<Vec<u8>> = Vec::new();
        seeds.push(offer_seed_bytes());
        seeds.push(self.maker.to_bytes());
        seeds.push(u64_to_le_bytes(offer.id));
        let salt: Vec<u8> = vec![offer.bump];
        assert(salt@ =~= seq![offer.bump]);
        seeds.push(salt);
        seeds
    }

    /// The taker's payment: the wanted amount of asset B from the taker to
    /// the maker, signed for by the taker.
    pub open spec fn spec_payment(&self, offer: &Offer, precision_b: u8) -> TokenInstruction {
        TokenInstruction::TransferChecked {
            transfer: TransferChecked {
                from: self.taker_token_account_b,
                to: self.maker_token_account_b,
                mint: self.token_mint_b,
                authority: Authority::Party(self.taker),
            },
            amount: offer.token_b_wanted_amount,
            decimals: precision_b,
        }
    }

    /// The taker's payment, stating `precision_b` as the precision of asset B.
    #[verifier::when_used_as_spec(spec_payment)]
    pub fn payment(&self, offer: &Offer, precision_b: u8) -> (instruction: TokenInstruction)
        ensures
            instruction == self.spec_payment(offer, precision_b),
    {
        TokenInstruction::TransferChecked {
            transfer: TransferChecked {
                from: self.taker_token_account_b,
                to: self.maker_token_account_b,
                mint: self.token_mint_b,
                authority: Authority::Party(self.taker),
            },
            amount: offer.token_b_wanted_amount,
            decimals: precision_b,
        }
    }

    /// The release of the vault: all of `in_vault`, what the vault holds at
    /// this moment, from the vault to the taker, signed for by the offer.
    pub open spec fn spec_release(&self, offer: &Offer, in_vault: u64, precision_a: u8) -> TokenInstruction {
        TokenInstruction::TransferChecked {
            transfer: TransferChecked {
                from: self.vault,
                to: self.taker_token_account_a,
                mint: self.token_mint_a,
                authority: self.spec_authority(offer),
            },
            amount: in_vault,
            decimals: precision_a,
        }
    }

    /// The release of the vault, stating `precision_a` as the precision of
    /// asset A.
    #[verifier::when_used_as_spec(spec_release)]
    pub fn release(&self, offer: &Offer, in_vault: u64, precision_a: u8) -> (instruction: TokenInstruction)
        ensures
            instruction == self.spec_release(offer, in_vault, precision_a),
    {
        TokenInstruction::TransferChecked {
            transfer: TransferChecked {
                from: self.vault,
                to: self.taker_token_account_a,
                mint: self.token_mint_a,
                authority: self.authority(offer),
            },
            amount: in_vault,
            decimals: precision_a,
        }
    }

    /// The closure of the vault: what is left of it goes to the maker.
    pub open spec fn spec_closure(&self, offer: &Offer) -> TokenInstruction {
        TokenInstruction::CloseAccount {
            closure: CloseAccount {
                account: self.vault,
                destination: self.maker,
                authority: self.spec_authority(offer),
            },
        }
    }

    /// The closure of the vault.
    #[verifier::when_used_as_spec(spec_closure)]
    pub fn closure(&self, offer: &Offer) -> (instruction: TokenInstruction)
        ensures
            instruction == self.spec_closure(offer),
    {
        TokenInstruction::CloseAccount {
            closure: CloseAccount {
                account: self.vault,
                destination: self.maker,
                authority: self.authority(offer),
            },
        }
    }

    /// The calls on the token ledger that make up the acceptance, in the
    /// order in which they are made: the payment, the release, the closure.
    pub open spec fn spec_plan(
        &self,
        offer: &Offer,
        in_vault: u64,
        precision_a: u8,
        precision_b: u8,
    ) -> Seq<TokenInstruction> {
        seq![
            self.spec_payment(offer, precision_b),
            self.spec_release(offer, in_vault, precision_a),
            self.spec_closure(offer),
        ]
    }

    /// The calls on the token ledger that make up the acceptance, in order.
    /// The record is closed in favour of the maker once all have gone
    /// through; if one fails, none is to count.
    pub fn plan(&self, offer: &Offer, in_vault: u64, precision_a: u8, precision_b: u8) -> (calls: Vec<
        TokenInstruction,
    >)
        ensures
            calls@ == self.spec_plan(offer, in_vault, precision_a, precision_b),
    {
        let mut calls: Vec<TokenInstruction> = Vec::new();
        calls.push(self.payment(offer, precision_b));
        calls.push(self.release(offer, in_vault, precision_a));
        calls.push(self.closure(offer));
        assert(calls@ =~= self.spec_plan(offer, in_vault, precision_a, precision_b));
        calls
    }

    /// The accounts named are the ones that the offer `offer` and its two
    /// parties own.
    pub open spec fn matches(&self, offer: Offer) -> bool {
        &&& offer.spec_key() == self.offer
        &&& offer.maker == self.maker
        &&& offer.token_mint_a == self.token_mint_a
        &&& offer.token_mint_b == self.token_mint_b
        &&& self.taker_token_account_a == AccountKey::of_party(self.taker, self.token_mint_a)
        &&& self.taker_token_account_b == AccountKey::of_party(self.taker, self.token_mint_b)
        &&& self.maker_token_account_b == AccountKey::of_party(self.maker, self.token_mint_b)
        &&& self.vault.mint == self.token_mint_a
    }

    /// How the acceptance ends, by the record found under the key named, if
    /// any, and by what the taker's paying account holds, if it is open. The
    /// offer is looked at first, then the accounts named are held against
    /// it, then the vault's authority, then the taker's funds.
    pub open spec fn decision(&self, offer: Option<Offer>, funds: Option<u64>) -> Result<
        (),
        EscrowError,
    > {
        match offer {
            None => Err(EscrowError::OfferNotFound),
            Some(offer) => {
                if !self.matches(offer) {
                    Err(EscrowError::AccountMismatch)
                } else if self.vault.authority != Authority::Offer(self.offer) {
                    Err(EscrowError::InvalidAuthority)
                } else if funds is None || funds.unwrap() < offer.token_b_wanted_amount {
                    Err(EscrowError::InsufficientFunds)
                } else {
                    Ok(())
                }
            },
        }
    }

    /// How the acceptance ends on `ledger` and `book` as they stand.
    pub open spec fn outcome(&self, ledger: &Ledger, book: &OfferBook) -> Result<(), EscrowError> {
        self.decision(book.spec_get(&self.offer), ledger.spec_balance(&self.taker_token_account_b))
    }

    /// Decides whether the acceptance can go ahead, from the record found
    /// under the key named and from what the taker's paying account holds.
    pub fn decide(&self, offer: Option<Offer>, funds: Option<u64>) -> (r: Result<(), EscrowError>)
        ensures
            r == self.decision(offer, funds),
    {
        let offer = match offer {
            Some(offer) => offer,
            None => {
                return Err(EscrowError::OfferNotFound);
            },
        };
        if offer.key() != self.offer || offer.maker != self.maker || offer.token_mint_a
            != self.token_mint_a || offer.token_mint_b != self.token_mint_b
            || self.taker_token_account_a != AccountKey::party(self.taker, self.token_mint_a)
            || self.taker_token_account_b != AccountKey::party(self.taker, self.token_mint_b)
            || self.maker_token_account_b != AccountKey::party(self.maker, self.token_mint_b)
            || self.vault.mint != self.token_mint_a {
            return Err(EscrowError::AccountMismatch);
        }
        if self.vault.authority != Authority::Offer(self.offer) {
            return Err(EscrowError::InvalidAuthority);
        }
        match funds {
            Some(held) => {
                if held < offer.token_b_wanted_amount {
                    return Err(EscrowError::InsufficientFunds);
                }
            },
            None => {
                return Err(EscrowError::InsufficientFunds);
            },
        }
        Ok(())
    }

    /// The balances after the acceptance of `offer`: the two receiving
    /// accounts are open, the wanted amount went from the taker to the maker,
    /// all that the vault held went to the taker, and the vault is closed.
    pub open spec fn settled(&self, balances: Map<AccountKey, u64>, offer: Offer) -> Map<
        AccountKey,
        u64,
    > {
        let ready = opened(opened(balances, self.taker_token_account_a), self.maker_token_account_b);
        let paid = moved(
            ready,
            self.taker_token_account_b,
            self.maker_token_account_b,
            offer.token_b_wanted_amount,
        );
        moved(paid, self.vault, self.taker_token_account_a, paid[self.vault]).remove(self.vault)
    }

    /// Decides whether the acceptance can go ahead on `ledger` and `book` as
    /// they stand, and returns the offer that it accepts. Nothing is changed.
    pub fn validate(&self, ledger: &Ledger, book: &OfferBook) -> (r: Result<Offer, EscrowError>)
        requires
            ledger.wf(),
            book.wf(),
        ensures
            match r {
                Ok(offer) => self.outcome(ledger, book) is Ok && offer == book.offers()[self.offer],
                Err(e) => self.outcome(ledger, book) == Err::<(), EscrowError>(e),
            },
    {
        let offer = book.get(&self.offer);
        let funds = ledger.balance(&self.taker_token_account_b);
        self.decide(offer, funds)?;
        match offer {
            Some(offer) => Ok(offer),
            None => Err(EscrowError::OfferNotFound),
        }
    }
}

} // verus!
