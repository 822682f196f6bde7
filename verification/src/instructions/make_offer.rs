use crate::book::OfferBook;
use crate::error::EscrowError;
use crate::instructions::shared::transfer_tokens;
use crate::ledger::{
    applied, credit_fits, moved, opened, Ledger, TokenInstruction, TransferChecked,
};
use crate::state::{AccountKey, Authority, Identity, Offer, OfferKey};
use vstd::prelude::*;

verus! {

/// The maker's deposit of asset A into the vault. Either the offered amount
/// moves or nothing changes.
pub fn send_offered_tokens_to_escrow(
    ledger: &mut Ledger,
    ctx: &MakeOffer,
    token_a_offered_amount: u64,
) -> (r: Result<(), EscrowError>)
    requires
        old(ledger).wf(),
    ensures
        final(ledger).wf(),
        r == old(ledger).outcome_of(
            ctx.deposit(token_a_offered_amount, old(ledger).precision(ctx.token_mint_a)),
        ),
        r is Err ==> *final(ledger) == *old(ledger),
        r is Ok ==> final(ledger).balances() == applied(
            old(ledger).balances(),
            ctx.deposit(token_a_offered_amount, old(ledger).precision(ctx.token_mint_a)),
        ),
        r is Ok ==> credit_fits(
            old(ledger).balances(),
            ctx.maker_token_account_a,
            ctx.vault,
            token_a_offered_amount,
        ),
        final(ledger).mints() == old(ledger).mints(),
        forall|m: Identity| final(ledger).supply(m) == old(ledger).supply(m),
{
    transfer_tokens(
        ledger,
        &ctx.maker_token_account_a,
        &ctx.vault,
        token_a_offered_amount,
        &ctx.token_mint_a,
        &Authority::Party(ctx.maker),
    )
}

/// Writes the record of the offer into `book` and returns it. Fails with
/// `DuplicateOffer`, and changes nothing, if the maker has a live offer
/// under `id` already.
pub fn save_offer(book: &mut OfferBook, ctx: &MakeOffer, id: u64, token_b_wanted_amount: u64) -> (r:
    Result<Offer, EscrowError>)
    requires
        old(book).wf(),
    ensures
        final(book).wf(),
        r == if old(book).offers().contains_key(OfferKey { maker: ctx.maker, id }) {
            Err::<Offer, EscrowError>(EscrowError::DuplicateOffer)
        } else {
            Ok(ctx.record(id, token_b_wanted_amount))
        },
        r is Err ==> *final(book) == *old(book),
        r is Ok ==> final(book).offers() == old(book).offers().insert(
            OfferKey { maker: ctx.maker, id },
            ctx.record(id, token_b_wanted_amount),
        ),
{
    let offer = ctx.record(id, token_b_wanted_amount);
    if book.insert(offer) {
        Ok(offer)
    } else {
        Err(EscrowError::DuplicateOffer)
    }
}

/// The accounts that one creation names.
#[derive(Clone, Copy, Debug, PartialEq, Eq, Structural, Hash)]
pub struct MakeOffer {
    /// Who makes the offer, and signs for the deposit.
    pub maker: Identity,
    /// The asset offered.
    pub token_mint_a: Identity,
    /// The asset wanted.
    pub token_mint_b: Identity,
    /// From where the maker deposits asset A.
    pub maker_token_account_a: AccountKey,
    /// Where the record is to stand.
    pub offer: OfferKey,
    /// The vault that is opened for the offer.
    pub vault: AccountKey,
    /// The salt of the record's address; kept in the record and not read
    /// otherwise.
    pub bump: u8,
}

impl MakeOffer {
    /// The accounts of the creation, by `maker`, of an offer under `id` of
    /// asset A for asset B.
    pub fn new(
        maker: Identity,
        token_mint_a: Identity,
        token_mint_b: Identity,
        id: u64,
        bump: u8,
    ) -> (ctx: MakeOffer)
        ensures
            ctx == (MakeOffer {
                maker,
                token_mint_a,
                token_mint_b,
                maker_token_account_a: AccountKey::of_party(maker, token_mint_a),
                offer: OfferKey { maker, id },
                vault: AccountKey::of_offer(OfferKey { maker, id }, token_mint_a),
                bump,
            }),
    {
        let offer = OfferKey { maker, id };
        MakeOffer {
            maker,
            token_mint_a,
            token_mint_b,
            maker_token_account_a: AccountKey::party(maker, token_mint_a),
            offer,
            vault: AccountKey::vault(offer, token_mint_a),
            bump,
        }
    }

    /// The maker's deposit: the offered amount of asset A from the maker to
    /// the vault, signed for by the maker.
    pub open spec fn spec_deposit(&self, token_a_offered_amount: u64, precision_a: u8) -> TokenInstruction {
        TokenInstruction::TransferChecked {
            transfer: TransferChecked {
                from: self.maker_token_account_a,
                to: self.vault,
                mint: self.token_mint_a,
                authority: Authority::Party(self.maker),
            },
            amount: token_a_offered_amount,
            decimals: precision_a,
        }
    }

    /// The maker's deposit, stating `precision_a` as the precision of asset
    /// A. It is the one call on the token ledger that a creation makes; the
    /// record is written once it has gone through.
    #[verifier::when_used_as_spec(spec_deposit)]
    pub fn deposit(&self, token_a_offered_amount: u64, precision_a: u8) -> (instruction: TokenInstruction)
        ensures
            instruction == self.spec_deposit(token_a_offered_amount, precision_a),
    {
        TokenInstruction::TransferChecked {
            transfer: TransferChecked {
                from: self.maker_token_account_a,
                to: self.vault,
                mint: self.token_mint_a,
                authority: Authority::Party(self.maker),
            },
            amount: token_a_offered_amount,
            decimals: precision_a,
        }
    }

    /// The record that the creation writes.
    pub open spec fn spec_record(&self, id: u64, token_b_wanted_amount: u64) -> Offer {
        Offer {
            id,
            maker: self.maker,
            token_mint_a: self.token_mint_a,
            token_mint_b: self.token_mint_b,
            token_b_wanted_amount,
            bump: self.bump,
        }
    }

    /// The record that the creation writes.
    #[verifier::when_used_as_spec(spec_record)]
    pub fn record(&self, id: u64, token_b_wanted_amount: u64) -> (offer: Offer)
        ensures
            offer == self.spec_record(id, token_b_wanted_amount),
    {
        Offer {
            id,
            maker: self.maker,
            token_mint_a: self.token_mint_a,
            token_mint_b: self.token_mint_b,
            token_b_wanted_amount,
            bump: self.bump,
        }
    }

    /// The balances after the creation: the vault is open and the offered
    /// amount went from the maker into it.
    pub open spec fn funded(&self, balances: Map<AccountKey, u64>, token_a_offered_amount: u64) -> Map<
        AccountKey,
        u64,
    > {
        moved(
            opened(balances, self.vault),
            self.maker_token_account_a,
            self.vault,
            token_a_offered_amount,
        )
    }

    /// How the creation ends, by whether an offer lives under the key named,
    /// by the precision registered for each of the two assets, if any, and
    /// by what the maker's paying account holds, if it is open. The accounts
    /// named are held against the maker and the id first, then the id
    /// against the live offers, then the vault's authority, then the assets,
    /// then the maker's funds.
    pub open spec fn decision(
        &self,
        id: u64,
        token_a_offered_amount: u64,
        live: bool,
        precision_a: Option<u8>,
        precision_b: Option<u8>,
        funds: Option<u64>,
    ) -> Result<(), EscrowError> {
        if self.offer != (OfferKey { maker: self.maker, id }) || self.maker_token_account_a.authority
            != Authority::Party(self.maker) {
            Err(EscrowError::AccountMismatch)
        } else if live {
            Err(EscrowError::DuplicateOffer)
        } else if self.vault.authority != Authority::Offer(self.offer) {
            Err(EscrowError::InvalidAuthority)
        } else if precision_a is None || precision_b is None || self.maker_token_account_a.mint
            != self.token_mint_a || self.vault.mint != self.token_mint_a {
            Err(EscrowError::AssetMismatch)
        } else if funds is None || funds.unwrap() < token_a_offered_amount {
            Err(EscrowError::InsufficientFunds)
        } else {
            Ok(())
        }
    }

    /// How the creation ends on `ledger` and `book` as they stand.
    pub open spec fn outcome(
        &self,
        ledger: &Ledger,
        book: &OfferBook,
        id: u64,
        token_a_offered_amount: u64,
    ) -> Result<(), EscrowError> {
        self.decision(
            id,
            token_a_offered_amount,
            book.offers().contains_key(self.offer),
            ledger.spec_decimals(&self.token_mint_a),
            ledger.spec_decimals(&self.token_mint_b),
            ledger.spec_balance(&self.maker_token_account_a),
        )
    }

    /// Decides whether the creation can go ahead, from whether an offer lives
    /// under the key named, the precision registered for each asset, and
    /// what the maker's paying account holds.
    pub fn decide(
        &self,
        id: u64,
        token_a_offered_amount: u64,
        live: bool,
        precision_a: Option<u8>,
        precision_b: Option<u8>,
        funds: Option<u64>,
    ) -> (r: Result<(), EscrowError>)
        ensures
            r == self.decision(id, token_a_offered_amount, live, precision_a, precision_b, funds),
    {
        if self.offer != (OfferKey { maker: self.maker, id }) || self.maker_token_account_a.authority
            != Authority::Party(self.maker) {
            return Err(EscrowError::AccountMismatch);
        }
        if live {
            return Err(EscrowError::DuplicateOffer);
        }
        if self.vault.authority != Authority::Offer(self.offer) {
            return Err(EscrowError::InvalidAuthority);
        }
        if precision_a.is_none() || precision_b.is_none() || self.maker_token_account_a.mint
            != self.token_mint_a || self.vault.mint != self.token_mint_a {
            return Err(EscrowError::AssetMismatch);
        }
        match funds {
            Some(held) => {
                if held < token_a_offered_amount {
                    return Err(EscrowError::InsufficientFunds);
                }
            },
            None => {
                return Err(EscrowError::InsufficientFunds);
            },
        }
        Ok(())
    }

    /// Decides whether the creation can go ahead on `ledger` and `book` as
    /// they stand. Nothing is changed.
    pub fn validate(
        &self,
        ledger: &Ledger,
        book: &OfferBook,
        id: u64,
        token_a_offered_amount: u64,
    ) -> (r: Result<(), EscrowError>)
        requires
            ledger.wf(),
            book.wf(),
        ensures
            r == self.outcome(ledger, book, id, token_a_offered_amount),
    {
        self.decide(
            id,
            token_a_offered_amount,
            book.get(&self.offer).is_some(),
            ledger.decimals(&self.token_mint_a),
            ledger.decimals(&self.token_mint_b),
            ledger.balance(&self.maker_token_account_a),
        )
    }
}

} // verus!
