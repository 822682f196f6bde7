use escrow_app::{
    save_offer, send_offered_tokens_to_escrow, transfer_tokens, transfer_tokens_to_maker,
    withdraw_and_close_escrow, AcceptOffer, AccountKey, Authority, CloseAccount, EscrowError, Identity,
    Ledger, MakeOffer, Offer, OfferBook, OfferKey, TokenInstruction, TransferChecked,
};

fn name(n: u64) -> Identity {
    Identity { w0: 0, w1: 0, w2: n, w3: 0 }
}

fn seller() -> Identity {
    name(1)
}

fn buyer() -> Identity {
    name(2)
}

fn wheat() -> Identity {
    name(20)
}

fn coin() -> Identity {
    name(21)
}

fn record() -> Offer {
    Offer {
        id: 3,
        maker: seller(),
        token_mint_a: wheat(),
        token_mint_b: coin(),
        token_b_wanted_amount: 25,
        bump: 200,
    }
}

fn vault_key() -> AccountKey {
    AccountKey::vault(OfferKey { maker: seller(), id: 3 }, wheat())
}

/// A ledger on which the vault of offer 3 holds 60 wheat, the buyer holds 40
/// coin, and both receiving accounts are open.
fn ledger_before_acceptance() -> Ledger {
    let mut ledger = Ledger::new();
    assert!(ledger.register_mint(wheat(), 3));
    assert!(ledger.register_mint(coin(), 2));
    assert_eq!(ledger.open_account(vault_key()), Ok(()));
    assert_eq!(ledger.open_account(AccountKey::party(buyer(), coin())), Ok(()));
    assert_eq!(ledger.open_account(AccountKey::party(buyer(), wheat())), Ok(()));
    assert_eq!(ledger.open_account(AccountKey::party(seller(), coin())), Ok(()));
    assert!(ledger.mint_to(&vault_key(), 60));
    assert!(ledger.mint_to(&AccountKey::party(buyer(), coin()), 40));
    ledger
}

#[test]
fn accept_offer_names_the_derived_accounts() {
    let ctx = AcceptOffer::new(buyer(), seller(), wheat(), coin(), 3);
    assert_eq!(ctx.taker, buyer());
    assert_eq!(ctx.maker, seller());
    assert_eq!(ctx.token_mint_a, wheat());
    assert_eq!(ctx.token_mint_b, coin());
    assert_eq!(ctx.taker_token_account_a, AccountKey { authority: Authority::Party(buyer()), mint: wheat() });
    assert_eq!(ctx.taker_token_account_b, AccountKey { authority: Authority::Party(buyer()), mint: coin() });
    assert_eq!(ctx.maker_token_account_b, AccountKey { authority: Authority::Party(seller()), mint: coin() });
    assert_eq!(ctx.offer, OfferKey { maker: seller(), id: 3 });
    assert_eq!(
        ctx.vault,
        AccountKey { authority: Authority::Offer(OfferKey { maker: seller(), id: 3 }), mint: wheat() }
    );
}

#[test]
fn make_offer_names_the_derived_accounts() {
    let ctx = MakeOffer::new(seller(), wheat(), coin(), 3, 200);
    assert_eq!(ctx.maker, seller());
    assert_eq!(ctx.maker_token_account_a, AccountKey::party(seller(), wheat()));
    assert_eq!(ctx.offer, OfferKey { maker: seller(), id: 3 });
    assert_eq!(ctx.vault, vault_key());
    assert_eq!(ctx.bump, 200);
    assert_eq!(ctx.record(3, 25), record());
    assert_eq!(
        ctx.deposit(60, 3),
        TokenInstruction::TransferChecked {
            transfer: TransferChecked {
                from: AccountKey::party(seller(), wheat()),
                to: vault_key(),
                mint: wheat(),
                authority: Authority::Party(seller()),
            },
            amount: 60,
            decimals: 3,
        }
    );
}

#[test]
fn accept_offer_plans_its_three_instructions() {
    let ctx = AcceptOffer::new(buyer(), seller(), wheat(), coin(), 3);
    let signer = Authority::Offer(OfferKey { maker: seller(), id: 3 });
    assert_eq!(ctx.authority(&record()), signer);
    let payment = TokenInstruction::TransferChecked {
        transfer: TransferChecked {
            from: AccountKey::party(buyer(), coin()),
            to: AccountKey::party(seller(), coin()),
            mint: coin(),
            authority: Authority::Party(buyer()),
        },
        amount: 25,
        decimals: 2,
    };
    let release = TokenInstruction::TransferChecked {
        transfer: TransferChecked {
            from: vault_key(),
            to: AccountKey::party(buyer(), wheat()),
            mint: wheat(),
            authority: signer,
        },
        amount: 60,
        decimals: 3,
    };
    let closure = TokenInstruction::CloseAccount {
        closure: CloseAccount { account: vault_key(), destination: seller(), authority: signer },
    };
    assert_eq!(ctx.payment(&record(), 2), payment);
    assert_eq!(ctx.release(&record(), 60, 3), release);
    assert_eq!(ctx.closure(&record()), closure);
    assert_eq!(ctx.plan(&record(), 60, 3, 2), vec![payment, release, closure]);
}

#[test]
fn processing_the_plan_settles_the_acceptance() {
    let mut ledger = ledger_before_acceptance();
    let ctx = AcceptOffer::new(buyer(), seller(), wheat(), coin(), 3);
    for call in ctx.plan(&record(), 60, 3, 2) {
        assert_eq!(ledger.process(&call), Ok(()));
    }
    assert_eq!(ledger.balance(&AccountKey::party(buyer(), wheat())), Some(60));
    assert_eq!(ledger.balance(&AccountKey::party(buyer(), coin())), Some(15));
    assert_eq!(ledger.balance(&AccountKey::party(seller(), coin())), Some(25));
    assert_eq!(ledger.balance(&vault_key()), None);

    let mut by_steps = ledger_before_acceptance();
    assert_eq!(transfer_tokens_to_maker(&mut by_steps, &ctx, &record()), Ok(()));
    assert_eq!(withdraw_and_close_escrow(&mut by_steps, &ctx, &record()), Ok(()));
    assert_eq!(by_steps, ledger);
}

#[test]
fn processing_stops_at_the_wrong_precision() {
    let mut ledger = ledger_before_acceptance();
    let before = ledger.clone();
    let ctx = AcceptOffer::new(buyer(), seller(), wheat(), coin(), 3);
    assert_eq!(ledger.process(&ctx.payment(&record(), 3)), Err(EscrowError::AssetMismatch));
    assert_eq!(ledger.process(&ctx.release(&record(), 61, 3)), Err(EscrowError::InsufficientFunds));
    assert_eq!(ledger.process(&ctx.closure(&record())), Err(EscrowError::AccountMismatch));
    assert_eq!(ledger, before);
}

#[test]
fn transfer_tokens_states_the_registered_precision() {
    let mut ledger = ledger_before_acceptance();
    let from = AccountKey::party(buyer(), coin());
    let to = AccountKey::party(seller(), coin());
    let signer = Authority::Party(buyer());
    assert_eq!(transfer_tokens(&mut ledger, &from, &to, 15, &coin(), &signer), Ok(()));
    assert_eq!(ledger.balance(&from), Some(25));
    assert_eq!(ledger.balance(&to), Some(15));
    let before = ledger.clone();
    assert_eq!(
        transfer_tokens(&mut ledger, &from, &to, 15, &name(99), &signer),
        Err(EscrowError::AssetMismatch)
    );
    assert_eq!(
        transfer_tokens(&mut ledger, &from, &to, 26, &coin(), &signer),
        Err(EscrowError::InsufficientFunds)
    );
    assert_eq!(ledger, before);
}

#[test]
fn transfer_tokens_to_maker_pays_the_wanted_amount() {
    let mut ledger = ledger_before_acceptance();
    let ctx = AcceptOffer::new(buyer(), seller(), wheat(), coin(), 3);
    assert_eq!(transfer_tokens_to_maker(&mut ledger, &ctx, &record()), Ok(()));
    assert_eq!(ledger.balance(&AccountKey::party(buyer(), coin())), Some(15));
    assert_eq!(ledger.balance(&AccountKey::party(seller(), coin())), Some(25));
    assert_eq!(ledger.balance(&vault_key()), Some(60));
    assert_eq!(ledger.balance(&AccountKey::party(buyer(), wheat())), Some(0));
    let before = ledger.clone();
    assert_eq!(
        transfer_tokens_to_maker(&mut ledger, &ctx, &record()),
        Err(EscrowError::InsufficientFunds)
    );
    assert_eq!(ledger, before);
}

#[test]
fn withdraw_and_close_escrow_releases_what_the_vault_holds() {
    let mut ledger = ledger_before_acceptance();
    assert!(ledger.mint_to(&vault_key(), 5));
    let ctx = AcceptOffer::new(buyer(), seller(), wheat(), coin(), 3);
    assert_eq!(withdraw_and_close_escrow(&mut ledger, &ctx, &record()), Ok(()));
    assert_eq!(ledger.balance(&AccountKey::party(buyer(), wheat())), Some(65));
    assert_eq!(ledger.balance(&vault_key()), None);
    assert_eq!(ledger.balance(&AccountKey::party(buyer(), coin())), Some(40));
    assert_eq!(ledger.total_supply(&wheat()), Some(65));
}

#[test]
fn withdraw_and_close_escrow_is_all_or_nothing() {
    let mut ledger = ledger_before_acceptance();
    let before = ledger.clone();
    let good = AcceptOffer::new(buyer(), seller(), wheat(), coin(), 3);

    let mut other_maker = good;
    other_maker.maker = buyer();
    assert_eq!(
        withdraw_and_close_escrow(&mut ledger, &other_maker, &record()),
        Err(EscrowError::InvalidAuthority)
    );
    let mut other_id = record();
    other_id.id = 4;
    assert_eq!(withdraw_and_close_escrow(&mut ledger, &good, &other_id), Err(EscrowError::InvalidAuthority));
    let mut no_receiver = good;
    no_receiver.taker_token_account_a = AccountKey::party(name(5), wheat());
    assert_eq!(
        withdraw_and_close_escrow(&mut ledger, &no_receiver, &record()),
        Err(EscrowError::AccountMismatch)
    );
    let mut no_vault = good;
    no_vault.vault = AccountKey::vault(OfferKey { maker: seller(), id: 9 }, wheat());
    assert_eq!(
        withdraw_and_close_escrow(&mut ledger, &no_vault, &record()),
        Err(EscrowError::InsufficientFunds)
    );
    let mut wrong_mint = good;
    wrong_mint.token_mint_a = coin();
    assert_eq!(
        withdraw_and_close_escrow(&mut ledger, &wrong_mint, &record()),
        Err(EscrowError::AssetMismatch)
    );
    let mut into_itself = good;
    into_itself.taker_token_account_a = vault_key();
    assert_eq!(
        withdraw_and_close_escrow(&mut ledger, &into_itself, &record()),
        Err(EscrowError::AccountMismatch)
    );
    assert_eq!(ledger, before);
}

#[test]
fn send_offered_tokens_to_escrow_fills_the_vault() {
    let mut ledger = Ledger::new();
    assert!(ledger.register_mint(wheat(), 3));
    assert_eq!(ledger.open_account(AccountKey::party(seller(), wheat())), Ok(()));
    assert!(ledger.mint_to(&AccountKey::party(seller(), wheat()), 100));
    let ctx = MakeOffer::new(seller(), wheat(), coin(), 3, 200);
    let before = ledger.clone();
    assert_eq!(send_offered_tokens_to_escrow(&mut ledger, &ctx, 60), Err(EscrowError::AccountMismatch));
    assert_eq!(ledger, before);
    assert_eq!(ledger.open_account(vault_key()), Ok(()));
    assert_eq!(send_offered_tokens_to_escrow(&mut ledger, &ctx, 60), Ok(()));
    assert_eq!(ledger.balance(&vault_key()), Some(60));
    assert_eq!(ledger.balance(&AccountKey::party(seller(), wheat())), Some(40));
    let before = ledger.clone();
    assert_eq!(send_offered_tokens_to_escrow(&mut ledger, &ctx, 41), Err(EscrowError::InsufficientFunds));
    assert_eq!(ledger, before);
}

#[test]
fn save_offer_writes_the_record_once() {
    let mut book = OfferBook::new();
    let ctx = MakeOffer::new(seller(), wheat(), coin(), 3, 200);
    assert_eq!(save_offer(&mut book, &ctx, 3, 25), Ok(record()));
    assert_eq!(book.get(&OfferKey { maker: seller(), id: 3 }), Some(record()));
    let before = book.clone();
    assert_eq!(save_offer(&mut book, &ctx, 3, 26), Err(EscrowError::DuplicateOffer));
    assert_eq!(book, before);
    let mut other = record();
    other.id = 4;
    other.token_b_wanted_amount = 26;
    assert_eq!(save_offer(&mut book, &ctx, 4, 26), Ok(other));
    assert_eq!(book.get(&OfferKey { maker: seller(), id: 3 }), Some(record()));
}

#[test]
fn offer_book_inserts_and_removes() {
    let mut book = OfferBook::new();
    let key = OfferKey { maker: seller(), id: 3 };
    assert_eq!(book.get(&key), None);
    assert_eq!(book.remove(&key), None);
    assert!(book.insert(record()));
    assert!(!book.insert(record()));
    let mut second = record();
    second.id = 4;
    assert!(book.insert(second));
    assert_eq!(book.remove(&key), Some(record()));
    assert_eq!(book.get(&key), None);
    assert_eq!(book.get(&OfferKey { maker: seller(), id: 4 }), Some(second));
    assert_eq!(book.remove(&key), None);
}
