use escrow_app::{
    accept_offer, make_offer, AcceptOffer, AccountKey, Authority, Escrow, EscrowError, Identity, MakeOffer,
    Offer, OfferKey,
};

fn party(n: u64) -> Identity {
    Identity { w0: n, w1: 0, w2: 0, w3: 0 }
}

fn alice() -> Identity {
    party(1)
}

fn bob() -> Identity {
    party(2)
}

fn carol() -> Identity {
    party(3)
}

fn apples() -> Identity {
    party(50)
}

fn pears() -> Identity {
    party(51)
}

fn purse_of(state: &Escrow, owner: Identity, mint: Identity) -> Option<u64> {
    state.ledger().balance(&AccountKey::party(owner, mint))
}

fn vault_of(state: &Escrow, maker: Identity, id: u64, mint: Identity) -> Option<u64> {
    state.ledger().balance(&AccountKey::vault(OfferKey { maker, id }, mint))
}

/// Alice holds 1000 apples, Bob 400 pears, Carol 70 pears.
fn market() -> Escrow {
    let mut state = Escrow::new();
    assert!(state.register_mint(apples(), 6));
    assert!(state.register_mint(pears(), 9));
    assert_eq!(state.open_account(alice(), apples()), Ok(()));
    assert_eq!(state.open_account(bob(), pears()), Ok(()));
    assert_eq!(state.open_account(carol(), pears()), Ok(()));
    assert!(state.mint_to(alice(), apples(), 1000));
    assert!(state.mint_to(bob(), pears(), 400));
    assert!(state.mint_to(carol(), pears(), 70));
    state
}

/// The market after Alice offered 300 apples for 80 pears under id 7.
fn market_with_offer() -> Escrow {
    let mut state = market();
    let ctx = MakeOffer::new(alice(), apples(), pears(), 7, 255);
    assert!(make_offer(&mut state, &ctx, 7, 300, 80).is_ok());
    state
}

#[test]
fn escrow_setup_reports_what_it_did() {
    let mut state = Escrow::new();
    assert_eq!(state.open_account(alice(), apples()), Err(EscrowError::AssetMismatch));
    assert!(state.register_mint(apples(), 6));
    assert!(!state.register_mint(apples(), 6));
    assert!(!state.mint_to(alice(), apples(), 5));
    assert_eq!(state.open_account(alice(), apples()), Ok(()));
    assert!(state.mint_to(alice(), apples(), 5));
    assert!(!state.mint_to(alice(), apples(), u64::MAX - 4));
    assert_eq!(purse_of(&state, alice(), apples()), Some(5));
    assert_eq!(state.ledger().total_supply(&apples()), Some(5));
    assert_eq!(state.ledger().decimals(&apples()), Some(6));
}

#[test]
fn make_offer_fills_the_vault_and_writes_the_record() {
    let state = market_with_offer();
    let key = OfferKey { maker: alice(), id: 7 };
    let record = Offer {
        id: 7,
        maker: alice(),
        token_mint_a: apples(),
        token_mint_b: pears(),
        token_b_wanted_amount: 80,
        bump: 255,
    };
    assert_eq!(state.book().get(&key), Some(record));
    assert_eq!(record.key(), key);
    assert_eq!(vault_of(&state, alice(), 7, apples()), Some(300));
    assert_eq!(purse_of(&state, alice(), apples()), Some(700));
    assert_eq!(state.ledger().total_supply(&apples()), Some(1000));
    assert_eq!(state.ledger().total_supply(&pears()), Some(470));
}

#[test]
fn make_offer_takes_the_whole_balance_and_nothing() {
    let mut state = market();
    let all = MakeOffer::new(alice(), apples(), pears(), 1, 0);
    assert!(make_offer(&mut state, &all, 1, 1000, 0).is_ok());
    assert_eq!(purse_of(&state, alice(), apples()), Some(0));
    assert_eq!(vault_of(&state, alice(), 1, apples()), Some(1000));
    let none = MakeOffer::new(alice(), apples(), pears(), 2, 0);
    assert!(make_offer(&mut state, &none, 2, 0, 5).is_ok());
    assert_eq!(vault_of(&state, alice(), 2, apples()), Some(0));
    assert_eq!(vault_of(&state, alice(), 1, apples()), Some(1000));
}

#[test]
fn make_offer_keeps_offers_of_one_maker_apart() {
    let mut state = market_with_offer();
    let ctx = MakeOffer::new(alice(), apples(), pears(), 8, 250);
    assert!(make_offer(&mut state, &ctx, 8, 200, 10).is_ok());
    assert_eq!(vault_of(&state, alice(), 7, apples()), Some(300));
    assert_eq!(vault_of(&state, alice(), 8, apples()), Some(200));
    assert_eq!(purse_of(&state, alice(), apples()), Some(500));
    let accept = AcceptOffer::new(bob(), alice(), apples(), pears(), 8);
    assert_eq!(accept_offer(&mut state, &accept), Ok(()));
    assert_eq!(vault_of(&state, alice(), 7, apples()), Some(300));
    assert_eq!(vault_of(&state, alice(), 8, apples()), None);
    assert!(state.book().get(&OfferKey { maker: alice(), id: 7 }).is_some());
    assert!(state.book().get(&OfferKey { maker: alice(), id: 8 }).is_none());
}

#[test]
fn make_offer_refuses_a_duplicate_and_changes_nothing() {
    let mut state = market_with_offer();
    let before = state.clone();
    let ctx = MakeOffer::new(alice(), apples(), pears(), 7, 1);
    assert_eq!(make_offer(&mut state, &ctx, 7, 1, 1), Err(EscrowError::DuplicateOffer));
    assert_eq!(make_offer(&mut state, &ctx, 7, 5000, 1), Err(EscrowError::DuplicateOffer));
    assert_eq!(state, before);
}

#[test]
fn make_offer_allows_the_same_id_to_another_maker() {
    let mut state = market_with_offer();
    assert_eq!(state.open_account(bob(), apples()), Ok(()));
    assert!(state.mint_to(bob(), apples(), 20));
    let ctx = MakeOffer::new(bob(), apples(), pears(), 7, 1);
    assert!(make_offer(&mut state, &ctx, 7, 20, 3).is_ok());
    assert_eq!(vault_of(&state, bob(), 7, apples()), Some(20));
    assert_eq!(vault_of(&state, alice(), 7, apples()), Some(300));
}

#[test]
fn make_offer_refuses_more_than_the_maker_holds() {
    let mut state = market();
    let before = state.clone();
    let ctx = MakeOffer::new(alice(), apples(), pears(), 7, 255);
    assert_eq!(make_offer(&mut state, &ctx, 7, 1001, 80), Err(EscrowError::InsufficientFunds));
    assert_eq!(state, before);
    let closed = MakeOffer::new(bob(), apples(), pears(), 7, 255);
    assert_eq!(make_offer(&mut state, &closed, 7, 0, 80), Err(EscrowError::InsufficientFunds));
    assert_eq!(state, before);
}

#[test]
fn make_offer_refuses_mismatched_assets() {
    let mut state = market();
    let before = state.clone();
    let plums = party(52);
    let unknown_a = MakeOffer::new(alice(), plums, pears(), 7, 255);
    assert_eq!(make_offer(&mut state, &unknown_a, 7, 1, 1), Err(EscrowError::AssetMismatch));
    let unknown_b = MakeOffer::new(alice(), apples(), plums, 7, 255);
    assert_eq!(make_offer(&mut state, &unknown_b, 7, 1, 1), Err(EscrowError::AssetMismatch));
    let mut wrong_source = MakeOffer::new(alice(), apples(), pears(), 7, 255);
    wrong_source.maker_token_account_a = AccountKey::party(alice(), pears());
    assert_eq!(make_offer(&mut state, &wrong_source, 7, 1, 1), Err(EscrowError::AssetMismatch));
    let mut wrong_vault = MakeOffer::new(alice(), apples(), pears(), 7, 255);
    wrong_vault.vault = AccountKey::vault(OfferKey { maker: alice(), id: 7 }, pears());
    assert_eq!(make_offer(&mut state, &wrong_vault, 7, 1, 1), Err(EscrowError::AssetMismatch));
    assert_eq!(state, before);
}

#[test]
fn make_offer_refuses_accounts_of_others() {
    let mut state = market();
    let before = state.clone();
    let mut wrong_key = MakeOffer::new(alice(), apples(), pears(), 7, 255);
    assert_eq!(make_offer(&mut state, &wrong_key, 8, 1, 1), Err(EscrowError::AccountMismatch));
    wrong_key.offer = OfferKey { maker: bob(), id: 7 };
    assert_eq!(make_offer(&mut state, &wrong_key, 7, 1, 1), Err(EscrowError::AccountMismatch));
    let mut wrong_source = MakeOffer::new(alice(), apples(), pears(), 7, 255);
    wrong_source.maker_token_account_a = AccountKey::party(bob(), apples());
    assert_eq!(make_offer(&mut state, &wrong_source, 7, 1, 1), Err(EscrowError::AccountMismatch));
    let mut wrong_vault = MakeOffer::new(alice(), apples(), pears(), 7, 255);
    wrong_vault.vault = AccountKey::party(alice(), apples());
    assert_eq!(make_offer(&mut state, &wrong_vault, 7, 1, 1), Err(EscrowError::InvalidAuthority));
    wrong_vault.vault = AccountKey::vault(OfferKey { maker: alice(), id: 8 }, apples());
    assert_eq!(make_offer(&mut state, &wrong_vault, 7, 1, 1), Err(EscrowError::InvalidAuthority));
    assert_eq!(state, before);
}

#[test]
fn accept_offer_swaps_and_closes() {
    let mut state = market_with_offer();
    let accept = AcceptOffer::new(bob(), alice(), apples(), pears(), 7);
    assert_eq!(accept_offer(&mut state, &accept), Ok(()));
    assert_eq!(purse_of(&state, bob(), apples()), Some(300));
    assert_eq!(purse_of(&state, bob(), pears()), Some(320));
    assert_eq!(purse_of(&state, alice(), pears()), Some(80));
    assert_eq!(purse_of(&state, alice(), apples()), Some(700));
    assert_eq!(purse_of(&state, carol(), pears()), Some(70));
    assert_eq!(vault_of(&state, alice(), 7, apples()), None);
    assert_eq!(state.book().get(&OfferKey { maker: alice(), id: 7 }), None);
    assert_eq!(state.ledger().total_supply(&apples()), Some(1000));
    assert_eq!(state.ledger().total_supply(&pears()), Some(470));
}

#[test]
fn accept_offer_adds_to_open_receiving_accounts() {
    let mut state = market_with_offer();
    assert_eq!(state.open_account(bob(), apples()), Ok(()));
    assert!(state.mint_to(bob(), apples(), 11));
    assert_eq!(state.open_account(alice(), pears()), Ok(()));
    assert!(state.mint_to(alice(), pears(), 5));
    let accept = AcceptOffer::new(bob(), alice(), apples(), pears(), 7);
    assert_eq!(accept_offer(&mut state, &accept), Ok(()));
    assert_eq!(purse_of(&state, bob(), apples()), Some(311));
    assert_eq!(purse_of(&state, alice(), pears()), Some(85));
}

#[test]
fn accept_offer_happens_once() {
    let mut state = market_with_offer();
    let first = AcceptOffer::new(bob(), alice(), apples(), pears(), 7);
    let second = AcceptOffer::new(carol(), alice(), apples(), pears(), 7);
    assert_eq!(accept_offer(&mut state, &first), Ok(()));
    let after = state.clone();
    assert_eq!(accept_offer(&mut state, &second), Err(EscrowError::OfferNotFound));
    assert_eq!(accept_offer(&mut state, &first), Err(EscrowError::OfferNotFound));
    assert_eq!(state, after);
    assert_eq!(purse_of(&state, carol(), pears()), Some(70));
}

#[test]
fn accept_offer_frees_the_id() {
    let mut state = market_with_offer();
    let accept = AcceptOffer::new(bob(), alice(), apples(), pears(), 7);
    assert_eq!(accept_offer(&mut state, &accept), Ok(()));
    let ctx = MakeOffer::new(alice(), apples(), pears(), 7, 3);
    assert!(make_offer(&mut state, &ctx, 7, 10, 10).is_ok());
    assert_eq!(vault_of(&state, alice(), 7, apples()), Some(10));
}

#[test]
fn accept_offer_finds_no_offer() {
    let mut state = market_with_offer();
    let before = state.clone();
    let other_id = AcceptOffer::new(bob(), alice(), apples(), pears(), 8);
    assert_eq!(accept_offer(&mut state, &other_id), Err(EscrowError::OfferNotFound));
    let other_maker = AcceptOffer::new(bob(), carol(), apples(), pears(), 7);
    assert_eq!(accept_offer(&mut state, &other_maker), Err(EscrowError::OfferNotFound));
    assert_eq!(state, before);
}

#[test]
fn accept_offer_refuses_a_taker_short_of_funds() {
    let mut state = market_with_offer();
    let before = state.clone();
    let short = AcceptOffer::new(carol(), alice(), apples(), pears(), 7);
    assert_eq!(accept_offer(&mut state, &short), Err(EscrowError::InsufficientFunds));
    let closed = AcceptOffer::new(party(4), alice(), apples(), pears(), 7);
    assert_eq!(accept_offer(&mut state, &closed), Err(EscrowError::InsufficientFunds));
    assert_eq!(state, before);
    assert!(state.mint_to(carol(), pears(), 10));
    assert_eq!(accept_offer(&mut state, &short), Ok(()));
    assert_eq!(purse_of(&state, carol(), pears()), Some(0));
    assert_eq!(purse_of(&state, carol(), apples()), Some(300));
}

#[test]
fn accept_offer_refuses_accounts_that_do_not_match() {
    let mut state = market_with_offer();
    let before = state.clone();
    let good = AcceptOffer::new(bob(), alice(), apples(), pears(), 7);

    let mut ctx = good;
    ctx.maker = carol();
    assert_eq!(accept_offer(&mut state, &ctx), Err(EscrowError::AccountMismatch));
    let mut ctx = good;
    ctx.token_mint_a = pears();
    assert_eq!(accept_offer(&mut state, &ctx), Err(EscrowError::AccountMismatch));
    let mut ctx = good;
    ctx.token_mint_b = apples();
    assert_eq!(accept_offer(&mut state, &ctx), Err(EscrowError::AccountMismatch));
    let mut ctx = good;
    ctx.taker_token_account_a = AccountKey::party(carol(), apples());
    assert_eq!(accept_offer(&mut state, &ctx), Err(EscrowError::AccountMismatch));
    let mut ctx = good;
    ctx.taker_token_account_b = AccountKey::party(carol(), pears());
    assert_eq!(accept_offer(&mut state, &ctx), Err(EscrowError::AccountMismatch));
    let mut ctx = good;
    ctx.taker_token_account_b = AccountKey::party(bob(), apples());
    assert_eq!(accept_offer(&mut state, &ctx), Err(EscrowError::AccountMismatch));
    let mut ctx = good;
    ctx.maker_token_account_b = AccountKey::party(bob(), pears());
    assert_eq!(accept_offer(&mut state, &ctx), Err(EscrowError::AccountMismatch));
    let mut ctx = good;
    ctx.vault = AccountKey::vault(OfferKey { maker: alice(), id: 7 }, pears());
    assert_eq!(accept_offer(&mut state, &ctx), Err(EscrowError::AccountMismatch));
    assert_eq!(state, before);
}

#[test]
fn accept_offer_refuses_a_vault_of_another_authority() {
    let mut state = market_with_offer();
    let before = state.clone();
    let mut ctx = AcceptOffer::new(bob(), alice(), apples(), pears(), 7);
    ctx.vault = AccountKey::party(alice(), apples());
    assert_eq!(accept_offer(&mut state, &ctx), Err(EscrowError::InvalidAuthority));
    ctx.vault = AccountKey { authority: Authority::Offer(OfferKey { maker: alice(), id: 8 }), mint: apples() };
    assert_eq!(accept_offer(&mut state, &ctx), Err(EscrowError::InvalidAuthority));
    assert_eq!(state, before);
}

#[test]
fn accept_offer_by_the_maker_moves_only_the_vault() {
    let mut state = market_with_offer();
    assert_eq!(state.open_account(alice(), pears()), Ok(()));
    assert!(state.mint_to(alice(), pears(), 80));
    let accept = AcceptOffer::new(alice(), alice(), apples(), pears(), 7);
    assert_eq!(accept_offer(&mut state, &accept), Ok(()));
    assert_eq!(purse_of(&state, alice(), apples()), Some(1000));
    assert_eq!(purse_of(&state, alice(), pears()), Some(80));
    assert_eq!(vault_of(&state, alice(), 7, apples()), None);
    assert_eq!(state.ledger().total_supply(&apples()), Some(1000));
    assert_eq!(state.ledger().total_supply(&pears()), Some(550));
}

#[test]
fn accept_offer_of_an_asset_for_itself_nets_the_two_amounts() {
    let mut state = market();
    assert_eq!(state.open_account(bob(), apples()), Ok(()));
    assert!(state.mint_to(bob(), apples(), 90));
    let ctx = MakeOffer::new(alice(), apples(), apples(), 7, 255);
    assert!(make_offer(&mut state, &ctx, 7, 300, 80).is_ok());
    let accept = AcceptOffer::new(bob(), alice(), apples(), apples(), 7);
    assert_eq!(accept_offer(&mut state, &accept), Ok(()));
    assert_eq!(purse_of(&state, bob(), apples()), Some(310));
    assert_eq!(purse_of(&state, alice(), apples()), Some(780));
    assert_eq!(state.ledger().total_supply(&apples()), Some(1090));
}

#[test]
fn accept_offer_that_wants_nothing_takes_nothing() {
    let mut state = market();
    let ctx = MakeOffer::new(alice(), apples(), pears(), 7, 255);
    assert!(make_offer(&mut state, &ctx, 7, 300, 0).is_ok());
    let accept = AcceptOffer::new(bob(), alice(), apples(), pears(), 7);
    assert_eq!(accept_offer(&mut state, &accept), Ok(()));
    assert_eq!(purse_of(&state, bob(), pears()), Some(400));
    assert_eq!(purse_of(&state, bob(), apples()), Some(300));
    assert_eq!(purse_of(&state, alice(), pears()), Some(0));
}
