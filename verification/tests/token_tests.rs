use delegated_ledger::auth::AuthGate;
use delegated_ledger::errors::TokenError;
use delegated_ledger::token::Token;
use delegated_ledger::token::TokenEvent;
use delegated_ledger::token::TokenStore;

const A: u64 = 10;
const B: u64 = 11;
const OWNER: u64 = 20;
const SPENDER: u64 = 21;
const DEST: u64 = 22;

fn fresh() -> TokenStore {
    TokenStore::new(None, None, None)
}

#[test]
fn auth_gate_grants_exactly_its_principals() {
    let gate = AuthGate::new(vec![1, 2, 2, 3]);
    assert!(gate.grants(2));
    assert!(gate.grants(3));
    assert!(!gate.grants(4));
    let closed = AuthGate::deny_all();
    assert!(!closed.grants(1));
}

#[test]
fn balances_default_to_zero() {
    let store = fresh();
    assert_eq!(Token::balance(&store, A), 0);
    assert_eq!(Token::allowance(&store, A, B), 0);
}

#[test]
fn transfer_moves_value_and_preserves_the_sum() {
    let mut store = fresh();
    store.credit(A, 100).unwrap();
    store.credit(B, 5).unwrap();

    let auth = AuthGate::new(vec![A]);
    Token::transfer(&mut store, &auth, A, B, 30).unwrap();

    assert_eq!(Token::balance(&store, A), 70);
    assert_eq!(Token::balance(&store, B), 35);
    assert_eq!(Token::balance(&store, A) + Token::balance(&store, B), 105);
}

#[test]
fn insufficient_balance_leaves_state_untouched() {
    let mut store = fresh();
    store.credit(A, 50).unwrap();

    let auth = AuthGate::new(vec![A]);
    let result = Token::transfer(&mut store, &auth, A, B, 60);
    assert_eq!(result, Err(TokenError::InsufficientBalance));
    assert_eq!(Token::balance(&store, A), 50);
    assert_eq!(Token::balance(&store, B), 0);
}

#[test]
fn transfer_requires_the_senders_sanction() {
    let mut store = fresh();
    store.credit(A, 50).unwrap();

    let auth = AuthGate::deny_all();
    let result = Token::transfer(&mut store, &auth, A, B, 10);
    assert_eq!(result, Err(TokenError::Unauthorized));
    assert_eq!(Token::balance(&store, A), 50);
}

#[test]
fn non_positive_amounts_are_rejected() {
    let mut store = fresh();
    store.credit(A, 50).unwrap();

    let auth = AuthGate::new(vec![A]);
    assert_eq!(Token::transfer(&mut store, &auth, A, B, 0), Err(TokenError::InvalidAmount));
    assert_eq!(Token::transfer(&mut store, &auth, A, B, -3), Err(TokenError::InvalidAmount));
    assert_eq!(Token::burn(&mut store, &auth, A, 0), Err(TokenError::InvalidAmount));
    assert_eq!(Token::balance(&store, A), 50);
}

#[test]
fn credit_overflow_is_rejected() {
    let mut store = fresh();
    store.credit(B, i128::MAX).unwrap();
    store.credit(A, 1).unwrap();

    assert_eq!(store.credit(B, 1), Err(TokenError::Overflow));

    let auth = AuthGate::new(vec![A]);
    let result = Token::transfer(&mut store, &auth, A, B, 1);
    assert_eq!(result, Err(TokenError::Overflow));
    assert_eq!(Token::balance(&store, A), 1);
    assert_eq!(Token::balance(&store, B), i128::MAX);
}

#[test]
fn burn_shrinks_the_supply() {
    let mut store = fresh();
    store.credit(A, 50).unwrap();
    store.credit(B, 7).unwrap();

    let auth = AuthGate::new(vec![A]);
    Token::burn(&mut store, &auth, A, 20).unwrap();

    assert_eq!(Token::balance(&store, A), 30);
    assert_eq!(Token::balance(&store, B), 7);
    assert_eq!(
        Token::burn(&mut store, &auth, A, 31),
        Err(TokenError::InsufficientBalance)
    );
}

#[test]
fn approve_then_spend_within_the_window() {
    let mut store = fresh();
    store.credit(OWNER, 1000).unwrap();

    let owner_auth = AuthGate::new(vec![OWNER]);
    Token::approve(&mut store, &owner_auth, OWNER, SPENDER, 100, 50).unwrap();
    assert_eq!(Token::allowance(&store, OWNER, SPENDER), 100);

    let spender_auth = AuthGate::new(vec![SPENDER]);
    Token::transfer_from(&mut store, &spender_auth, SPENDER, OWNER, DEST, 60, 50).unwrap();
    assert_eq!(Token::allowance(&store, OWNER, SPENDER), 40);
    assert_eq!(Token::balance(&store, OWNER), 940);
    assert_eq!(Token::balance(&store, DEST), 60);

    // Past the expiration ordinal the grant is unusable and untouched.
    let late = Token::transfer_from(&mut store, &spender_auth, SPENDER, OWNER, DEST, 40, 51);
    assert_eq!(late, Err(TokenError::ExpiredAllowance));
    assert_eq!(Token::allowance(&store, OWNER, SPENDER), 40);
    assert_eq!(Token::balance(&store, OWNER), 940);
    assert_eq!(Token::balance(&store, DEST), 60);
}

#[test]
fn spending_beyond_the_allowance_fails() {
    let mut store = fresh();
    store.credit(OWNER, 1000).unwrap();

    let owner_auth = AuthGate::new(vec![OWNER]);
    Token::approve(&mut store, &owner_auth, OWNER, SPENDER, 10, 50).unwrap();

    let spender_auth = AuthGate::new(vec![SPENDER]);
    let result = Token::transfer_from(&mut store, &spender_auth, SPENDER, OWNER, DEST, 11, 5);
    assert_eq!(result, Err(TokenError::InsufficientAllowance));
    assert_eq!(Token::allowance(&store, OWNER, SPENDER), 10);
    assert_eq!(Token::balance(&store, OWNER), 1000);
}

#[test]
fn approve_overwrites_and_never_accumulates() {
    let mut store = fresh();
    let owner_auth = AuthGate::new(vec![OWNER]);

    Token::approve(&mut store, &owner_auth, OWNER, SPENDER, 100, 50).unwrap();
    Token::approve(&mut store, &owner_auth, OWNER, SPENDER, 30, 60).unwrap();
    assert_eq!(Token::allowance(&store, OWNER, SPENDER), 30);
}

#[test]
fn approve_rejects_negative_amounts_and_foreign_callers() {
    let mut store = fresh();
    let owner_auth = AuthGate::new(vec![OWNER]);
    assert_eq!(
        Token::approve(&mut store, &owner_auth, OWNER, SPENDER, -1, 50),
        Err(TokenError::InvalidAmount)
    );
    let other_auth = AuthGate::new(vec![SPENDER]);
    assert_eq!(
        Token::approve(&mut store, &other_auth, OWNER, SPENDER, 5, 50),
        Err(TokenError::Unauthorized)
    );
    assert_eq!(Token::allowance(&store, OWNER, SPENDER), 0);
}

#[test]
fn raw_read_reports_stale_grant_but_spend_check_does_not() {
    let mut store = fresh();
    let owner_auth = AuthGate::new(vec![OWNER]);
    Token::approve(&mut store, &owner_auth, OWNER, SPENDER, 25, 50).unwrap();

    // Raw read for transparency, spend-eligibility check for use.
    assert_eq!(Token::allowance(&store, OWNER, SPENDER), 25);
    assert_eq!(Token::remaining(&store, OWNER, SPENDER, 50), 25);
    assert_eq!(Token::remaining(&store, OWNER, SPENDER, 51), 0);
}

#[test]
fn burn_from_spends_the_allowance_and_the_balance() {
    let mut store = fresh();
    store.credit(OWNER, 100).unwrap();

    let owner_auth = AuthGate::new(vec![OWNER]);
    Token::approve(&mut store, &owner_auth, OWNER, SPENDER, 40, 50).unwrap();

    let spender_auth = AuthGate::new(vec![SPENDER]);
    Token::burn_from(&mut store, &spender_auth, SPENDER, OWNER, 15, 10).unwrap();
    assert_eq!(Token::balance(&store, OWNER), 85);
    assert_eq!(Token::allowance(&store, OWNER, SPENDER), 25);

    let late = Token::burn_from(&mut store, &spender_auth, SPENDER, OWNER, 5, 99);
    assert_eq!(late, Err(TokenError::ExpiredAllowance));
    assert_eq!(Token::balance(&store, OWNER), 85);
    assert_eq!(Token::allowance(&store, OWNER, SPENDER), 25);
}

#[test]
fn self_transfer_changes_nothing() {
    let mut store = fresh();
    store.credit(A, 42).unwrap();

    let auth = AuthGate::new(vec![A]);
    Token::transfer(&mut store, &auth, A, A, 40).unwrap();
    assert_eq!(Token::balance(&store, A), 42);
}

#[test]
fn balances_stay_nonnegative_across_any_sequence() {
    let mut store = fresh();
    store.credit(A, 3).unwrap();

    let auth = AuthGate::new(vec![A, B]);
    Token::transfer(&mut store, &auth, A, B, 3).unwrap();
    Token::burn(&mut store, &auth, B, 2).unwrap();
    let _ = Token::transfer(&mut store, &auth, A, B, 1); // insufficient, no change
    let _ = Token::burn(&mut store, &auth, B, 9); // insufficient, no change
    Token::transfer(&mut store, &auth, B, A, 1).unwrap();

    for account in [A, B, DEST] {
        assert!(Token::balance(&store, account) >= 0);
    }
}

#[test]
fn metadata_defaults_and_configured_values() {
    let store = fresh();
    assert_eq!(Token::decimals(&store), 18);
    assert_eq!(Token::name(&store), String::from("My Token"));
    assert_eq!(Token::symbol(&store), String::from("MYTOKEN"));

    let configured = TokenStore::new(
        Some(String::from("Ledger Coin")),
        Some(String::from("LC")),
        Some(6),
    );
    assert_eq!(Token::decimals(&configured), 6);
    assert_eq!(Token::name(&configured), String::from("Ledger Coin"));
    assert_eq!(Token::symbol(&configured), String::from("LC"));
}

#[test]
fn token_events_record_committed_operations() {
    let mut store = fresh();
    store.credit(A, 100).unwrap();

    let auth = AuthGate::new(vec![A]);
    Token::approve(&mut store, &auth, A, B, 50, 9).unwrap();
    Token::transfer(&mut store, &auth, A, B, 10).unwrap();
    Token::burn(&mut store, &auth, A, 5).unwrap();

    // A failed call commits no event.
    let _ = Token::transfer(&mut store, &auth, A, B, 1000);

    let log = store.event_log();
    assert_eq!(log.len(), 3);
    assert_eq!(log[0], TokenEvent::Approve(A, B, 50, 9));
    assert_eq!(log[1], TokenEvent::Transfer(A, B, 10));
    assert_eq!(log[2], TokenEvent::Burn(A, 5));
}
