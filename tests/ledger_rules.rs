use token_operations::ledger::{
    approve, burn, freeze_account, initialize_account, initialize_mint, mint_to,
    require_signer_authority, revoke, thaw_account, transfer,
};
use token_operations::pubkey::Pubkey;
use token_operations::state::{AccountState, Mint, TokenAccount, TokenError};

fn key(n: u8) -> Pubkey {
    Pubkey([n; 32])
}

fn account(owner: u8, amount: u64) -> TokenAccount {
    TokenAccount {
        mint: key(10),
        owner: key(owner),
        amount,
        delegate: None,
        state: AccountState::Initialized,
        is_native: None,
        delegated_amount: 0,
        close_authority: None,
    }
}

#[test]
fn authority_check_order() {
    assert_eq!(require_signer_authority(&key(1), false, &None), Err(TokenError::InvalidArgument));
    assert_eq!(require_signer_authority(&key(1), true, &Some(key(2))), Err(TokenError::InvalidArgument));
    assert_eq!(require_signer_authority(&key(1), false, &Some(key(1))), Err(TokenError::MissingRequiredSignature));
    assert_eq!(require_signer_authority(&key(1), true, &Some(key(1))), Ok(()));
}

#[test]
fn fresh_records() {
    let fresh = Mint { mint_authority: None, supply: 0, decimals: 0, is_initialized: false, freeze_authority: None };
    let m = initialize_mint(&fresh, 6, key(1), Some(key(2))).unwrap();
    assert_eq!(m, Mint { mint_authority: Some(key(1)), supply: 0, decimals: 6, is_initialized: true, freeze_authority: Some(key(2)) });
    assert_eq!(initialize_mint(&m, 6, key(5), None), Err(TokenError::AccountAlreadyInitialized));
    let empty = TokenAccount { state: AccountState::Uninitialized, ..account(0, 0) };
    let blank = Mint { is_initialized: false, ..m };
    assert_eq!(initialize_account(&empty, &blank, key(10), key(3)), Err(TokenError::UninitializedAccount));
    assert_eq!(initialize_account(&empty, &m, key(10), key(3)).unwrap(), account(3, 0));
    assert_eq!(initialize_account(&account(3, 9), &m, key(10), key(4)), Err(TokenError::AccountAlreadyInitialized));
}

#[test]
fn mint_to_checks_both_sums_before_writing() {
    let mut m = Mint { mint_authority: Some(key(1)), supply: 5, decimals: 0, is_initialized: true, freeze_authority: None };
    let mut d = account(3, u64::MAX - 2);
    assert_eq!(mint_to(&mut m, &key(10), &mut d, &key(1), true, 3), Err(TokenError::ArithmeticOverflow));
    assert_eq!(m.supply, 5);
    assert_eq!(d.amount, u64::MAX - 2);
    mint_to(&mut m, &key(10), &mut d, &key(1), true, 2).unwrap();
    assert_eq!((m.supply, d.amount), (7, u64::MAX));
}

#[test]
fn owner_who_is_also_delegate_spends_the_allowance() {
    let mut a = account(3, 100);
    let mut b = account(4, 0);
    approve(&mut a, key(3), &key(3), true, 60).unwrap();
    transfer(&mut a, &mut b, &key(3), true, 50).unwrap();
    assert_eq!((a.amount, a.delegated_amount, b.amount), (50, 10, 50));
    assert_eq!(transfer(&mut a, &mut b, &key(3), true, 11), Err(TokenError::InsufficientFunds));
    revoke(&mut a, &key(3), true).unwrap();
    transfer(&mut a, &mut b, &key(3), true, 11).unwrap();
    assert_eq!((a.amount, a.delegated_amount, b.amount), (39, 0, 61));
}

#[test]
fn burn_lowers_balance_and_supply() {
    let mut a = account(3, 100);
    let mut m = Mint { mint_authority: None, supply: 100, decimals: 0, is_initialized: true, freeze_authority: None };
    burn(&mut a, &mut m, &key(10), &key(3), true, 40).unwrap();
    assert_eq!((a.amount, m.supply), (60, 60));
}

#[test]
fn uninitialized_records_take_part_in_nothing() {
    let empty = TokenAccount { state: AccountState::Uninitialized, ..account(3, 5) };
    let mut m = Mint { mint_authority: Some(key(1)), supply: 5, decimals: 0, is_initialized: true, freeze_authority: Some(key(2)) };
    let mut e = empty;
    assert_eq!(mint_to(&mut m, &key(10), &mut e, &key(1), true, 1), Err(TokenError::UninitializedAccount));
    let mut b = account(4, 0);
    assert_eq!(transfer(&mut e, &mut b, &key(3), true, 1), Err(TokenError::UninitializedAccount));
    let mut a = account(3, 5);
    assert_eq!(transfer(&mut a, &mut e, &key(3), true, 1), Err(TokenError::UninitializedAccount));
    assert_eq!(burn(&mut e, &mut m, &key(10), &key(3), true, 1), Err(TokenError::UninitializedAccount));
    assert_eq!(freeze_account(&mut e, &m, &key(10), &key(2), true), Err(TokenError::UninitializedAccount));
    assert_eq!(thaw_account(&mut e, &m, &key(10), &key(2), true), Err(TokenError::UninitializedAccount));
    assert_eq!(e, empty);
    let mut blank_mint = Mint { is_initialized: false, ..m };
    assert_eq!(mint_to(&mut blank_mint, &key(10), &mut a, &key(1), true, 1), Err(TokenError::UninitializedAccount));
    assert_eq!(burn(&mut a, &mut blank_mint, &key(10), &key(3), true, 1), Err(TokenError::UninitializedAccount));
    assert_eq!((a.amount, m.supply, blank_mint.supply), (5, 5, 5));
}

#[test]
fn accounts_of_another_mint_are_refused() {
    let mut m = Mint { mint_authority: Some(key(1)), supply: 5, decimals: 0, is_initialized: true, freeze_authority: Some(key(2)) };
    let mut a = account(3, 5);
    assert_eq!(mint_to(&mut m, &key(11), &mut a, &key(1), true, 1), Err(TokenError::InvalidArgument));
    assert_eq!(burn(&mut a, &mut m, &key(11), &key(3), true, 1), Err(TokenError::InvalidArgument));
    assert_eq!(freeze_account(&mut a, &m, &key(11), &key(2), true), Err(TokenError::InvalidArgument));
    assert_eq!(thaw_account(&mut a, &m, &key(11), &key(2), true), Err(TokenError::InvalidArgument));
    assert_eq!((a.amount, a.state, m.supply), (5, AccountState::Initialized, 5));
}
