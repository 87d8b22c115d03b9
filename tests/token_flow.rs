use token_operations::processor::{process_instruction, AccountHandle};
use token_operations::pubkey::Pubkey;
use token_operations::state::{AccountState, Mint, TokenAccount, TokenError, TokenInstruction};

fn key(n: u8) -> Pubkey {
    Pubkey([n; 32])
}

fn handle(k: Pubkey, is_signer: bool, len: usize) -> AccountHandle {
    AccountHandle { key: k, is_signer, data: vec![0u8; len] }
}

fn run(accounts: &mut Vec<AccountHandle>, ix: TokenInstruction) -> Result<(), TokenError> {
    process_instruction(&key(200), accounts, &ix.pack())
}

fn mint_of(a: &AccountHandle) -> Mint {
    Mint::unpack(&a.data).unwrap()
}

fn account_of(a: &AccountHandle) -> TokenAccount {
    TokenAccount::unpack(&a.data).unwrap()
}

const AUTHORITY: u8 = 1;
const FREEZER: u8 = 2;
const MINT: u8 = 10;
const X: u8 = 20;
const Y: u8 = 21;
const OWNER_X: u8 = 30;
const OWNER_Y: u8 = 31;
const DELEGATE: u8 = 40;

/// A ledger with one mint and two empty accounts, X and Y.
struct Ledger {
    mint: AccountHandle,
    x: AccountHandle,
    y: AccountHandle,
}

impl Ledger {
    fn new(decimals: u8) -> Ledger {
        let mut accts = vec![
            handle(key(MINT), false, Mint::LEN),
            handle(key(AUTHORITY), false, 0),
            handle(key(FREEZER), false, 0),
        ];
        run(&mut accts, TokenInstruction::InitializeMint { decimals }).unwrap();
        let mint = accts[0].clone();
        let mut ax = vec![handle(key(X), false, TokenAccount::LEN), mint.clone(), handle(key(OWNER_X), false, 0)];
        run(&mut ax, TokenInstruction::InitializeAccount).unwrap();
        let mut ay = vec![handle(key(Y), false, TokenAccount::LEN), mint.clone(), handle(key(OWNER_Y), false, 0)];
        run(&mut ay, TokenInstruction::InitializeAccount).unwrap();
        Ledger { mint, x: ax[0].clone(), y: ay[0].clone() }
    }

    fn mint_to_x(&mut self, amount: u64) -> Result<(), TokenError> {
        let mut accts = vec![self.mint.clone(), self.x.clone(), handle(key(AUTHORITY), true, 0)];
        let r = run(&mut accts, TokenInstruction::MintTo { amount });
        self.mint = accts[0].clone();
        self.x = accts[1].clone();
        r
    }

    fn transfer_x_to_y(&mut self, authority: u8, signed: bool, amount: u64) -> Result<(), TokenError> {
        let mut accts = vec![self.x.clone(), self.y.clone(), handle(key(authority), signed, 0)];
        let r = run(&mut accts, TokenInstruction::Transfer { amount });
        self.x = accts[0].clone();
        self.y = accts[1].clone();
        r
    }

    fn burn_x(&mut self, authority: u8, signed: bool, amount: u64) -> Result<(), TokenError> {
        let mut accts = vec![self.x.clone(), self.mint.clone(), handle(key(authority), signed, 0)];
        let r = run(&mut accts, TokenInstruction::Burn { amount });
        self.x = accts[0].clone();
        self.mint = accts[1].clone();
        r
    }

    fn approve_x(&mut self, delegate: u8, amount: u64) -> Result<(), TokenError> {
        let mut accts = vec![self.x.clone(), handle(key(delegate), false, 0), handle(key(OWNER_X), true, 0)];
        let r = run(&mut accts, TokenInstruction::Approve { amount });
        self.x = accts[0].clone();
        r
    }

    fn supply(&self) -> u64 {
        mint_of(&self.mint).supply
    }

    fn x_amount(&self) -> u64 {
        account_of(&self.x).amount
    }

    fn y_amount(&self) -> u64 {
        account_of(&self.y).amount
    }
}

#[test]
fn test_initialize_mint() {
    let ledger = Ledger::new(9);
    let m = mint_of(&ledger.mint);
    assert_eq!(m.decimals, 9);
    assert!(m.is_initialized);
    assert_eq!(m.mint_authority.unwrap(), key(AUTHORITY));
    assert_eq!(m.supply, 0);
    assert_eq!(m.freeze_authority, Some(key(FREEZER)));
}

#[test]
fn initialize_mint_without_freeze_authority() {
    let mut accts = vec![handle(key(MINT), false, Mint::LEN), handle(key(AUTHORITY), false, 0)];
    run(&mut accts, TokenInstruction::InitializeMint { decimals: 0 }).unwrap();
    assert_eq!(mint_of(&accts[0]).freeze_authority, None);
}

#[test]
fn initialize_mint_on_undecodable_buffer_is_invalid_account_data() {
    let mut accts = vec![AccountHandle { key: key(MINT), is_signer: false, data: vec![7u8; Mint::LEN] }, handle(key(AUTHORITY), false, 0)];
    assert_eq!(run(&mut accts, TokenInstruction::InitializeMint { decimals: 9 }), Err(TokenError::InvalidAccountData));
    assert_eq!(accts[0].data, vec![7u8; Mint::LEN]);
}

#[test]
fn initialize_mint_wrong_size_is_invalid_account_data() {
    let mut accts = vec![handle(key(MINT), false, 81), handle(key(AUTHORITY), false, 0)];
    let before = accts[0].data.clone();
    assert_eq!(run(&mut accts, TokenInstruction::InitializeMint { decimals: 9 }), Err(TokenError::InvalidAccountData));
    assert_eq!(accts[0].data, before);
}

#[test]
fn initialize_mint_with_one_account_is_refused() {
    let mut accts = vec![handle(key(MINT), false, Mint::LEN)];
    assert_eq!(run(&mut accts, TokenInstruction::InitializeMint { decimals: 9 }), Err(TokenError::NotEnoughAccountKeys));
}

#[test]
fn test_initialize_account() {
    let ledger = Ledger::new(9);
    let a = account_of(&ledger.x);
    assert_eq!(a.mint, key(MINT));
    assert_eq!(a.owner, key(OWNER_X));
    assert_eq!(a.state, AccountState::Initialized);
    assert_eq!(a.amount, 0);
    assert_eq!(a.delegate, None);
    assert_eq!(a.delegated_amount, 0);
}

#[test]
fn initialize_account_of_uninitialized_mint_is_refused() {
    let blank = Mint { mint_authority: None, supply: 0, decimals: 0, is_initialized: false, freeze_authority: None };
    let mint = AccountHandle { key: key(MINT), is_signer: false, data: blank.pack() };
    let mut accts = vec![handle(key(X), false, TokenAccount::LEN), mint, handle(key(OWNER_X), false, 0)];
    assert_eq!(run(&mut accts, TokenInstruction::InitializeAccount), Err(TokenError::UninitializedAccount));
    assert_eq!(accts[0].data, vec![0u8; TokenAccount::LEN]);
}

#[test]
fn initialize_account_with_unformatted_mint_is_invalid_account_data() {
    // an all-zero buffer of the wrong size is not a mint record
    let mut accts = vec![handle(key(X), false, TokenAccount::LEN), handle(key(MINT), false, 10), handle(key(OWNER_X), false, 0)];
    assert_eq!(run(&mut accts, TokenInstruction::InitializeAccount), Err(TokenError::InvalidAccountData));
}

#[test]
fn test_mint_to() {
    let mut ledger = Ledger::new(9);
    ledger.mint_to_x(1000).unwrap();
    assert_eq!(ledger.x_amount(), 1000);
    assert_eq!(ledger.supply(), 1000);
}

#[test]
fn mint_to_by_wrong_authority_is_refused() {
    let mut ledger = Ledger::new(9);
    let mut accts = vec![ledger.mint.clone(), ledger.x.clone(), handle(key(99), true, 0)];
    assert_eq!(run(&mut accts, TokenInstruction::MintTo { amount: 5 }), Err(TokenError::InvalidArgument));
    let mut accts = vec![ledger.mint.clone(), ledger.x.clone(), handle(key(AUTHORITY), false, 0)];
    assert_eq!(run(&mut accts, TokenInstruction::MintTo { amount: 5 }), Err(TokenError::MissingRequiredSignature));
    assert_eq!(accts[0].data, ledger.mint.data);
    assert_eq!(accts[1].data, ledger.x.data);
    ledger.mint_to_x(0).unwrap();
    assert_eq!(ledger.supply(), 0);
}

#[test]
fn mint_to_past_max_supply_overflows_and_changes_nothing() {
    let mut ledger = Ledger::new(9);
    ledger.mint_to_x(u64::MAX - 10).unwrap();
    let (mint_before, x_before) = (ledger.mint.data.clone(), ledger.x.data.clone());
    assert_eq!(ledger.mint_to_x(11), Err(TokenError::ArithmeticOverflow));
    assert_eq!(ledger.mint.data, mint_before);
    assert_eq!(ledger.x.data, x_before);
    ledger.mint_to_x(10).unwrap();
    assert_eq!(ledger.supply(), u64::MAX);
    assert_eq!(ledger.x_amount(), u64::MAX);
}

#[test]
fn test_transfer() {
    let mut ledger = Ledger::new(9);
    ledger.mint_to_x(1000).unwrap();
    ledger.transfer_x_to_y(OWNER_X, true, 250).unwrap();
    assert_eq!(ledger.y_amount(), 250);
    assert_eq!(ledger.x_amount(), 1000 - 250);
}

#[test]
fn transfer_by_stranger_is_refused_signed_or_not() {
    let mut ledger = Ledger::new(9);
    ledger.mint_to_x(1000).unwrap();
    let (x_before, y_before) = (ledger.x.data.clone(), ledger.y.data.clone());
    assert_eq!(ledger.transfer_x_to_y(99, true, 10), Err(TokenError::InvalidArgument));
    assert_eq!(ledger.transfer_x_to_y(99, false, 10), Err(TokenError::InvalidArgument));
    assert_eq!(ledger.transfer_x_to_y(OWNER_Y, true, 10), Err(TokenError::InvalidArgument));
    assert_eq!(ledger.x.data, x_before);
    assert_eq!(ledger.y.data, y_before);
}

#[test]
fn transfer_unsigned_by_owner_is_refused() {
    let mut ledger = Ledger::new(9);
    ledger.mint_to_x(1000).unwrap();
    assert_eq!(ledger.transfer_x_to_y(OWNER_X, false, 10), Err(TokenError::MissingRequiredSignature));
    assert_eq!(ledger.x_amount(), 1000);
}

#[test]
fn transfer_over_balance_is_insufficient_funds() {
    let mut ledger = Ledger::new(9);
    ledger.mint_to_x(100).unwrap();
    let (x_before, y_before) = (ledger.x.data.clone(), ledger.y.data.clone());
    assert_eq!(ledger.transfer_x_to_y(OWNER_X, true, 101), Err(TokenError::InsufficientFunds));
    assert_eq!(ledger.x.data, x_before);
    assert_eq!(ledger.y.data, y_before);
    ledger.transfer_x_to_y(OWNER_X, true, 100).unwrap();
    assert_eq!(ledger.x_amount(), 0);
    assert_eq!(ledger.y_amount(), 100);
}

#[test]
fn transfer_between_mints_is_refused() {
    let mut ledger = Ledger::new(9);
    ledger.mint_to_x(100).unwrap();
    let mut other = account_of(&ledger.y);
    other.mint = key(77);
    let mut accts = vec![ledger.x.clone(), AccountHandle { key: key(Y), is_signer: false, data: other.pack() }, handle(key(OWNER_X), true, 0)];
    assert_eq!(run(&mut accts, TokenInstruction::Transfer { amount: 1 }), Err(TokenError::InvalidArgument));
    assert_eq!(accts[0].data, ledger.x.data);
}

#[test]
fn transfer_into_full_account_overflows() {
    let mut ledger = Ledger::new(9);
    ledger.mint_to_x(10).unwrap();
    let mut full = account_of(&ledger.y);
    full.amount = u64::MAX;
    ledger.y.data = full.pack();
    let x_before = ledger.x.data.clone();
    assert_eq!(ledger.transfer_x_to_y(OWNER_X, true, 1), Err(TokenError::ArithmeticOverflow));
    assert_eq!(ledger.x.data, x_before);
    assert_eq!(ledger.y_amount(), u64::MAX);
}

#[test]
fn test_approve() {
    let mut ledger = Ledger::new(9);
    ledger.mint_to_x(1000).unwrap();
    ledger.approve_x(DELEGATE, 500).unwrap();
    let a = account_of(&ledger.x);
    assert_eq!(a.amount, 1000);
    assert_eq!(a.delegated_amount, 500);
    assert_eq!(a.delegate.unwrap(), key(DELEGATE));
}

#[test]
fn approve_may_exceed_balance_and_replaces_earlier_delegation() {
    let mut ledger = Ledger::new(9);
    ledger.approve_x(DELEGATE, 500).unwrap();
    ledger.approve_x(DELEGATE + 1, 7).unwrap();
    let a = account_of(&ledger.x);
    assert_eq!(a.delegate, Some(key(DELEGATE + 1)));
    assert_eq!(a.delegated_amount, 7);
    assert_eq!(a.amount, 0);
}

#[test]
fn approve_by_non_owner_is_refused() {
    let ledger = Ledger::new(9);
    let mut accts = vec![ledger.x.clone(), handle(key(DELEGATE), false, 0), handle(key(OWNER_Y), true, 0)];
    assert_eq!(run(&mut accts, TokenInstruction::Approve { amount: 1 }), Err(TokenError::InvalidArgument));
    let mut accts = vec![ledger.x.clone(), handle(key(DELEGATE), false, 0), handle(key(OWNER_X), false, 0)];
    assert_eq!(run(&mut accts, TokenInstruction::Approve { amount: 1 }), Err(TokenError::MissingRequiredSignature));
    assert_eq!(accts[0].data, ledger.x.data);
}

#[test]
fn delegated_transfer_spends_allowance() {
    let mut ledger = Ledger::new(9);
    ledger.mint_to_x(1000).unwrap();
    ledger.approve_x(DELEGATE, 500).unwrap();
    ledger.transfer_x_to_y(DELEGATE, true, 200).unwrap();
    let a = account_of(&ledger.x);
    assert_eq!(a.delegated_amount, 300);
    assert_eq!(a.amount, 800);
    assert_eq!(ledger.y_amount(), 200);
}

#[test]
fn delegated_transfer_over_allowance_is_insufficient_funds() {
    let mut ledger = Ledger::new(9);
    ledger.mint_to_x(1000).unwrap();
    ledger.approve_x(DELEGATE, 500).unwrap();
    let (x_before, y_before) = (ledger.x.data.clone(), ledger.y.data.clone());
    assert_eq!(ledger.transfer_x_to_y(DELEGATE, true, 501), Err(TokenError::InsufficientFunds));
    assert_eq!(ledger.x.data, x_before);
    assert_eq!(ledger.y.data, y_before);
}

#[test]
fn revoke_clears_delegation() {
    let mut ledger = Ledger::new(9);
    ledger.mint_to_x(1000).unwrap();
    ledger.approve_x(DELEGATE, 500).unwrap();
    let mut accts = vec![ledger.x.clone(), handle(key(OWNER_X), false, 0)];
    assert_eq!(run(&mut accts, TokenInstruction::Revoke), Err(TokenError::MissingRequiredSignature));
    let mut accts = vec![ledger.x.clone(), handle(key(OWNER_X), true, 0)];
    run(&mut accts, TokenInstruction::Revoke).unwrap();
    ledger.x = accts[0].clone();
    let a = account_of(&ledger.x);
    assert_eq!(a.delegate, None);
    assert_eq!(a.delegated_amount, 0);
    assert_eq!(ledger.transfer_x_to_y(DELEGATE, true, 1), Err(TokenError::InvalidArgument));
}

#[test]
fn test_burn() {
    let mut ledger = Ledger::new(9);
    ledger.mint_to_x(1000).unwrap();
    ledger.burn_x(OWNER_X, true, 300).unwrap();
    assert_eq!(ledger.x_amount(), 1000 - 300);
    assert_eq!(ledger.supply(), 1000 - 300);
}

#[test]
fn burn_requires_signing_owner_and_balance() {
    let mut ledger = Ledger::new(9);
    ledger.mint_to_x(1000).unwrap();
    let (x_before, mint_before) = (ledger.x.data.clone(), ledger.mint.data.clone());
    assert_eq!(ledger.burn_x(99, true, 1), Err(TokenError::InvalidArgument));
    assert_eq!(ledger.burn_x(OWNER_X, false, 1), Err(TokenError::MissingRequiredSignature));
    assert_eq!(ledger.burn_x(OWNER_X, true, 1001), Err(TokenError::InsufficientFunds));
    assert_eq!(ledger.x.data, x_before);
    assert_eq!(ledger.mint.data, mint_before);
}

#[test]
fn burn_below_zero_supply_is_overflow() {
    let mut ledger = Ledger::new(9);
    let mut rich = account_of(&ledger.x);
    rich.amount = 50;
    ledger.x.data = rich.pack();
    assert_eq!(ledger.burn_x(OWNER_X, true, 10), Err(TokenError::ArithmeticOverflow));
    assert_eq!(ledger.x_amount(), 50);
}

fn set_state(ledger: &mut Ledger, ix: TokenInstruction, authority: u8, signed: bool) -> Result<(), TokenError> {
    let mut accts = vec![ledger.x.clone(), ledger.mint.clone(), handle(key(authority), signed, 0)];
    let r = run(&mut accts, ix);
    ledger.x = accts[0].clone();
    r
}

#[test]
fn test_freeze_account() {
    let mut ledger = Ledger::new(9);
    ledger.mint_to_x(1000).unwrap();
    set_state(&mut ledger, TokenInstruction::FreezeAccount, FREEZER, true).unwrap();
    assert_eq!(account_of(&ledger.x).state, AccountState::Frozen);
    assert_eq!(ledger.x_amount(), 1000);
}

#[test]
fn freeze_and_thaw_need_the_signing_freeze_authority() {
    let mut ledger = Ledger::new(9);
    assert_eq!(set_state(&mut ledger, TokenInstruction::FreezeAccount, AUTHORITY, true), Err(TokenError::InvalidArgument));
    assert_eq!(set_state(&mut ledger, TokenInstruction::FreezeAccount, FREEZER, false), Err(TokenError::MissingRequiredSignature));
    assert_eq!(account_of(&ledger.x).state, AccountState::Initialized);
    set_state(&mut ledger, TokenInstruction::FreezeAccount, FREEZER, true).unwrap();
    assert_eq!(set_state(&mut ledger, TokenInstruction::ThawAccount, 99, true), Err(TokenError::InvalidArgument));
    assert_eq!(account_of(&ledger.x).state, AccountState::Frozen);
    set_state(&mut ledger, TokenInstruction::ThawAccount, FREEZER, true).unwrap();
    assert_eq!(account_of(&ledger.x).state, AccountState::Initialized);
}

#[test]
fn freeze_without_freeze_authority_is_refused() {
    let mut accts = vec![handle(key(MINT), false, Mint::LEN), handle(key(AUTHORITY), false, 0)];
    run(&mut accts, TokenInstruction::InitializeMint { decimals: 2 }).unwrap();
    let mint = accts[0].clone();
    let mut ax = vec![handle(key(X), false, TokenAccount::LEN), mint.clone(), handle(key(OWNER_X), false, 0)];
    run(&mut ax, TokenInstruction::InitializeAccount).unwrap();
    let mut accts = vec![ax[0].clone(), mint, handle(key(AUTHORITY), true, 0)];
    assert_eq!(run(&mut accts, TokenInstruction::FreezeAccount), Err(TokenError::InvalidArgument));
}

#[test]
fn frozen_account_still_moves_funds() {
    let mut ledger = Ledger::new(9);
    ledger.mint_to_x(10).unwrap();
    set_state(&mut ledger, TokenInstruction::FreezeAccount, FREEZER, true).unwrap();
    ledger.transfer_x_to_y(OWNER_X, true, 4).unwrap();
    assert_eq!(ledger.x_amount(), 6);
    assert_eq!(account_of(&ledger.x).state, AccountState::Frozen);
}

#[test]
fn mint_transfer_burn_scenario() {
    let mut ledger = Ledger::new(9);
    assert_eq!(mint_of(&ledger.mint).decimals, 9);
    ledger.mint_to_x(1000).unwrap();
    assert_eq!(ledger.x_amount(), 1000);
    assert_eq!(ledger.supply(), 1000);
    ledger.transfer_x_to_y(OWNER_X, true, 250).unwrap();
    assert_eq!(ledger.x_amount(), 750);
    assert_eq!(ledger.y_amount(), 250);
    ledger.burn_x(OWNER_X, true, 300).unwrap();
    assert_eq!(ledger.x_amount(), 450);
    assert_eq!(ledger.supply(), 700);
}

#[test]
fn supply_equals_sum_of_balances_through_a_sequence() {
    let mut ledger = Ledger::new(0);
    let steps: Vec<(u8, u64)> = vec![(0, 500), (1, 120), (2, 30), (1, 1000), (0, 7), (2, 477), (1, 0), (2, 1)];
    for (op, amount) in steps {
        let _ = match op {
            0 => ledger.mint_to_x(amount),
            1 => ledger.transfer_x_to_y(OWNER_X, true, amount),
            _ => ledger.burn_x(OWNER_X, true, amount),
        };
        assert_eq!(ledger.supply(), ledger.x_amount() + ledger.y_amount());
    }
    assert_eq!(ledger.x_amount(), 356);
    assert_eq!(ledger.y_amount(), 120);
}

#[test]
fn undecodable_payload_is_refused_before_accounts_are_read() {
    let mut accts: Vec<AccountHandle> = vec![];
    for payload in [vec![], vec![9u8], vec![0u8], vec![0u8, 9, 9], vec![2u8, 1, 2, 3], vec![1u8, 0], vec![255u8]] {
        assert_eq!(process_instruction(&key(200), &mut accts, &payload), Err(TokenError::InvalidInstructionData));
    }
}

#[test]
fn too_few_accounts_is_not_enough_account_keys() {
    let mut accts = vec![handle(key(X), false, TokenAccount::LEN), handle(key(OWNER_X), true, 0)];
    assert_eq!(run(&mut accts, TokenInstruction::Transfer { amount: 1 }), Err(TokenError::NotEnoughAccountKeys));
    let mut one = vec![handle(key(X), false, TokenAccount::LEN)];
    assert_eq!(run(&mut one, TokenInstruction::Revoke), Err(TokenError::NotEnoughAccountKeys));
}

#[test]
fn unformatted_records_are_invalid_account_data() {
    let mut accts = vec![handle(key(X), false, 100), handle(key(Y), false, TokenAccount::LEN), handle(key(OWNER_X), true, 0)];
    assert_eq!(run(&mut accts, TokenInstruction::Transfer { amount: 1 }), Err(TokenError::InvalidAccountData));
}

#[test]
fn transfer_to_itself_is_refused() {
    let mut ledger = Ledger::new(9);
    ledger.mint_to_x(1000).unwrap();
    let mut accts = vec![ledger.x.clone(), ledger.x.clone(), handle(key(OWNER_X), true, 0)];
    assert_eq!(run(&mut accts, TokenInstruction::Transfer { amount: 10 }), Err(TokenError::InvalidArgument));
    assert_eq!(accts[0].data, ledger.x.data);
    assert_eq!(accts[1].data, ledger.x.data);
}

/// A second mint with an initialized account Z, owned by OWNER_X.
fn other_mint() -> (AccountHandle, AccountHandle) {
    let mut accts = vec![handle(key(MINT + 1), false, Mint::LEN), handle(key(AUTHORITY), false, 0), handle(key(FREEZER), false, 0)];
    run(&mut accts, TokenInstruction::InitializeMint { decimals: 0 }).unwrap();
    let mint = accts[0].clone();
    let mut az = vec![handle(key(50), false, TokenAccount::LEN), mint.clone(), handle(key(OWNER_X), false, 0)];
    run(&mut az, TokenInstruction::InitializeAccount).unwrap();
    (mint, az[0].clone())
}

#[test]
fn mint_to_account_of_another_mint_is_refused() {
    let ledger = Ledger::new(9);
    let (_, z) = other_mint();
    let mut accts = vec![ledger.mint.clone(), z.clone(), handle(key(AUTHORITY), true, 0)];
    assert_eq!(run(&mut accts, TokenInstruction::MintTo { amount: 5 }), Err(TokenError::InvalidArgument));
    assert_eq!(accts[0].data, ledger.mint.data);
    assert_eq!(accts[1].data, z.data);
}

#[test]
fn burn_against_another_mint_is_refused() {
    let mut ledger = Ledger::new(9);
    ledger.mint_to_x(100).unwrap();
    let (other, _) = other_mint();
    let mut accts = vec![ledger.x.clone(), other.clone(), handle(key(OWNER_X), true, 0)];
    assert_eq!(run(&mut accts, TokenInstruction::Burn { amount: 5 }), Err(TokenError::InvalidArgument));
    assert_eq!(accts[0].data, ledger.x.data);
    assert_eq!(accts[1].data, other.data);
}

#[test]
fn freeze_against_another_mint_is_refused() {
    let mut ledger = Ledger::new(9);
    let (other, _) = other_mint();
    let mut accts = vec![ledger.x.clone(), other, handle(key(FREEZER), true, 0)];
    assert_eq!(run(&mut accts, TokenInstruction::FreezeAccount), Err(TokenError::InvalidArgument));
    assert_eq!(set_state(&mut ledger, TokenInstruction::FreezeAccount, FREEZER, true), Ok(()));
}

#[test]
fn initialized_records_are_not_initialized_again() {
    let mut ledger = Ledger::new(9);
    ledger.mint_to_x(1000).unwrap();
    set_state(&mut ledger, TokenInstruction::FreezeAccount, FREEZER, true).unwrap();
    let mut accts = vec![ledger.x.clone(), ledger.mint.clone(), handle(key(OWNER_Y), false, 0)];
    assert_eq!(run(&mut accts, TokenInstruction::InitializeAccount), Err(TokenError::AccountAlreadyInitialized));
    assert_eq!(accts[0].data, ledger.x.data);
    assert_eq!(account_of(&accts[0]).state, AccountState::Frozen);
    let mut accts = vec![ledger.mint.clone(), handle(key(99), false, 0)];
    assert_eq!(run(&mut accts, TokenInstruction::InitializeMint { decimals: 0 }), Err(TokenError::AccountAlreadyInitialized));
    assert_eq!(mint_of(&accts[0]).supply, 1000);
}

#[test]
fn blank_accounts_cannot_be_frozen_thawed_or_credited() {
    let ledger = Ledger::new(9);
    let blank = handle(key(60), false, TokenAccount::LEN);
    for ix in [TokenInstruction::FreezeAccount, TokenInstruction::ThawAccount] {
        let mut accts = vec![blank.clone(), ledger.mint.clone(), handle(key(FREEZER), true, 0)];
        assert_eq!(run(&mut accts, ix), Err(TokenError::UninitializedAccount));
        assert_eq!(accts[0].data, blank.data);
    }
    let mut accts = vec![ledger.mint.clone(), blank.clone(), handle(key(AUTHORITY), true, 0)];
    assert_eq!(run(&mut accts, TokenInstruction::MintTo { amount: 1 }), Err(TokenError::UninitializedAccount));
    let mut accts = vec![blank.clone(), ledger.x.clone(), handle(key(0), true, 0)];
    assert_eq!(run(&mut accts, TokenInstruction::Transfer { amount: 0 }), Err(TokenError::UninitializedAccount));
}
