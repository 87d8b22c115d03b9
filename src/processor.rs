//! Applying instructions to the account buffers that the host supplies.
//!
//! Every operation reads its accounts in a fixed order, unpacks the records
//! it needs, decides by the rules of `ledger`, and only when the operation
//! applies packs the changed records back into their buffers. A refused
//! instruction leaves every buffer as it was.

use vstd::prelude::*;

use crate::codec::{is_mint_record, is_token_account_record, mint_bytes, token_account_bytes, lemma_mint_bytes_injective, lemma_token_account_bytes_injective};
use crate::ledger::{
    approve, approve_outcome, burn, burn_outcome, freeze_account, initialize_account,
    initialize_account_outcome, initialize_mint, initialize_mint_outcome, mint_to,
    mint_to_outcome, revoke, revoke_outcome, set_state_outcome, thaw_account, transfer,
    transfer_outcome,
};
use crate::instruction::{instruction_bytes, is_instruction, lemma_instruction_bytes_injective};
use crate::pubkey::Pubkey;
use crate::state::{AccountState, Mint, TokenAccount, TokenError, TokenInstruction};

verus! {

/// An account as the host hands it to an instruction: its key, whether it
/// signed, and its data buffer.
#[derive(Clone, Debug)]
pub struct AccountHandle {
    pub key: Pubkey,
    pub is_signer: bool,
    pub data: Vec<u8>,
}

/// The data buffers of a list of accounts.
pub open spec fn data_of(accts: Seq<AccountHandle>) -> Seq<Seq<u8>> {
    Seq::new(accts.len(), |i: int| accts[i].data@)
}

/// `after` holds the same accounts as `before`, in the same order, with the
/// same keys and signer flags; only data may differ.
pub open spec fn same_identities(before: Seq<AccountHandle>, after: Seq<AccountHandle>) -> bool {
    &&& after.len() == before.len()
    &&& forall|i: int|
        0 <= i < before.len() ==> #[trigger] after[i].key == before[i].key && after[i].is_signer
            == before[i].is_signer
}

/// The call returned as `effect` says: on success the buffers hold the new
/// data, on refusal they are unchanged and the error is the one stated.
pub open spec fn applied(
    before: Seq<AccountHandle>,
    after: Seq<AccountHandle>,
    effect: Result<Seq<Seq<u8>>, TokenError>,
    r: Result<(), TokenError>,
) -> bool {
    &&& same_identities(before, after)
    &&& match effect {
        Ok(d) => r is Ok && data_of(after) == d,
        Err(e) => r == Err::<(), TokenError>(e) && data_of(after) == data_of(before),
    }
}

/// The mint whose packed form is `b`.
pub open spec fn mint_of(b: Seq<u8>) -> Mint {
    choose|m: Mint| mint_bytes(m) == b
}

/// The token account whose packed form is `b`.
pub open spec fn token_account_of(b: Seq<u8>) -> TokenAccount {
    choose|a: TokenAccount| token_account_bytes(a) == b
}

/// The mint that `mint_of` picks is the one whose packed form it was given.
pub proof fn lemma_mint_of(m: Mint, b: Seq<u8>)
    requires
        mint_bytes(m) == b,
    ensures
        mint_of(b) == m,
{
    lemma_mint_bytes_injective(mint_of(b), m);
}

/// The account that `token_account_of` picks is the one whose packed form it
/// was given.
pub proof fn lemma_token_account_of(a: TokenAccount, b: Seq<u8>)
    requires
        token_account_bytes(a) == b,
    ensures
        token_account_of(b) == a,
{
    lemma_token_account_bytes_injective(token_account_of(b), a);
}

/// Replaces the data of account `i`.
fn write_data(accounts: &mut Vec<AccountHandle>, i: usize, data: Vec<u8>)
    requires
        i < old(accounts)@.len(),
    ensures
        same_identities(old(accounts)@, final(accounts)@),
        data_of(final(accounts)@) == data_of(old(accounts)@).update(i as int, data@),
{
    let key = accounts[i].key;
    let is_signer = accounts[i].is_signer;
    accounts.set(i, AccountHandle { key, is_signer, data });
    assert(data_of(accounts@) =~= data_of(old(accounts)@).update(i as int, data@));
}

/// What `MintTo` does to the buffers: mint (0), destination (1), authority (2).
pub open spec fn mint_to_effect(accts: Seq<AccountHandle>, amount: u64) -> Result<
    Seq<Seq<u8>>,
    TokenError,
> {
    if accts.len() < 3 {
        Err(TokenError::NotEnoughAccountKeys)
    } else if !is_mint_record(accts[0].data@) || !is_token_account_record(accts[1].data@) {
        Err(TokenError::InvalidAccountData)
    } else {
        match mint_to_outcome(
            mint_of(accts[0].data@),
            accts[0].key,
            token_account_of(accts[1].data@),
            accts[2].key,
            accts[2].is_signer,
            amount,
        ) {
            Err(e) => Err(e),
            Ok((m, d)) => Ok(
                data_of(accts).update(0, mint_bytes(m)).update(1, token_account_bytes(d)),
            ),
        }
    }
}

/// Mints `amount` tokens into the destination account.
pub fn process_mint_to(accounts: &mut Vec<AccountHandle>, amount: u64) -> (r: Result<
    (),
    TokenError,
>)
    ensures
        applied(old(accounts)@, final(accounts)@, mint_to_effect(old(accounts)@, amount), r),
{
    if accounts.len() < 3 {
        return Err(TokenError::NotEnoughAccountKeys);
    }
    let mut mint = Mint::unpack(accounts[0].data.as_slice())?;
    let mut dest = TokenAccount::unpack(accounts[1].data.as_slice())?;
    proof {
        lemma_mint_of(mint, accounts@[0].data@);
        lemma_token_account_of(dest, accounts@[1].data@);
    }
    let mint_key = accounts[0].key;
    let authority = accounts[2].key;
    mint_to(&mut mint, &mint_key, &mut dest, &authority, accounts[2].is_signer, amount)?;
    write_data(accounts, 0, mint.pack());
    write_data(accounts, 1, dest.pack());
    Ok(())
}

/// What `InitializeMint` does to the buffers: mint (0), mint authority (1),
/// and, when present, freeze authority (2).
pub open spec fn initialize_mint_effect(accts: Seq<AccountHandle>, decimals: u8) -> Result<
    Seq<Seq<u8>>,
    TokenError,
> {
    if accts.len() < 2 {
        Err(TokenError::NotEnoughAccountKeys)
    } else if !is_mint_record(accts[0].data@) {
        Err(TokenError::InvalidAccountData)
    } else {
        match initialize_mint_outcome(
            mint_of(accts[0].data@),
            decimals,
            accts[1].key,
            if accts.len() > 2 {
                Some(accts[2].key)
            } else {
                None
            },
        ) {
            Err(e) => Err(e),
            Ok(m) => Ok(data_of(accts).update(0, mint_bytes(m))),
        }
    }
}

/// Formats the uninitialized mint account with `decimals`; the mint
/// authority is the second account and the freeze authority, if any, the
/// third.
pub fn process_initialize_mint(accounts: &mut Vec<AccountHandle>, decimals: u8) -> (r: Result<
    (),
    TokenError,
>)
    ensures
        applied(
            old(accounts)@,
            final(accounts)@,
            initialize_mint_effect(old(accounts)@, decimals),
            r,
        ),
{
    if accounts.len() < 2 {
        return Err(TokenError::NotEnoughAccountKeys);
    }
    let freeze_authority = if accounts.len() > 2 {
        Some(accounts[2].key)
    } else {
        None
    };
    let current = Mint::unpack(accounts[0].data.as_slice())?;
    proof {
        lemma_mint_of(current, accounts@[0].data@);
    }
    let mint = initialize_mint(&current, decimals, accounts[1].key, freeze_authority)?;
    write_data(accounts, 0, mint.pack());
    Ok(())
}

/// What `InitializeAccount` does to the buffers: token account (0), mint (1), owner (2).
pub open spec fn initialize_account_effect(accts: Seq<AccountHandle>) -> Result<
    Seq<Seq<u8>>,
    TokenError,
> {
    if accts.len() < 3 {
        Err(TokenError::NotEnoughAccountKeys)
    } else if !is_token_account_record(accts[0].data@) || !is_mint_record(accts[1].data@) {
        Err(TokenError::InvalidAccountData)
    } else {
        match initialize_account_outcome(
            token_account_of(accts[0].data@),
            mint_of(accts[1].data@),
            accts[1].key,
            accts[2].key,
        ) {
            Err(e) => Err(e),
            Ok(a) => Ok(data_of(accts).update(0, token_account_bytes(a))),
        }
    }
}

/// Formats an empty token account of the given mint for the given owner in
/// place of an uninitialized one.
pub fn process_initialize_account(accounts: &mut Vec<AccountHandle>) -> (r: Result<
    (),
    TokenError,
>)
    ensures
        applied(old(accounts)@, final(accounts)@, initialize_account_effect(old(accounts)@), r),
{
    if accounts.len() < 3 {
        return Err(TokenError::NotEnoughAccountKeys);
    }
    let current = TokenAccount::unpack(accounts[0].data.as_slice())?;
    let mint = Mint::unpack(accounts[1].data.as_slice())?;
    proof {
        lemma_token_account_of(current, accounts@[0].data@);
        lemma_mint_of(mint, accounts@[1].data@);
    }
    let account = initialize_account(&current, &mint, accounts[1].key, accounts[2].key)?;
    write_data(accounts, 0, account.pack());
    Ok(())
}

/// What `Transfer` does to the buffers: source (0), destination (1), authority (2).
pub open spec fn transfer_effect(accts: Seq<AccountHandle>, amount: u64) -> Result<
    Seq<Seq<u8>>,
    TokenError,
> {
    if accts.len() < 3 {
        Err(TokenError::NotEnoughAccountKeys)
    } else if accts[0].key == accts[1].key {
        Err(TokenError::InvalidArgument)
    } else if !is_token_account_record(accts[0].data@) || !is_token_account_record(
        accts[1].data@,
    ) {
        Err(TokenError::InvalidAccountData)
    } else {
        match transfer_outcome(
            token_account_of(accts[0].data@),
            token_account_of(accts[1].data@),
            accts[2].key,
            accts[2].is_signer,
            amount,
        ) {
            Err(e) => Err(e),
            Ok((src, dst)) => Ok(
                data_of(accts).update(0, token_account_bytes(src)).update(
                    1,
                    token_account_bytes(dst),
                ),
            ),
        }
    }
}

/// Moves `amount` tokens from the source to the destination account; an
/// account cannot be both.
pub fn process_transfer(accounts: &mut Vec<AccountHandle>, amount: u64) -> (r: Result<
    (),
    TokenError,
>)
    ensures
        applied(old(accounts)@, final(accounts)@, transfer_effect(old(accounts)@, amount), r),
{
    if accounts.len() < 3 {
        return Err(TokenError::NotEnoughAccountKeys);
    }
    if accounts[0].key == accounts[1].key {
        return Err(TokenError::InvalidArgument);
    }
    let mut source = TokenAccount::unpack(accounts[0].data.as_slice())?;
    let mut dest = TokenAccount::unpack(accounts[1].data.as_slice())?;
    proof {
        lemma_token_account_of(source, accounts@[0].data@);
        lemma_token_account_of(dest, accounts@[1].data@);
    }
    let authority = accounts[2].key;
    transfer(&mut source, &mut dest, &authority, accounts[2].is_signer, amount)?;
    write_data(accounts, 0, source.pack());
    write_data(accounts, 1, dest.pack());
    Ok(())
}

/// What `Approve` does to the buffers: token account (0), delegate (1), owner (2).
pub open spec fn approve_effect(accts: Seq<AccountHandle>, amount: u64) -> Result<
    Seq<Seq<u8>>,
    TokenError,
> {
    if accts.len() < 3 {
        Err(TokenError::NotEnoughAccountKeys)
    } else if !is_token_account_record(accts[0].data@) {
        Err(TokenError::InvalidAccountData)
    } else {
        match approve_outcome(
            token_account_of(accts[0].data@),
            accts[1].key,
            accts[2].key,
            accts[2].is_signer,
            amount,
        ) {
            Err(e) => Err(e),
            Ok(a) => Ok(data_of(accts).update(0, token_account_bytes(a))),
        }
    }
}

/// Lets the delegate spend up to `amount` tokens of the account.
pub fn process_approve(accounts: &mut Vec<AccountHandle>, amount: u64) -> (r: Result<
    (),
    TokenError,
>)
    ensures
        applied(old(accounts)@, final(accounts)@, approve_effect(old(accounts)@, amount), r),
{
    if accounts.len() < 3 {
        return Err(TokenError::NotEnoughAccountKeys);
    }
    let mut account = TokenAccount::unpack(accounts[0].data.as_slice())?;
    proof {
        lemma_token_account_of(account, accounts@[0].data@);
    }
    let owner = accounts[2].key;
    approve(&mut account, accounts[1].key, &owner, accounts[2].is_signer, amount)?;
    write_data(accounts, 0, account.pack());
    Ok(())
}

/// What `Revoke` does to the buffers: token account (0), owner (1).
pub open spec fn revoke_effect(accts: Seq<AccountHandle>) -> Result<Seq<Seq<u8>>, TokenError> {
    if accts.len() < 2 {
        Err(TokenError::NotEnoughAccountKeys)
    } else if !is_token_account_record(accts[0].data@) {
        Err(TokenError::InvalidAccountData)
    } else {
        match revoke_outcome(token_account_of(accts[0].data@), accts[1].key, accts[1].is_signer) {
            Err(e) => Err(e),
            Ok(a) => Ok(data_of(accts).update(0, token_account_bytes(a))),
        }
    }
}

/// Withdraws the account's delegation.
pub fn process_revoke(accounts: &mut Vec<AccountHandle>) -> (r: Result<(), TokenError>)
    ensures
        applied(old(accounts)@, final(accounts)@, revoke_effect(old(accounts)@), r),
{
    if accounts.len() < 2 {
        return Err(TokenError::NotEnoughAccountKeys);
    }
    let mut account = TokenAccount::unpack(accounts[0].data.as_slice())?;
    proof {
        lemma_token_account_of(account, accounts@[0].data@);
    }
    let owner = accounts[1].key;
    revoke(&mut account, &owner, accounts[1].is_signer)?;
    write_data(accounts, 0, account.pack());
    Ok(())
}

/// What `Burn` does to the buffers: token account (0), mint (1), owner (2).
pub open spec fn burn_effect(accts: Seq<AccountHandle>, amount: u64) -> Result<
    Seq<Seq<u8>>,
    TokenError,
> {
    if accts.len() < 3 {
        Err(TokenError::NotEnoughAccountKeys)
    } else if !is_token_account_record(accts[0].data@) || !is_mint_record(accts[1].data@) {
        Err(TokenError::InvalidAccountData)
    } else {
        match burn_outcome(
            token_account_of(accts[0].data@),
            mint_of(accts[1].data@),
            accts[1].key,
            accts[2].key,
            accts[2].is_signer,
            amount,
        ) {
            Err(e) => Err(e),
            Ok((a, m)) => Ok(
                data_of(accts).update(0, token_account_bytes(a)).update(1, mint_bytes(m)),
            ),
        }
    }
}

/// Destroys `amount` tokens of the account and removes them from the supply.
pub fn process_burn(accounts: &mut Vec<AccountHandle>, amount: u64) -> (r: Result<
    (),
    TokenError,
>)
    ensures
        applied(old(accounts)@, final(accounts)@, burn_effect(old(accounts)@, amount), r),
{
    if accounts.len() < 3 {
        return Err(TokenError::NotEnoughAccountKeys);
    }
    let mut account = TokenAccount::unpack(accounts[0].data.as_slice())?;
    let mut mint = Mint::unpack(accounts[1].data.as_slice())?;
    proof {
        lemma_token_account_of(account, accounts@[0].data@);
        lemma_mint_of(mint, accounts@[1].data@);
    }
    let authority = accounts[2].key;
    let mint_key = accounts[1].key;
    burn(&mut account, &mut mint, &mint_key, &authority, accounts[2].is_signer, amount)?;
    write_data(accounts, 0, account.pack());
    write_data(accounts, 1, mint.pack());
    Ok(())
}

/// What `FreezeAccount` (`target` is `Frozen`) or `ThawAccount` (`target` is
/// `Initialized`) does to the buffers: token account (0), mint (1), freeze
/// authority (2).
pub open spec fn set_state_effect(accts: Seq<AccountHandle>, target: AccountState) -> Result<
    Seq<Seq<u8>>,
    TokenError,
> {
    if accts.len() < 3 {
        Err(TokenError::NotEnoughAccountKeys)
    } else if !is_token_account_record(accts[0].data@) || !is_mint_record(accts[1].data@) {
        Err(TokenError::InvalidAccountData)
    } else {
        match set_state_outcome(
            token_account_of(accts[0].data@),
            mint_of(accts[1].data@),
            accts[1].key,
            accts[2].key,
            accts[2].is_signer,
            target,
        ) {
            Err(e) => Err(e),
            Ok(a) => Ok(data_of(accts).update(0, token_account_bytes(a))),
        }
    }
}

/// Freezes the token account.
pub fn process_freeze_account(accounts: &mut Vec<AccountHandle>) -> (r: Result<
    (),
    TokenError,
>)
    ensures
        applied(
            old(accounts)@,
            final(accounts)@,
            set_state_effect(old(accounts)@, AccountState::Frozen),
            r,
        ),
{
    if accounts.len() < 3 {
        return Err(TokenError::NotEnoughAccountKeys);
    }
    let mut account = TokenAccount::unpack(accounts[0].data.as_slice())?;
    let mint = Mint::unpack(accounts[1].data.as_slice())?;
    proof {
        lemma_token_account_of(account, accounts@[0].data@);
        lemma_mint_of(mint, accounts@[1].data@);
    }
    let authority = accounts[2].key;
    let mint_key = accounts[1].key;
    freeze_account(&mut account, &mint, &mint_key, &authority, accounts[2].is_signer)?;
    write_data(accounts, 0, account.pack());
    Ok(())
}

/// Thaws the token account.
pub fn process_thaw_account(accounts: &mut Vec<AccountHandle>) -> (r: Result<(), TokenError>)
    ensures
        applied(
            old(accounts)@,
            final(accounts)@,
            set_state_effect(old(accounts)@, AccountState::Initialized),
            r,
        ),
{
    if accounts.len() < 3 {
        return Err(TokenError::NotEnoughAccountKeys);
    }
    let mut account = TokenAccount::unpack(accounts[0].data.as_slice())?;
    let mint = Mint::unpack(accounts[1].data.as_slice())?;
    proof {
        lemma_token_account_of(account, accounts@[0].data@);
        lemma_mint_of(mint, accounts@[1].data@);
    }
    let authority = accounts[2].key;
    let mint_key = accounts[1].key;
    thaw_account(&mut account, &mint, &mint_key, &authority, accounts[2].is_signer)?;
    write_data(accounts, 0, account.pack());
    Ok(())
}

/// What an instruction does to the buffers.
pub open spec fn instruction_effect(ix: TokenInstruction, accts: Seq<AccountHandle>) -> Result<
    Seq<Seq<u8>>,
    TokenError,
> {
    match ix {
        TokenInstruction::InitializeMint { decimals } => initialize_mint_effect(accts, decimals),
        TokenInstruction::InitializeAccount => initialize_account_effect(accts),
        TokenInstruction::MintTo { amount } => mint_to_effect(accts, amount),
        TokenInstruction::Transfer { amount } => transfer_effect(accts, amount),
        TokenInstruction::Approve { amount } => approve_effect(accts, amount),
        TokenInstruction::Revoke => revoke_effect(accts),
        TokenInstruction::Burn { amount } => burn_effect(accts, amount),
        TokenInstruction::FreezeAccount => set_state_effect(accts, AccountState::Frozen),
        TokenInstruction::ThawAccount => set_state_effect(accts, AccountState::Initialized),
    }
}

/// What a payload does to the buffers: a payload that does not decode is
/// refused before any account is read.
pub open spec fn payload_effect(data: Seq<u8>, accts: Seq<AccountHandle>) -> Result<
    Seq<Seq<u8>>,
    TokenError,
> {
    if !is_instruction(data) {
        Err(TokenError::InvalidInstructionData)
    } else {
        instruction_effect(instruction_of(data), accts)
    }
}

/// The instruction whose packed form is `b`.
pub open spec fn instruction_of(b: Seq<u8>) -> TokenInstruction {
    choose|ix: TokenInstruction| instruction_bytes(ix) == b
}

/// Decodes `instruction_data` and applies it to `accounts`.
///
/// The program id is accepted for the host's calling convention; the rules
/// do not depend on it.
pub fn process_instruction(
    program_id: &Pubkey,
    accounts: &mut Vec<AccountHandle>,
    instruction_data: &[u8],
) -> (r: Result<(), TokenError>)
    ensures
        applied(
            old(accounts)@,
            final(accounts)@,
            payload_effect(instruction_data@, old(accounts)@),
            r,
        ),
{
    let ix = TokenInstruction::unpack(instruction_data)?;
    proof {
        lemma_instruction_bytes_injective(instruction_of(instruction_data@), ix);
    }
    match ix {
        TokenInstruction::InitializeMint { decimals } => process_initialize_mint(accounts, decimals),
        TokenInstruction::InitializeAccount => process_initialize_account(accounts),
        TokenInstruction::MintTo { amount } => process_mint_to(accounts, amount),
        TokenInstruction::Transfer { amount } => process_transfer(accounts, amount),
        TokenInstruction::Approve { amount } => process_approve(accounts, amount),
        TokenInstruction::Revoke => process_revoke(accounts),
        TokenInstruction::Burn { amount } => process_burn(accounts, amount),
        TokenInstruction::FreezeAccount => process_freeze_account(accounts),
        TokenInstruction::ThawAccount => process_thaw_account(accounts),
    }
}

} // verus!
