//! The state-transition rules on decoded records.
//!
//! Each operation first decides, from its inputs alone, whether it applies;
//! only then does it write, so a refused operation leaves every record as it
//! was. The `*_outcome` spec functions state each rule: the refusal, or the
//! records that result.
//!
//! Policy choices:
//! - every operation that names a signing authority requires its signature,
//!   `burn`, `freeze` and `thaw` included;
//! - initialization never overwrites an initialized record, so a mint's
//!   supply and an account's mint, owner and balance cannot be reset;
//! - an `Uninitialized` account can take part in no transfer, mint, burn,
//!   freeze or thaw: only initialization leaves that state; nor can an
//!   uninitialized mint take part in a mint or a burn;
//! - a mint only credits, debits, freezes or thaws accounts that name it as
//!   their mint;
//! - `state == Frozen` is carried but not consulted by transfers, mints or
//!   burns;
//! - `approve` may grant more than the current balance (the allowance is
//!   enforced at spend time).

use vstd::prelude::*;

use crate::pubkey::Pubkey;
use crate::state::{AccountState, Mint, TokenAccount, TokenError};

verus! {

/// The stored authority is present and equals the claimed one.
pub open spec fn holds_authority(stored: Option<Pubkey>, claimed: Pubkey) -> bool {
    stored == Some(claimed)
}

/// What checking a signing authority against a stored one gives.
pub open spec fn authority_outcome(
    claimed: Pubkey,
    is_signer: bool,
    stored: Option<Pubkey>,
) -> Result<(), TokenError> {
    if !holds_authority(stored, claimed) {
        Err(TokenError::InvalidArgument)
    } else if !is_signer {
        Err(TokenError::MissingRequiredSignature)
    } else {
        Ok(())
    }
}

/// Checks that `claimed` is the stored authority and that it signed.
pub fn require_signer_authority(
    claimed: &Pubkey,
    is_signer: bool,
    stored: &Option<Pubkey>,
) -> (r: Result<(), TokenError>)
    ensures
        r == authority_outcome(*claimed, is_signer, *stored),
{
    let matches = match stored {
        Some(k) => *k == *claimed,
        None => false,
    };
    if !matches {
        return Err(TokenError::InvalidArgument);
    }
    if !is_signer {
        return Err(TokenError::MissingRequiredSignature);
    }
    Ok(())
}

/// The mint record that initialization produces over the record `current`.
pub open spec fn initialize_mint_outcome(
    current: Mint,
    decimals: u8,
    mint_authority: Pubkey,
    freeze_authority: Option<Pubkey>,
) -> Result<Mint, TokenError> {
    if current.is_initialized {
        Err(TokenError::AccountAlreadyInitialized)
    } else {
        Ok(
            Mint {
                mint_authority: Some(mint_authority),
                supply: 0,
                decimals,
                is_initialized: true,
                freeze_authority,
            },
        )
    }
}

/// Builds a fresh mint record in place of the uninitialized record `current`.
pub fn initialize_mint(
    current: &Mint,
    decimals: u8,
    mint_authority: Pubkey,
    freeze_authority: Option<Pubkey>,
) -> (r: Result<Mint, TokenError>)
    ensures
        r == initialize_mint_outcome(*current, decimals, mint_authority, freeze_authority),
{
    if current.is_initialized {
        return Err(TokenError::AccountAlreadyInitialized);
    }
    Ok(
        Mint {
            mint_authority: Some(mint_authority),
            supply: 0,
            decimals,
            is_initialized: true,
            freeze_authority,
        },
    )
}

/// The token-account record that initialization produces over the record
/// `current`.
pub open spec fn initialize_account_outcome(
    current: TokenAccount,
    mint: Mint,
    mint_key: Pubkey,
    owner: Pubkey,
) -> Result<TokenAccount, TokenError> {
    if current.state != AccountState::Uninitialized {
        Err(TokenError::AccountAlreadyInitialized)
    } else if !mint.is_initialized {
        Err(TokenError::UninitializedAccount)
    } else {
        Ok(
            TokenAccount {
                mint: mint_key,
                owner,
                amount: 0,
                delegate: None,
                state: AccountState::Initialized,
                is_native: None,
                delegated_amount: 0,
                close_authority: None,
            },
        )
    }
}

/// Builds a fresh, empty token account of the mint `mint` stored under
/// `mint_key`, in place of the uninitialized record `current`.
pub fn initialize_account(
    current: &TokenAccount,
    mint: &Mint,
    mint_key: Pubkey,
    owner: Pubkey,
) -> (r: Result<TokenAccount, TokenError>)
    ensures
        r == initialize_account_outcome(*current, *mint, mint_key, owner),
{
    if !blank(current) {
        return Err(TokenError::AccountAlreadyInitialized);
    }
    if !mint.is_initialized {
        return Err(TokenError::UninitializedAccount);
    }
    Ok(
        TokenAccount {
            mint: mint_key,
            owner,
            amount: 0,
            delegate: None,
            state: AccountState::Initialized,
            is_native: None,
            delegated_amount: 0,
            close_authority: None,
        },
    )
}

/// The account holds no initialized record.
pub open spec fn is_blank(a: TokenAccount) -> bool {
    a.state == AccountState::Uninitialized
}

fn blank(a: &TokenAccount) -> (r: bool)
    ensures
        r == is_blank(*a),
{
    match a.state {
        AccountState::Uninitialized => true,
        _ => false,
    }
}

/// The records after minting `amount` new tokens of the mint stored under
/// `mint_key` into `dest`.
pub open spec fn mint_to_outcome(
    mint: Mint,
    mint_key: Pubkey,
    dest: TokenAccount,
    authority: Pubkey,
    is_signer: bool,
    amount: u64,
) -> Result<(Mint, TokenAccount), TokenError> {
    if !mint.is_initialized || is_blank(dest) {
        Err(TokenError::UninitializedAccount)
    } else if dest.mint != mint_key {
        Err(TokenError::InvalidArgument)
    } else if authority_outcome(authority, is_signer, mint.mint_authority) is Err {
        Err(authority_outcome(authority, is_signer, mint.mint_authority)->Err_0)
    } else if mint.supply + amount > u64::MAX || dest.amount + amount > u64::MAX {
        Err(TokenError::ArithmeticOverflow)
    } else {
        Ok(
            (
                Mint { supply: (mint.supply + amount) as u64, ..mint },
                TokenAccount { amount: (dest.amount + amount) as u64, ..dest },
            ),
        )
    }
}

/// Mints `amount` tokens into `dest`, raising the supply by as much.
pub fn mint_to(
    mint: &mut Mint,
    mint_key: &Pubkey,
    dest: &mut TokenAccount,
    authority: &Pubkey,
    is_signer: bool,
    amount: u64,
) -> (r: Result<(), TokenError>)
    ensures
        match mint_to_outcome(*old(mint), *mint_key, *old(dest), *authority, is_signer, amount) {
            Ok((m, d)) => r is Ok && *final(mint) == m && *final(dest) == d,
            Err(e) => r == Err::<(), TokenError>(e) && *final(mint) == *old(mint) && *final(dest) == *old(dest),
        },
{
    if !mint.is_initialized || blank(dest) {
        return Err(TokenError::UninitializedAccount);
    }
    if dest.mint != *mint_key {
        return Err(TokenError::InvalidArgument);
    }
    require_signer_authority(authority, is_signer, &mint.mint_authority)?;
    let supply = match mint.supply.checked_add(amount) {
        Some(s) => s,
        None => return Err(TokenError::ArithmeticOverflow),
    };
    let balance = match dest.amount.checked_add(amount) {
        Some(b) => b,
        None => return Err(TokenError::ArithmeticOverflow),
    };
    mint.supply = supply;
    dest.amount = balance;
    Ok(())
}

/// The authority spends through the delegation rather than as owner.
pub open spec fn spends_as_delegate(source: TokenAccount, authority: Pubkey) -> bool {
    source.delegate == Some(authority)
}

/// The records after moving `amount` tokens from `source` to `dest`.
///
/// The authority is the owner or the delegate of `source`; when it is the
/// delegate, the allowance must cover `amount` and shrinks by it.
pub open spec fn transfer_outcome(
    source: TokenAccount,
    dest: TokenAccount,
    authority: Pubkey,
    is_signer: bool,
    amount: u64,
) -> Result<(TokenAccount, TokenAccount), TokenError> {
    let delegated = spends_as_delegate(source, authority);
    if is_blank(source) || is_blank(dest) {
        Err(TokenError::UninitializedAccount)
    } else if source.mint != dest.mint {
        Err(TokenError::InvalidArgument)
    } else if source.owner != authority && !delegated {
        Err(TokenError::InvalidArgument)
    } else if !is_signer {
        Err(TokenError::MissingRequiredSignature)
    } else if source.amount < amount {
        Err(TokenError::InsufficientFunds)
    } else if dest.amount + amount > u64::MAX {
        Err(TokenError::ArithmeticOverflow)
    } else if delegated && source.delegated_amount < amount {
        Err(TokenError::InsufficientFunds)
    } else {
        Ok(
            (
                TokenAccount {
                    amount: (source.amount - amount) as u64,
                    delegated_amount: if delegated {
                        (source.delegated_amount - amount) as u64
                    } else {
                        source.delegated_amount
                    },
                    ..source
                },
                TokenAccount { amount: (dest.amount + amount) as u64, ..dest },
            ),
        )
    }
}

/// Moves `amount` tokens from `source` to `dest`.
pub fn transfer(
    source: &mut TokenAccount,
    dest: &mut TokenAccount,
    authority: &Pubkey,
    is_signer: bool,
    amount: u64,
) -> (r: Result<(), TokenError>)
    ensures
        match transfer_outcome(*old(source), *old(dest), *authority, is_signer, amount) {
            Ok((s, d)) => r is Ok && *final(source) == s && *final(dest) == d,
            Err(e) => r == Err::<(), TokenError>(e) && *final(source) == *old(source) && *final(dest) == *old(dest),
        },
{
    if blank(source) || blank(dest) {
        return Err(TokenError::UninitializedAccount);
    }
    if source.mint != dest.mint {
        return Err(TokenError::InvalidArgument);
    }
    let is_owner = source.owner == *authority;
    let is_delegate = match &source.delegate {
        Some(d) => *d == *authority,
        None => false,
    };
    if !is_owner && !is_delegate {
        return Err(TokenError::InvalidArgument);
    }
    if !is_signer {
        return Err(TokenError::MissingRequiredSignature);
    }
    if source.amount < amount {
        return Err(TokenError::InsufficientFunds);
    }
    let source_balance = source.amount - amount;
    let dest_balance = match dest.amount.checked_add(amount) {
        Some(b) => b,
        None => return Err(TokenError::ArithmeticOverflow),
    };
    let allowance = if is_delegate {
        if source.delegated_amount < amount {
            return Err(TokenError::InsufficientFunds);
        }
        source.delegated_amount - amount
    } else {
        source.delegated_amount
    };
    source.amount = source_balance;
    source.delegated_amount = allowance;
    dest.amount = dest_balance;
    Ok(())
}

/// The account after its owner grants `delegate` an allowance of `amount`.
///
/// Any earlier delegation is replaced; the allowance may exceed the balance.
pub open spec fn approve_outcome(
    account: TokenAccount,
    delegate: Pubkey,
    owner: Pubkey,
    is_signer: bool,
    amount: u64,
) -> Result<TokenAccount, TokenError> {
    if authority_outcome(owner, is_signer, Some(account.owner)) is Err {
        Err(authority_outcome(owner, is_signer, Some(account.owner))->Err_0)
    } else {
        Ok(TokenAccount { delegate: Some(delegate), delegated_amount: amount, ..account })
    }
}

/// Lets `delegate` spend up to `amount` tokens of `account`.
pub fn approve(
    account: &mut TokenAccount,
    delegate: Pubkey,
    owner: &Pubkey,
    is_signer: bool,
    amount: u64,
) -> (r: Result<(), TokenError>)
    ensures
        match approve_outcome(*old(account), delegate, *owner, is_signer, amount) {
            Ok(a) => r is Ok && *final(account) == a,
            Err(e) => r == Err::<(), TokenError>(e) && *final(account) == *old(account),
        },
{
    require_signer_authority(owner, is_signer, &Some(account.owner))?;
    account.delegate = Some(delegate);
    account.delegated_amount = amount;
    Ok(())
}

/// The account after its owner withdraws any delegation.
pub open spec fn revoke_outcome(account: TokenAccount, owner: Pubkey, is_signer: bool) -> Result<
    TokenAccount,
    TokenError,
> {
    if authority_outcome(owner, is_signer, Some(account.owner)) is Err {
        Err(authority_outcome(owner, is_signer, Some(account.owner))->Err_0)
    } else {
        Ok(TokenAccount { delegate: None, delegated_amount: 0, ..account })
    }
}

/// Clears the delegate of `account` and its allowance.
pub fn revoke(account: &mut TokenAccount, owner: &Pubkey, is_signer: bool) -> (r: Result<
    (),
    TokenError,
>)
    ensures
        match revoke_outcome(*old(account), *owner, is_signer) {
            Ok(a) => r is Ok && *final(account) == a,
            Err(e) => r == Err::<(), TokenError>(e) && *final(account) == *old(account),
        },
{
    require_signer_authority(owner, is_signer, &Some(account.owner))?;
    account.delegate = None;
    account.delegated_amount = 0;
    Ok(())
}

/// The records after the owner of `account` destroys `amount` of its tokens
/// of the mint stored under `mint_key`.
pub open spec fn burn_outcome(
    account: TokenAccount,
    mint: Mint,
    mint_key: Pubkey,
    authority: Pubkey,
    is_signer: bool,
    amount: u64,
) -> Result<(TokenAccount, Mint), TokenError> {
    if !mint.is_initialized || is_blank(account) {
        Err(TokenError::UninitializedAccount)
    } else if account.mint != mint_key {
        Err(TokenError::InvalidArgument)
    } else if authority_outcome(authority, is_signer, Some(account.owner)) is Err {
        Err(authority_outcome(authority, is_signer, Some(account.owner))->Err_0)
    } else if account.amount < amount {
        Err(TokenError::InsufficientFunds)
    } else if mint.supply < amount {
        Err(TokenError::ArithmeticOverflow)
    } else {
        Ok(
            (
                TokenAccount { amount: (account.amount - amount) as u64, ..account },
                Mint { supply: (mint.supply - amount) as u64, ..mint },
            ),
        )
    }
}

/// Destroys `amount` tokens of `account`, lowering the supply by as much.
pub fn burn(
    account: &mut TokenAccount,
    mint: &mut Mint,
    mint_key: &Pubkey,
    authority: &Pubkey,
    is_signer: bool,
    amount: u64,
) -> (r: Result<(), TokenError>)
    ensures
        match burn_outcome(*old(account), *old(mint), *mint_key, *authority, is_signer, amount) {
            Ok((a, m)) => r is Ok && *final(account) == a && *final(mint) == m,
            Err(e) => r == Err::<(), TokenError>(e) && *final(account) == *old(account) && *final(mint) == *old(mint),
        },
{
    if !mint.is_initialized || blank(account) {
        return Err(TokenError::UninitializedAccount);
    }
    if account.mint != *mint_key {
        return Err(TokenError::InvalidArgument);
    }
    require_signer_authority(authority, is_signer, &Some(account.owner))?;
    if account.amount < amount {
        return Err(TokenError::InsufficientFunds);
    }
    let supply = match mint.supply.checked_sub(amount) {
        Some(s) => s,
        None => return Err(TokenError::ArithmeticOverflow),
    };
    account.amount = account.amount - amount;
    mint.supply = supply;
    Ok(())
}

/// The account after the freeze authority of the mint stored under
/// `mint_key` sets its state to `target`.
pub open spec fn set_state_outcome(
    account: TokenAccount,
    mint: Mint,
    mint_key: Pubkey,
    authority: Pubkey,
    is_signer: bool,
    target: AccountState,
) -> Result<TokenAccount, TokenError> {
    if is_blank(account) {
        Err(TokenError::UninitializedAccount)
    } else if account.mint != mint_key {
        Err(TokenError::InvalidArgument)
    } else if authority_outcome(authority, is_signer, mint.freeze_authority) is Err {
        Err(authority_outcome(authority, is_signer, mint.freeze_authority)->Err_0)
    } else {
        Ok(TokenAccount { state: target, ..account })
    }
}

/// Freezes `account`; only the freeze authority of `mint` may.
pub fn freeze_account(
    account: &mut TokenAccount,
    mint: &Mint,
    mint_key: &Pubkey,
    authority: &Pubkey,
    is_signer: bool,
) -> (r: Result<(), TokenError>)
    ensures
        match set_state_outcome(
            *old(account),
            *mint,
            *mint_key,
            *authority,
            is_signer,
            AccountState::Frozen,
        ) {
            Ok(a) => r is Ok && *final(account) == a,
            Err(e) => r == Err::<(), TokenError>(e) && *final(account) == *old(account),
        },
{
    if blank(account) {
        return Err(TokenError::UninitializedAccount);
    }
    if account.mint != *mint_key {
        return Err(TokenError::InvalidArgument);
    }
    require_signer_authority(authority, is_signer, &mint.freeze_authority)?;
    account.state = AccountState::Frozen;
    Ok(())
}

/// Thaws `account` back to `Initialized`; only the freeze authority of `mint` may.
pub fn thaw_account(
    account: &mut TokenAccount,
    mint: &Mint,
    mint_key: &Pubkey,
    authority: &Pubkey,
    is_signer: bool,
) -> (r: Result<(), TokenError>)
    ensures
        match set_state_outcome(
            *old(account),
            *mint,
            *mint_key,
            *authority,
            is_signer,
            AccountState::Initialized,
        ) {
            Ok(a) => r is Ok && *final(account) == a,
            Err(e) => r == Err::<(), TokenError>(e) && *final(account) == *old(account),
        },
{
    if blank(account) {
        return Err(TokenError::UninitializedAccount);
    }
    if account.mint != *mint_key {
        return Err(TokenError::InvalidArgument);
    }
    require_signer_authority(authority, is_signer, &mint.freeze_authority)?;
    account.state = AccountState::Initialized;
    Ok(())
}

} // verus!
