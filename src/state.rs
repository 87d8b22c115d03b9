//! The ledger's records, its errors and the instruction set.

use vstd::prelude::*;

use crate::pubkey::Pubkey;

verus! {

/// A token's global parameters.
#[derive(Clone, Copy, Debug, PartialEq, Eq)]
pub struct Mint {
    /// May mint new supply; `None` once minting is disabled for good.
    pub mint_authority: Option<Pubkey>,
    /// Total tokens in circulation.
    pub supply: u64,
    /// Display scaling factor; the ledger never reads it.
    pub decimals: u8,
    /// Guards against operating on an unformatted record.
    pub is_initialized: bool,
    /// May freeze and thaw accounts of this mint.
    pub freeze_authority: Option<Pubkey>,
}

impl Mint {
    /// Size of a packed mint record in bytes.
    pub const LEN: usize = 82;
}

/// Eligibility state of a token account.
#[derive(Clone, Copy, Debug, PartialEq, Eq, Structural)]
pub enum AccountState {
    Uninitialized,
    Initialized,
    Frozen,
}

/// A balance record bound to one mint and one owner.
#[derive(Clone, Copy, Debug, PartialEq, Eq)]
pub struct TokenAccount {
    /// The mint whose tokens this account holds.
    pub mint: Pubkey,
    /// The key that may spend, approve, revoke and burn.
    pub owner: Pubkey,
    /// Spendable balance.
    pub amount: u64,
    /// A third party allowed to spend up to `delegated_amount`.
    pub delegate: Option<Pubkey>,
    pub state: AccountState,
    /// Carried along; no operation changes it.
    pub is_native: Option<u64>,
    pub delegated_amount: u64,
    /// Carried along; no operation changes it.
    pub close_authority: Option<Pubkey>,
}

impl TokenAccount {
    /// Size of a packed token-account record in bytes.
    pub const LEN: usize = 165;
}

/// Why an instruction was refused. A refused instruction writes nothing.
#[derive(Clone, Copy, Debug, PartialEq, Eq, Structural)]
pub enum TokenError {
    /// Fewer accounts were supplied than the instruction reads.
    NotEnoughAccountKeys,
    /// The instruction payload does not decode.
    InvalidInstructionData,
    /// A record has the wrong size or does not decode.
    InvalidAccountData,
    /// A record that must be initialized is not.
    UninitializedAccount,
    /// A record that initialization would overwrite is already initialized.
    AccountAlreadyInitialized,
    /// An authority does not match, or the accounts do not belong together.
    InvalidArgument,
    /// The authority did not sign.
    MissingRequiredSignature,
    /// A balance or an allowance is too small.
    InsufficientFunds,
    /// A checked addition or subtraction went out of range.
    ArithmeticOverflow,
}

/// One operation of the ledger, with its arguments.
#[derive(Clone, Copy, Debug, PartialEq, Eq, Structural)]
pub enum TokenInstruction {
    /// Accounts: mint (writable), mint authority, freeze authority (optional).
    InitializeMint { decimals: u8 },
    /// Accounts: token account (writable), mint, owner.
    InitializeAccount,
    /// Accounts: mint (writable), destination (writable), mint authority (signer).
    MintTo { amount: u64 },
    /// Accounts: source (writable), destination (writable), owner or delegate (signer).
    Transfer { amount: u64 },
    /// Accounts: token account (writable), delegate, owner (signer).
    Approve { amount: u64 },
    /// Accounts: token account (writable), owner (signer).
    Revoke,
    /// Accounts: token account (writable), mint (writable), owner (signer).
    Burn { amount: u64 },
    /// Accounts: token account (writable), mint, freeze authority (signer).
    FreezeAccount,
    /// Accounts: token account (writable), mint, freeze authority (signer).
    ThawAccount,
}

} // verus!
