//! Laws of the ledger, proved over the rules of `ledger` and `processor`.

use vstd::prelude::*;

use crate::codec::{is_mint_record, is_token_account_record};
use crate::ledger::{
    approve_outcome, burn_outcome, initialize_account_outcome, initialize_mint_outcome, is_blank,
    mint_to_outcome, revoke_outcome, set_state_outcome, transfer_outcome,
};
use crate::codec::{
    lemma_mint_bytes_wf, lemma_token_account_bytes_wf, mint_bytes, token_account_bytes,
};
use crate::processor::{
    approve_effect, burn_effect, data_of, initialize_account_effect, initialize_mint_effect,
    instruction_of, lemma_mint_of, lemma_token_account_of, mint_of, mint_to_effect, payload_effect,
    revoke_effect, set_state_effect, token_account_of, transfer_effect, AccountHandle,
};
use crate::pubkey::Pubkey;
use crate::state::{AccountState, Mint, TokenAccount, TokenError, TokenInstruction};

verus! {

/// What `a` holds of the tokens of the mint stored under `k`.
pub open spec fn held_by(a: TokenAccount, k: Pubkey) -> int {
    if a.mint == k {
        a.amount as int
    } else {
        0
    }
}

/// The sum of the balances that the accounts of `accts` hold of the tokens
/// of the mint stored under `k`.
pub open spec fn total(accts: Seq<TokenAccount>, k: Pubkey) -> int
    decreases accts.len(),
{
    if accts.len() == 0 {
        0
    } else {
        total(accts.drop_last(), k) + held_by(accts.last(), k)
    }
}

/// Replacing one account changes the sum by the change of what it holds.
pub proof fn lemma_total_update(accts: Seq<TokenAccount>, k: Pubkey, i: int, a: TokenAccount)
    requires
        0 <= i < accts.len(),
    ensures
        total(accts.update(i, a), k) == total(accts, k) - held_by(accts[i], k) + held_by(a, k),
    decreases accts.len(),
{
    let u = accts.update(i, a);
    if i == accts.len() - 1 {
        assert(u.drop_last() =~= accts.drop_last());
    } else {
        lemma_total_update(accts.drop_last(), k, i, a);
        assert(u.drop_last() =~= accts.drop_last().update(i, a));
    }
}

/// An operation that moves or changes the supply of a mint's tokens,
/// naming the accounts it touches by their position.
pub enum SupplyOp {
    MintTo { dest: usize, authority: Pubkey, is_signer: bool, amount: u64 },
    Transfer { source: usize, dest: usize, authority: Pubkey, is_signer: bool, amount: u64 },
    Burn { account: usize, authority: Pubkey, is_signer: bool, amount: u64 },
}

/// The mint stored under `mint_key` and the accounts after `op`, or `None`
/// when `op` is refused.
pub open spec fn step(mint_key: Pubkey, mint: Mint, accts: Seq<TokenAccount>, op: SupplyOp) -> Option<
    (Mint, Seq<TokenAccount>),
> {
    match op {
        SupplyOp::MintTo { dest, authority, is_signer, amount } => {
            if dest < accts.len() {
                match mint_to_outcome(mint, mint_key, accts[dest as int], authority, is_signer, amount) {
                    Ok((m, d)) => Some((m, accts.update(dest as int, d))),
                    Err(_) => None,
                }
            } else {
                None
            }
        },
        SupplyOp::Transfer { source, dest, authority, is_signer, amount } => {
            if source < accts.len() && dest < accts.len() && source != dest {
                match transfer_outcome(
                    accts[source as int],
                    accts[dest as int],
                    authority,
                    is_signer,
                    amount,
                ) {
                    Ok((s, d)) => Some(
                        (mint, accts.update(source as int, s).update(dest as int, d)),
                    ),
                    Err(_) => None,
                }
            } else {
                None
            }
        },
        SupplyOp::Burn { account, authority, is_signer, amount } => {
            if account < accts.len() {
                match burn_outcome(accts[account as int], mint, mint_key, authority, is_signer, amount) {
                    Ok((a, m)) => Some((m, accts.update(account as int, a))),
                    Err(_) => None,
                }
            } else {
                None
            }
        },
    }
}

/// The mint and its accounts after applying `ops` in order, or `None` when
/// one of them is refused.
pub open spec fn run(
    mint_key: Pubkey,
    mint: Mint,
    accts: Seq<TokenAccount>,
    ops: Seq<SupplyOp>,
) -> Option<
    (Mint, Seq<TokenAccount>),
>
    decreases ops.len(),
{
    if ops.len() == 0 {
        Some((mint, accts))
    } else {
        match step(mint_key, mint, accts, ops[0]) {
            Some((m, a)) => run(mint_key, m, a, ops.drop_first()),
            None => None,
        }
    }
}

/// One successful mint, transfer or burn keeps the supply equal to the sum
/// of the balances of the mint's tokens.
pub proof fn lemma_step_conserves_supply(
    mint_key: Pubkey,
    mint: Mint,
    accts: Seq<TokenAccount>,
    op: SupplyOp,
)
    requires
        mint.supply == total(accts, mint_key),
        step(mint_key, mint, accts, op) is Some,
    ensures
        step(mint_key, mint, accts, op)->Some_0.0.supply == total(
            step(mint_key, mint, accts, op)->Some_0.1,
            mint_key,
        ),
{
    match op {
        SupplyOp::MintTo { dest, authority, is_signer, amount } => {
            let (m, d) = mint_to_outcome(
                mint,
                mint_key,
                accts[dest as int],
                authority,
                is_signer,
                amount,
            )->Ok_0;
            lemma_total_update(accts, mint_key, dest as int, d);
        },
        SupplyOp::Transfer { source, dest, authority, is_signer, amount } => {
            let (s, d) = transfer_outcome(
                accts[source as int],
                accts[dest as int],
                authority,
                is_signer,
                amount,
            )->Ok_0;
            lemma_total_update(accts, mint_key, source as int, s);
            lemma_total_update(accts.update(source as int, s), mint_key, dest as int, d);
        },
        SupplyOp::Burn { account, authority, is_signer, amount } => {
            let (a, m) = burn_outcome(
                accts[account as int],
                mint,
                mint_key,
                authority,
                is_signer,
                amount,
            )->Ok_0;
            lemma_total_update(accts, mint_key, account as int, a);
        },
    }
}

/// Conservation: after any sequence of successful mints, transfers and burns
/// on a set of accounts, the supply of the mint stored under `mint_key` still
/// equals the sum of what the accounts hold of its tokens (every prefix of
/// the sequence is such a sequence too).
pub proof fn lemma_supply_conserved(
    mint_key: Pubkey,
    mint: Mint,
    accts: Seq<TokenAccount>,
    ops: Seq<SupplyOp>,
)
    requires
        mint.supply == total(accts, mint_key),
        run(mint_key, mint, accts, ops) is Some,
    ensures
        run(mint_key, mint, accts, ops)->Some_0.0.supply == total(
            run(mint_key, mint, accts, ops)->Some_0.1,
            mint_key,
        ),
    decreases ops.len(),
{
    if ops.len() > 0 {
        lemma_step_conserves_supply(mint_key, mint, accts, ops[0]);
        let (m, a) = step(mint_key, mint, accts, ops[0])->Some_0;
        lemma_supply_conserved(mint_key, m, a, ops.drop_first());
    }
}

/// A transfer of more than the source holds, by its owner or delegate with a
/// signature, between accounts of one mint, is refused with
/// `InsufficientFunds` (so no buffer changes).
pub proof fn lemma_transfer_over_balance(accts: Seq<AccountHandle>, amount: u64)
    requires
        accts.len() >= 3,
        accts[0].key != accts[1].key,
        !is_blank(token_account_of(accts[0].data@)),
        !is_blank(token_account_of(accts[1].data@)),
        is_token_account_record(accts[0].data@),
        is_token_account_record(accts[1].data@),
        token_account_of(accts[0].data@).mint == token_account_of(accts[1].data@).mint,
        token_account_of(accts[0].data@).owner == accts[2].key || token_account_of(
            accts[0].data@,
        ).delegate == Some(accts[2].key),
        accts[2].is_signer,
        token_account_of(accts[0].data@).amount < amount,
    ensures
        transfer_effect(accts, amount) == Err::<Seq<Seq<u8>>, TokenError>(
            TokenError::InsufficientFunds,
        ),
{
}

/// A delegate's transfer of more than its allowance (but within the balance,
/// and without overflowing the destination) is refused with
/// `InsufficientFunds` (so no buffer changes).
pub proof fn lemma_transfer_over_allowance(accts: Seq<AccountHandle>, amount: u64)
    requires
        accts.len() >= 3,
        accts[0].key != accts[1].key,
        !is_blank(token_account_of(accts[0].data@)),
        !is_blank(token_account_of(accts[1].data@)),
        is_token_account_record(accts[0].data@),
        is_token_account_record(accts[1].data@),
        token_account_of(accts[0].data@).mint == token_account_of(accts[1].data@).mint,
        token_account_of(accts[0].data@).delegate == Some(accts[2].key),
        accts[2].is_signer,
        amount <= token_account_of(accts[0].data@).amount,
        token_account_of(accts[1].data@).amount + amount <= u64::MAX,
        token_account_of(accts[0].data@).delegated_amount < amount,
    ensures
        transfer_effect(accts, amount) == Err::<Seq<Seq<u8>>, TokenError>(
            TokenError::InsufficientFunds,
        ),
{
}

/// A burn of more than the account holds, by its signing owner, is refused
/// with `InsufficientFunds` (so no buffer changes).
pub proof fn lemma_burn_over_balance(accts: Seq<AccountHandle>, amount: u64)
    requires
        accts.len() >= 3,
        !is_blank(token_account_of(accts[0].data@)),
        token_account_of(accts[0].data@).mint == accts[1].key,
        is_token_account_record(accts[0].data@),
        is_mint_record(accts[1].data@),
        mint_of(accts[1].data@).is_initialized,
        token_account_of(accts[0].data@).owner == accts[2].key,
        accts[2].is_signer,
        token_account_of(accts[0].data@).amount < amount,
    ensures
        burn_effect(accts, amount) == Err::<Seq<Seq<u8>>, TokenError>(
            TokenError::InsufficientFunds,
        ),
{
}

/// Overflow safety: a signed mint by the mint authority, into an
/// initialized account of that mint, that would carry the supply past `u64::MAX` is refused with `ArithmeticOverflow` (so neither
/// the mint nor the destination changes).
pub proof fn lemma_mint_to_overflow(accts: Seq<AccountHandle>, amount: u64)
    requires
        accts.len() >= 3,
        !is_blank(token_account_of(accts[1].data@)),
        token_account_of(accts[1].data@).mint == accts[0].key,
        is_mint_record(accts[0].data@),
        is_token_account_record(accts[1].data@),
        mint_of(accts[0].data@).is_initialized,
        mint_of(accts[0].data@).mint_authority == Some(accts[2].key),
        accts[2].is_signer,
        mint_of(accts[0].data@).supply + amount > u64::MAX,
    ensures
        mint_to_effect(accts, amount) == Err::<Seq<Seq<u8>>, TokenError>(
            TokenError::ArithmeticOverflow,
        ),
{
}

/// Authorization gating: a transfer whose authority is neither the owner nor
/// the delegate of the source is refused, signed or not (so no buffer
/// changes).
pub proof fn lemma_transfer_needs_owner_or_delegate(accts: Seq<AccountHandle>, amount: u64)
    requires
        accts.len() >= 3,
        is_token_account_record(accts[0].data@) ==> token_account_of(accts[0].data@).owner
            != accts[2].key && token_account_of(accts[0].data@).delegate != Some(accts[2].key),
    ensures
        transfer_effect(accts, amount) is Err,
{
}

/// Delegated spend: once the signing owner approves `delegate` for
/// `allowance`, a signed transfer of `x` by the delegate, within the
/// allowance and the balance, to an account of the same mint that can take
/// it, succeeds; it lowers the allowance and the balance by `x` and raises
/// the destination by `x`.
pub proof fn lemma_delegated_spend(
    account: TokenAccount,
    dest: TokenAccount,
    delegate: Pubkey,
    allowance: u64,
    x: u64,
)
    requires
        !is_blank(account),
        !is_blank(dest),
        account.mint == dest.mint,
        x <= allowance,
        x <= account.amount,
        dest.amount + x <= u64::MAX,
    ensures
        approve_outcome(account, delegate, account.owner, true, allowance) is Ok,
        transfer_outcome(
            approve_outcome(account, delegate, account.owner, true, allowance)->Ok_0,
            dest,
            delegate,
            true,
            x,
        ) is Ok,
        ({
            let approved = approve_outcome(account, delegate, account.owner, true, allowance)->Ok_0;
            let (s, d) = transfer_outcome(approved, dest, delegate, true, x)->Ok_0;
            &&& s.delegated_amount == allowance - x
            &&& s.amount == account.amount - x
            &&& d.amount == dest.amount + x
        }),
{
}

/// What the buffer `b` holds of the tokens of the mint stored under `k`:
/// the balance of an initialized token account of that mint, else nothing.
pub open spec fn buffer_held(b: Seq<u8>, k: Pubkey) -> int {
    if is_token_account_record(b) && !is_blank(token_account_of(b)) {
        held_by(token_account_of(b), k)
    } else {
        0
    }
}

/// The supply that the buffer `b` of the account stored under `key` records
/// for the mint stored under `k`: that of an initialized mint, else nothing.
pub open spec fn buffer_supply(key: Pubkey, b: Seq<u8>, k: Pubkey) -> int {
    if key == k && is_mint_record(b) && mint_of(b).is_initialized {
        mint_of(b).supply as int
    } else {
        0
    }
}

/// Supply recorded for the mint stored under `k`, less the balances held of
/// its tokens, over the first `n` of the accounts `accts` with buffers `data`.
pub open spec fn unbacked(accts: Seq<AccountHandle>, data: Seq<Seq<u8>>, k: Pubkey, n: int) -> int
    decreases n,
{
    if n <= 0 {
        0
    } else {
        unbacked(accts, data, k, n - 1) + buffer_supply(accts[n - 1].key, data[n - 1], k)
            - buffer_held(data[n - 1], k)
    }
}

proof fn lemma_unbacked_update(
    accts: Seq<AccountHandle>,
    data: Seq<Seq<u8>>,
    k: Pubkey,
    n: int,
    i: int,
    b: Seq<u8>,
)
    requires
        0 <= i < n <= data.len(),
    ensures
        unbacked(accts, data.update(i, b), k, n) == unbacked(accts, data, k, n) - (buffer_supply(
            accts[i].key,
            data[i],
            k,
        ) - buffer_held(data[i], k)) + (buffer_supply(accts[i].key, b, k) - buffer_held(b, k)),
    decreases n,
{
    if i < n - 1 {
        lemma_unbacked_update(accts, data, k, n - 1, i, b);
    } else {
        lemma_unbacked_frame(accts, data, data.update(i, b), k, n - 1);
    }
}

proof fn lemma_unbacked_frame(
    accts: Seq<AccountHandle>,
    d1: Seq<Seq<u8>>,
    d2: Seq<Seq<u8>>,
    k: Pubkey,
    n: int,
)
    requires
        0 <= n <= d1.len(),
        n <= d2.len(),
        forall|j: int| 0 <= j < n ==> d1[j] == d2[j],
    ensures
        unbacked(accts, d1, k, n) == unbacked(accts, d2, k, n),
    decreases n,
{
    if n > 0 {
        lemma_unbacked_frame(accts, d1, d2, k, n - 1);
    }
}

/// Conservation at the dispatcher, for a mint, a transfer or a burn: a
/// successful one leaves, for every mint, the supply recorded in the passed
/// accounts less the balances they hold of its tokens as it was. Accounts not
/// passed do not change, so a ledger in which every initialized mint's supply
/// equals the balances held of its tokens keeps that after the instruction.
pub proof fn lemma_supply_ops_conserve(accts: Seq<AccountHandle>, amount: u64, k: Pubkey)
    ensures
        mint_to_effect(accts, amount) is Ok ==> unbacked(
            accts,
            mint_to_effect(accts, amount)->Ok_0,
            k,
            accts.len() as int,
        ) == unbacked(accts, data_of(accts), k, accts.len() as int),
        transfer_effect(accts, amount) is Ok ==> unbacked(
            accts,
            transfer_effect(accts, amount)->Ok_0,
            k,
            accts.len() as int,
        ) == unbacked(accts, data_of(accts), k, accts.len() as int),
        burn_effect(accts, amount) is Ok ==> unbacked(
            accts,
            burn_effect(accts, amount)->Ok_0,
            k,
            accts.len() as int,
        ) == unbacked(accts, data_of(accts), k, accts.len() as int),
{
    let n = accts.len() as int;
    let d = data_of(accts);
    if mint_to_effect(accts, amount) is Ok {
        let (m, t) = mint_to_outcome(
            mint_of(accts[0].data@),
            accts[0].key,
            token_account_of(accts[1].data@),
            accts[2].key,
            accts[2].is_signer,
            amount,
        )->Ok_0;
        let b0 = mint_bytes(m);
        let b1 = token_account_bytes(t);
        lemma_mint_bytes_wf(m);
        lemma_token_account_bytes_wf(t);
        lemma_mint_of(m, b0);
        lemma_token_account_of(t, b1);
        lemma_unbacked_update(accts, d, k, n, 0, b0);
        lemma_unbacked_update(accts, d.update(0, b0), k, n, 1, b1);
    }
    if transfer_effect(accts, amount) is Ok {
        let (s, t) = transfer_outcome(
            token_account_of(accts[0].data@),
            token_account_of(accts[1].data@),
            accts[2].key,
            accts[2].is_signer,
            amount,
        )->Ok_0;
        let b0 = token_account_bytes(s);
        let b1 = token_account_bytes(t);
        lemma_token_account_bytes_wf(s);
        lemma_token_account_bytes_wf(t);
        lemma_token_account_of(s, b0);
        lemma_token_account_of(t, b1);
        lemma_unbacked_update(accts, d, k, n, 0, b0);
        lemma_unbacked_update(accts, d.update(0, b0), k, n, 1, b1);
    }
    if burn_effect(accts, amount) is Ok {
        let (a, m) = burn_outcome(
            token_account_of(accts[0].data@),
            mint_of(accts[1].data@),
            accts[1].key,
            accts[2].key,
            accts[2].is_signer,
            amount,
        )->Ok_0;
        let b0 = token_account_bytes(a);
        let b1 = mint_bytes(m);
        lemma_token_account_bytes_wf(a);
        lemma_mint_bytes_wf(m);
        lemma_token_account_of(a, b0);
        lemma_mint_of(m, b1);
        lemma_unbacked_update(accts, d, k, n, 0, b0);
        lemma_unbacked_update(accts, d.update(0, b0), k, n, 1, b1);
    }
}

/// Initializing, approving, revoking, freezing and thawing change no supply
/// and no balance held of any mint's tokens.
pub proof fn lemma_bookkeeping_ops_conserve(
    accts: Seq<AccountHandle>,
    decimals: u8,
    amount: u64,
    target: AccountState,
    k: Pubkey,
)
    requires
        target != AccountState::Uninitialized,
    ensures
        initialize_mint_effect(accts, decimals) is Ok ==> unbacked(
            accts,
            initialize_mint_effect(accts, decimals)->Ok_0,
            k,
            accts.len() as int,
        ) == unbacked(accts, data_of(accts), k, accts.len() as int),
        initialize_account_effect(accts) is Ok ==> unbacked(
            accts,
            initialize_account_effect(accts)->Ok_0,
            k,
            accts.len() as int,
        ) == unbacked(accts, data_of(accts), k, accts.len() as int),
        approve_effect(accts, amount) is Ok ==> unbacked(
            accts,
            approve_effect(accts, amount)->Ok_0,
            k,
            accts.len() as int,
        ) == unbacked(accts, data_of(accts), k, accts.len() as int),
        revoke_effect(accts) is Ok ==> unbacked(
            accts,
            revoke_effect(accts)->Ok_0,
            k,
            accts.len() as int,
        ) == unbacked(accts, data_of(accts), k, accts.len() as int),
        set_state_effect(accts, target) is Ok ==> unbacked(
            accts,
            set_state_effect(accts, target)->Ok_0,
            k,
            accts.len() as int,
        ) == unbacked(accts, data_of(accts), k, accts.len() as int),
{
    let n = accts.len() as int;
    let d = data_of(accts);
    if initialize_mint_effect(accts, decimals) is Ok {
        let m = initialize_mint_outcome(
            mint_of(accts[0].data@),
            decimals,
            accts[1].key,
            if accts.len() > 2 {
                Some(accts[2].key)
            } else {
                None
            },
        )->Ok_0;
        lemma_mint_bytes_wf(m);
        lemma_mint_of(m, mint_bytes(m));
        lemma_unbacked_update(accts, d, k, n, 0, mint_bytes(m));
    }
    if initialize_account_effect(accts) is Ok {
        let a = initialize_account_outcome(
            token_account_of(accts[0].data@),
            mint_of(accts[1].data@),
            accts[1].key,
            accts[2].key,
        )->Ok_0;
        lemma_token_account_bytes_wf(a);
        lemma_token_account_of(a, token_account_bytes(a));
        lemma_unbacked_update(accts, d, k, n, 0, token_account_bytes(a));
    }
    if approve_effect(accts, amount) is Ok {
        let a = approve_outcome(
            token_account_of(accts[0].data@),
            accts[1].key,
            accts[2].key,
            accts[2].is_signer,
            amount,
        )->Ok_0;
        lemma_token_account_bytes_wf(a);
        lemma_token_account_of(a, token_account_bytes(a));
        lemma_unbacked_update(accts, d, k, n, 0, token_account_bytes(a));
    }
    if revoke_effect(accts) is Ok {
        let a = revoke_outcome(
            token_account_of(accts[0].data@),
            accts[1].key,
            accts[1].is_signer,
        )->Ok_0;
        lemma_token_account_bytes_wf(a);
        lemma_token_account_of(a, token_account_bytes(a));
        lemma_unbacked_update(accts, d, k, n, 0, token_account_bytes(a));
    }
    if set_state_effect(accts, target) is Ok {
        let a = set_state_outcome(
            token_account_of(accts[0].data@),
            mint_of(accts[1].data@),
            accts[1].key,
            accts[2].key,
            accts[2].is_signer,
            target,
        )->Ok_0;
        lemma_token_account_bytes_wf(a);
        lemma_token_account_of(a, token_account_bytes(a));
        lemma_unbacked_update(accts, d, k, n, 0, token_account_bytes(a));
    }
}

/// Conservation at the dispatcher: whatever the payload, a successful
/// `process_instruction` leaves, for every mint, the supply recorded in the
/// passed accounts less the balances they hold of its tokens as it was; so a
/// ledger in which each initialized mint's supply equals the balances held of
/// its tokens keeps that after every successful instruction.
pub proof fn lemma_instruction_conserves_supply(
    accts: Seq<AccountHandle>,
    payload: Seq<u8>,
    k: Pubkey,
)
    ensures
        payload_effect(payload, accts) is Ok ==> unbacked(
            accts,
            payload_effect(payload, accts)->Ok_0,
            k,
            accts.len() as int,
        ) == unbacked(accts, data_of(accts), k, accts.len() as int),
{
    if payload_effect(payload, accts) is Ok {
        match instruction_of(payload) {
            TokenInstruction::InitializeMint { decimals } => {
                lemma_bookkeeping_ops_conserve(accts, decimals, 0, AccountState::Frozen, k);
            },
            TokenInstruction::InitializeAccount => {
                lemma_bookkeeping_ops_conserve(accts, 0, 0, AccountState::Frozen, k);
            },
            TokenInstruction::MintTo { amount } => {
                lemma_supply_ops_conserve(accts, amount, k);
            },
            TokenInstruction::Transfer { amount } => {
                lemma_supply_ops_conserve(accts, amount, k);
            },
            TokenInstruction::Approve { amount } => {
                lemma_bookkeeping_ops_conserve(accts, 0, amount, AccountState::Frozen, k);
            },
            TokenInstruction::Revoke => {
                lemma_bookkeeping_ops_conserve(accts, 0, 0, AccountState::Frozen, k);
            },
            TokenInstruction::Burn { amount } => {
                lemma_supply_ops_conserve(accts, amount, k);
            },
            TokenInstruction::FreezeAccount => {
                lemma_bookkeeping_ops_conserve(accts, 0, 0, AccountState::Frozen, k);
            },
            TokenInstruction::ThawAccount => {
                lemma_bookkeeping_ops_conserve(accts, 0, 0, AccountState::Initialized, k);
            },
        }
    }
}

} // verus!
