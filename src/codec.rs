//! The fixed-size binary layouts of the two record kinds.
//!
//! A `Mint` packs into 82 bytes and a `TokenAccount` into 165. Integers are
//! little-endian; a `bool` is one byte, 0 or 1; an optional field is a
//! four-byte tag (1 for present, 0 for absent) followed by its payload, which
//! is all zero when absent. Unpacking accepts exactly the byte strings that
//! packing can produce, so the two are inverse to each other.

use vstd::bytes::{
    lemma_auto_spec_u64_to_from_le_bytes, spec_u64_from_le_bytes, spec_u64_to_le_bytes,
    u64_from_le_bytes, u64_to_le_bytes,
};
use vstd::prelude::*;

use crate::pubkey::Pubkey;
use crate::state::{AccountState, Mint, TokenAccount, TokenError};

verus! {

/// `n` zero bytes.
pub open spec fn zeros(n: nat) -> Seq<u8> {
    Seq::new(n, |_i: int| 0u8)
}

/// The tag of an absent optional field.
pub open spec fn absent_tag() -> Seq<u8> {
    seq![0u8, 0u8, 0u8, 0u8]
}

/// The tag of a present optional field.
pub open spec fn present_tag() -> Seq<u8> {
    seq![1u8, 0u8, 0u8, 0u8]
}

/// An optional key: tag, then the key or 32 zero bytes.
pub open spec fn option_key_bytes(o: Option<Pubkey>) -> Seq<u8> {
    match o {
        None => absent_tag() + zeros(32),
        Some(k) => present_tag() + k.0@,
    }
}

/// An optional integer: tag, then the integer or 8 zero bytes.
pub open spec fn option_u64_bytes(o: Option<u64>) -> Seq<u8> {
    match o {
        None => absent_tag() + zeros(8),
        Some(v) => present_tag() + spec_u64_to_le_bytes(v),
    }
}

pub open spec fn bool_byte(b: bool) -> u8 {
    if b {
        1u8
    } else {
        0u8
    }
}

pub open spec fn state_byte(s: AccountState) -> u8 {
    match s {
        AccountState::Uninitialized => 0u8,
        AccountState::Initialized => 1u8,
        AccountState::Frozen => 2u8,
    }
}

/// The packed form of a mint record.
pub open spec fn mint_bytes(m: Mint) -> Seq<u8> {
    option_key_bytes(m.mint_authority) + spec_u64_to_le_bytes(m.supply) + seq![
        m.decimals,
        bool_byte(m.is_initialized),
    ] + option_key_bytes(m.freeze_authority)
}

/// The packed form of a token-account record.
pub open spec fn token_account_bytes(a: TokenAccount) -> Seq<u8> {
    a.mint.0@ + a.owner.0@ + spec_u64_to_le_bytes(a.amount) + option_key_bytes(a.delegate) + seq![
        state_byte(a.state),
    ] + option_u64_bytes(a.is_native) + spec_u64_to_le_bytes(a.delegated_amount)
        + option_key_bytes(a.close_authority)
}

/// `b` is a well-formed optional field with a payload of `n` bytes.
pub open spec fn option_field_ok(b: Seq<u8>, n: nat) -> bool {
    &&& b.len() == 4 + n
    &&& (b.subrange(0, 4) == present_tag() || (b.subrange(0, 4) == absent_tag() && b.subrange(
        4,
        4 + n as int,
    ) == zeros(n)))
}

/// `b` is the packed form of some mint record.
pub open spec fn is_mint_record(b: Seq<u8>) -> bool {
    &&& b.len() == 82
    &&& option_field_ok(b.subrange(0, 36), 32)
    &&& b[45] <= 1
    &&& option_field_ok(b.subrange(46, 82), 32)
}

/// `b` is the packed form of some token-account record.
pub open spec fn is_token_account_record(b: Seq<u8>) -> bool {
    &&& b.len() == 165
    &&& option_field_ok(b.subrange(72, 108), 32)
    &&& b[108] <= 2
    &&& option_field_ok(b.subrange(109, 121), 8)
    &&& option_field_ok(b.subrange(129, 165), 32)
}

proof fn lemma_option_key_bytes(o: Option<Pubkey>)
    ensures
        option_field_ok(option_key_bytes(o), 32),
{
    let b = option_key_bytes(o);
    match o {
        None => {
            assert(b.subrange(0, 4) =~= absent_tag());
            assert(b.subrange(4, 36) =~= zeros(32));
        },
        Some(k) => {
            assert(b.subrange(0, 4) =~= present_tag());
        },
    }
}

proof fn lemma_option_u64_bytes(o: Option<u64>)
    ensures
        option_field_ok(option_u64_bytes(o), 8),
{
    lemma_auto_spec_u64_to_from_le_bytes();
    let b = option_u64_bytes(o);
    match o {
        None => {
            assert(b.subrange(0, 4) =~= absent_tag());
            assert(b.subrange(4, 12) =~= zeros(8));
        },
        Some(v) => {
            assert(b.subrange(0, 4) =~= present_tag());
        },
    }
}

/// Every packed mint is well formed.
pub proof fn lemma_mint_bytes_wf(m: Mint)
    ensures
        is_mint_record(mint_bytes(m)),
{
    lemma_auto_spec_u64_to_from_le_bytes();
    lemma_option_key_bytes(m.mint_authority);
    lemma_option_key_bytes(m.freeze_authority);
    let b = mint_bytes(m);
    assert(b.subrange(0, 36) =~= option_key_bytes(m.mint_authority));
    assert(b.subrange(46, 82) =~= option_key_bytes(m.freeze_authority));
}

/// Every packed token account is well formed.
pub proof fn lemma_token_account_bytes_wf(a: TokenAccount)
    ensures
        is_token_account_record(token_account_bytes(a)),
{
    lemma_auto_spec_u64_to_from_le_bytes();
    lemma_option_key_bytes(a.delegate);
    lemma_option_u64_bytes(a.is_native);
    lemma_option_key_bytes(a.close_authority);
    let b = token_account_bytes(a);
    assert(b.subrange(72, 108) =~= option_key_bytes(a.delegate));
    assert(b.subrange(109, 121) =~= option_u64_bytes(a.is_native));
    assert(b.subrange(129, 165) =~= option_key_bytes(a.close_authority));
}

/// Appends the bytes of `src` to `out`.
fn extend_bytes(out: &mut Vec<u8>, src: &[u8])
    ensures
        final(out)@ == old(out)@ + src@,
{
    let mut i: usize = 0;
    while i < src.len()
        invariant
            i <= src@.len(),
            out@ == old(out)@ + src@.subrange(0, i as int),
        decreases src@.len() - i,
    {
        out.push(src[i]);
        i = i + 1;
        assert(out@ =~= old(out)@ + src@.subrange(0, i as int));
    }
    assert(src@.subrange(0, i as int) =~= src@);
}

/// Appends `n` zero bytes to `out`.
fn push_zeros(out: &mut Vec<u8>, n: usize)
    ensures
        final(out)@ == old(out)@ + zeros(n as nat),
{
    let mut i: usize = 0;
    while i < n
        invariant
            i <= n,
            out@ == old(out)@ + zeros(i as nat),
        decreases n - i,
    {
        out.push(0u8);
        i = i + 1;
        assert(out@ =~= old(out)@ + zeros(i as nat));
    }
}

fn push_tag(out: &mut Vec<u8>, present: bool)
    ensures
        final(out)@ == old(out)@ + (if present {
            present_tag()
        } else {
            absent_tag()
        }),
{
    if present {
        out.push(1u8);
    } else {
        out.push(0u8);
    }
    out.push(0u8);
    out.push(0u8);
    out.push(0u8);
    assert(out@ =~= old(out)@ + (if present {
        present_tag()
    } else {
        absent_tag()
    }));
}

fn push_u64(out: &mut Vec<u8>, v: u64)
    ensures
        final(out)@ == old(out)@ + spec_u64_to_le_bytes(v),
{
    let bytes = u64_to_le_bytes(v);
    extend_bytes(out, bytes.as_slice());
}

fn push_option_key(out: &mut Vec<u8>, o: &Option<Pubkey>)
    ensures
        final(out)@ == old(out)@ + option_key_bytes(*o),
{
    match o {
        None => {
            push_tag(out, false);
            push_zeros(out, 32);
            assert(out@ =~= old(out)@ + option_key_bytes(*o));
        },
        Some(k) => {
            push_tag(out, true);
            extend_bytes(out, k.0.as_slice());
            assert(out@ =~= old(out)@ + option_key_bytes(*o));
        },
    }
}

fn push_option_u64(out: &mut Vec<u8>, o: &Option<u64>)
    ensures
        final(out)@ == old(out)@ + option_u64_bytes(*o),
{
    match o {
        None => {
            push_tag(out, false);
            push_zeros(out, 8);
            assert(out@ =~= old(out)@ + option_u64_bytes(*o));
        },
        Some(v) => {
            push_tag(out, true);
            push_u64(out, *v);
            assert(out@ =~= old(out)@ + option_u64_bytes(*o));
        },
    }
}

/// Reads the key stored at `data[off..off + 32]`.
fn key_at(data: &[u8], off: usize) -> (k: Pubkey)
    requires
        off + 32 <= data@.len() <= usize::MAX,
    ensures
        k.0@ == data@.subrange(off as int, off + 32),
{
    let mut bytes = [0u8; 32];
    let mut i: usize = 0;
    while i < 32
        invariant
            i <= 32,
            off + 32 <= data@.len() <= usize::MAX,
            forall|j: int| 0 <= j < i ==> bytes@[j] == data@[off + j],
        decreases 32 - i,
    {
        bytes[i] = data[off + i];
        i = i + 1;
    }
    assert(bytes@ =~= data@.subrange(off as int, off + 32));
    Pubkey(bytes)
}

/// Whether `data[from..to]` is all zero.
fn all_zero(data: &[u8], from: usize, to: usize) -> (r: bool)
    requires
        from <= to <= data@.len(),
    ensures
        r == (data@.subrange(from as int, to as int) == zeros((to - from) as nat)),
{
    let mut i: usize = from;
    while i < to
        invariant
            from <= i <= to <= data@.len(),
            forall|j: int| from <= j < i ==> data@[j] == 0u8,
        decreases to - i,
    {
        if data[i] != 0u8 {
            assert(data@.subrange(from as int, to as int)[i - from] != zeros(
                (to - from) as nat,
            )[i - from]);
            return false;
        }
        i = i + 1;
    }
    assert(data@.subrange(from as int, to as int) =~= zeros((to - from) as nat));
    true
}

/// Reads the tag at `data[off..off + 4]`: `Some(true)` for present,
/// `Some(false)` for absent, `None` for anything else.
fn tag_at(data: &[u8], off: usize) -> (r: Option<bool>)
    requires
        off + 4 <= data@.len() <= usize::MAX,
    ensures
        r == Some(true) <==> data@.subrange(off as int, off + 4) == present_tag(),
        r == Some(false) <==> data@.subrange(off as int, off + 4) == absent_tag(),
{
    let ghost t = data@.subrange(off as int, off + 4);
    if data[off + 1] != 0u8 || data[off + 2] != 0u8 || data[off + 3] != 0u8 {
        assert(t[1] != present_tag()[1] || t[2] != present_tag()[2] || t[3] != present_tag()[3]);
        return None;
    }
    if data[off] == 1u8 {
        assert(t =~= present_tag());
        Some(true)
    } else if data[off] == 0u8 {
        assert(t =~= absent_tag());
        Some(false)
    } else {
        assert(t[0] != present_tag()[0] && t[0] != absent_tag()[0]);
        None
    }
}

/// Reads the optional key at `data[off..off + 36]`.
fn option_key_at(data: &[u8], off: usize) -> (r: Option<Option<Pubkey>>)
    requires
        off + 36 <= data@.len() <= usize::MAX,
    ensures
        match r {
            Some(o) => option_key_bytes(o) == data@.subrange(off as int, off + 36),
            None => !option_field_ok(data@.subrange(off as int, off + 36), 32),
        },
{
    let ghost b = data@.subrange(off as int, off + 36);
    assert(b.subrange(0, 4) =~= data@.subrange(off as int, off + 4));
    assert(b.subrange(4, 36) =~= data@.subrange(off + 4, off + 36));
    match tag_at(data, off) {
        Some(true) => {
            let k = key_at(data, off + 4);
            assert(option_key_bytes(Some(k)) =~= b);
            Some(Some(k))
        },
        Some(false) => {
            if all_zero(data, off + 4, off + 36) {
                assert(option_key_bytes(None) =~= b);
                Some(None)
            } else {
                None
            }
        },
        None => None,
    }
}

/// Reads the optional integer at `data[off..off + 12]`.
fn option_u64_at(data: &[u8], off: usize) -> (r: Option<Option<u64>>)
    requires
        off + 12 <= data@.len() <= usize::MAX,
    ensures
        match r {
            Some(o) => option_u64_bytes(o) == data@.subrange(off as int, off + 12),
            None => !option_field_ok(data@.subrange(off as int, off + 12), 8),
        },
{
    let ghost b = data@.subrange(off as int, off + 12);
    assert(b.subrange(0, 4) =~= data@.subrange(off as int, off + 4));
    assert(b.subrange(4, 12) =~= data@.subrange(off + 4, off + 12));
    match tag_at(data, off) {
        Some(true) => {
            let v = u64_at(data, off + 4);
            assert(option_u64_bytes(Some(v)) =~= b);
            Some(Some(v))
        },
        Some(false) => {
            if all_zero(data, off + 4, off + 12) {
                assert(option_u64_bytes(None) =~= b);
                Some(None)
            } else {
                None
            }
        },
        None => None,
    }
}

/// Reads the little-endian integer at `data[off..off + 8]`.
fn u64_at(data: &[u8], off: usize) -> (v: u64)
    requires
        off + 8 <= data@.len() <= usize::MAX,
    ensures
        spec_u64_to_le_bytes(v) == data@.subrange(off as int, off + 8),
{
    proof {
        lemma_auto_spec_u64_to_from_le_bytes();
    }
    let v = u64_from_le_bytes(&data[off..off + 8]);
    assert(spec_u64_to_le_bytes(spec_u64_from_le_bytes(data@.subrange(off as int, off + 8)))
        == data@.subrange(off as int, off + 8));
    v
}

proof fn lemma_option_key_bytes_injective(o1: Option<Pubkey>, o2: Option<Pubkey>)
    requires
        option_key_bytes(o1) == option_key_bytes(o2),
    ensures
        o1 == o2,
{
    let b = option_key_bytes(o1);
    assert(b[0] == option_key_bytes(o2)[0]);
    if let (Some(k1), Some(k2)) = (o1, o2) {
        assert(k1.0@ =~= b.subrange(4, 36));
        assert(k2.0@ =~= option_key_bytes(o2).subrange(4, 36));
        assert(k1.0 =~= k2.0);
    }
}

proof fn lemma_option_u64_bytes_injective(o1: Option<u64>, o2: Option<u64>)
    requires
        option_u64_bytes(o1) == option_u64_bytes(o2),
    ensures
        o1 == o2,
{
    lemma_auto_spec_u64_to_from_le_bytes();
    let b = option_u64_bytes(o1);
    assert(b[0] == option_u64_bytes(o2)[0]);
    if let (Some(v1), Some(v2)) = (o1, o2) {
        assert(spec_u64_to_le_bytes(v1) =~= b.subrange(4, 12));
        assert(spec_u64_to_le_bytes(v2) =~= option_u64_bytes(o2).subrange(4, 12));
    }
}

/// Round trip: a packed mint determines the mint, so unpacking the packed
/// form of `m1` gives back `m1`.
pub proof fn lemma_mint_bytes_injective(m1: Mint, m2: Mint)
    requires
        mint_bytes(m1) == mint_bytes(m2),
    ensures
        m1 == m2,
{
    lemma_auto_spec_u64_to_from_le_bytes();
    let b1 = mint_bytes(m1);
    let b2 = mint_bytes(m2);
    assert(b1.subrange(0, 36) =~= option_key_bytes(m1.mint_authority));
    assert(b2.subrange(0, 36) =~= option_key_bytes(m2.mint_authority));
    lemma_option_key_bytes_injective(m1.mint_authority, m2.mint_authority);
    assert(b1.subrange(36, 44) =~= spec_u64_to_le_bytes(m1.supply));
    assert(b2.subrange(36, 44) =~= spec_u64_to_le_bytes(m2.supply));
    assert(b1[44] == b2[44] && b1[45] == b2[45]);
    assert(b1.subrange(46, 82) =~= option_key_bytes(m1.freeze_authority));
    assert(b2.subrange(46, 82) =~= option_key_bytes(m2.freeze_authority));
    lemma_option_key_bytes_injective(m1.freeze_authority, m2.freeze_authority);
}

/// Round trip: a packed token account determines the account, so unpacking
/// the packed form of `a1` gives back `a1`.
#[verifier::rlimit(50)]
pub proof fn lemma_token_account_bytes_injective(a1: TokenAccount, a2: TokenAccount)
    requires
        token_account_bytes(a1) == token_account_bytes(a2),
    ensures
        a1 == a2,
{
    lemma_auto_spec_u64_to_from_le_bytes();
    let b1 = token_account_bytes(a1);
    let b2 = token_account_bytes(a2);
    assert(b1.subrange(0, 32) =~= a1.mint.0@);
    assert(b2.subrange(0, 32) =~= a2.mint.0@);
    assert(a1.mint.0 =~= a2.mint.0);
    assert(b1.subrange(32, 64) =~= a1.owner.0@);
    assert(b2.subrange(32, 64) =~= a2.owner.0@);
    assert(a1.owner.0 =~= a2.owner.0);
    assert(b1.subrange(64, 72) =~= spec_u64_to_le_bytes(a1.amount));
    assert(b2.subrange(64, 72) =~= spec_u64_to_le_bytes(a2.amount));
    assert(b1.subrange(72, 108) =~= option_key_bytes(a1.delegate));
    assert(b2.subrange(72, 108) =~= option_key_bytes(a2.delegate));
    lemma_option_key_bytes_injective(a1.delegate, a2.delegate);
    assert(b1[108] == b2[108]);
    assert(b1.subrange(109, 121) =~= option_u64_bytes(a1.is_native));
    assert(b2.subrange(109, 121) =~= option_u64_bytes(a2.is_native));
    lemma_option_u64_bytes_injective(a1.is_native, a2.is_native);
    assert(b1.subrange(121, 129) =~= spec_u64_to_le_bytes(a1.delegated_amount));
    assert(b2.subrange(121, 129) =~= spec_u64_to_le_bytes(a2.delegated_amount));
    assert(b1.subrange(129, 165) =~= option_key_bytes(a1.close_authority));
    assert(b2.subrange(129, 165) =~= option_key_bytes(a2.close_authority));
    lemma_option_key_bytes_injective(a1.close_authority, a2.close_authority);
}

impl Mint {
    /// Packs the record into its 82-byte form.
    pub fn pack(&self) -> (r: Vec<u8>)
        ensures
            r@ == mint_bytes(*self),
            r@.len() == Mint::LEN,
    {
        proof {
            lemma_auto_spec_u64_to_from_le_bytes();
        }
        let mut out: Vec<u8> = Vec::new();
        push_option_key(&mut out, &self.mint_authority);
        push_u64(&mut out, self.supply);
        out.push(self.decimals);
        out.push(if self.is_initialized { 1u8 } else { 0u8 });
        push_option_key(&mut out, &self.freeze_authority);
        assert(out@ =~= mint_bytes(*self));
        out
    }

    /// Unpacks an 82-byte record; refuses anything that `pack` cannot produce.
    pub fn unpack(data: &[u8]) -> (r: Result<Mint, TokenError>)
        ensures
            match r {
                Ok(m) => mint_bytes(m) == data@ && is_mint_record(data@),
                Err(e) => e == TokenError::InvalidAccountData && !is_mint_record(data@) && forall|m: Mint|
                    mint_bytes(m) != data@,
            },
    {
        proof {
            assert forall|m: Mint| mint_bytes(m) == data@ implies is_mint_record(data@) by {
                lemma_mint_bytes_wf(m);
            }
        }
        if data.len() != Mint::LEN {
            return Err(TokenError::InvalidAccountData);
        }
        let mint_authority = match option_key_at(data, 0) {
            Some(o) => o,
            None => return Err(TokenError::InvalidAccountData),
        };
        let supply = u64_at(data, 36);
        let decimals = data[44];
        let is_initialized = match data[45] {
            0u8 => false,
            1u8 => true,
            _ => return Err(TokenError::InvalidAccountData),
        };
        let freeze_authority = match option_key_at(data, 46) {
            Some(o) => o,
            None => return Err(TokenError::InvalidAccountData),
        };
        let m = Mint { mint_authority, supply, decimals, is_initialized, freeze_authority };
        assert(mint_bytes(m) =~= data@.subrange(0, 36) + data@.subrange(36, 44) + seq![
            data@[44],
            data@[45],
        ] + data@.subrange(46, 82));
        assert(data@ =~= data@.subrange(0, 36) + data@.subrange(36, 44) + seq![
            data@[44],
            data@[45],
        ] + data@.subrange(46, 82));
        Ok(m)
    }
}

impl TokenAccount {
    /// Packs the record into its 165-byte form.
    pub fn pack(&self) -> (r: Vec<u8>)
        ensures
            r@ == token_account_bytes(*self),
            r@.len() == TokenAccount::LEN,
    {
        proof {
            lemma_auto_spec_u64_to_from_le_bytes();
        }
        let mut out: Vec<u8> = Vec::new();
        extend_bytes(&mut out, self.mint.0.as_slice());
        extend_bytes(&mut out, self.owner.0.as_slice());
        push_u64(&mut out, self.amount);
        push_option_key(&mut out, &self.delegate);
        out.push(
            match self.state {
                AccountState::Uninitialized => 0u8,
                AccountState::Initialized => 1u8,
                AccountState::Frozen => 2u8,
            },
        );
        push_option_u64(&mut out, &self.is_native);
        push_u64(&mut out, self.delegated_amount);
        push_option_key(&mut out, &self.close_authority);
        assert(out@ =~= token_account_bytes(*self));
        out
    }

    /// Unpacks a 165-byte record; refuses anything that `pack` cannot produce.
    pub fn unpack(data: &[u8]) -> (r: Result<TokenAccount, TokenError>)
        ensures
            match r {
                Ok(a) => token_account_bytes(a) == data@ && is_token_account_record(data@),
                Err(e) => e == TokenError::InvalidAccountData && !is_token_account_record(data@) && forall|a: TokenAccount|
                    token_account_bytes(a) != data@,
            },
    {
        proof {
            assert forall|a: TokenAccount| token_account_bytes(a) == data@ implies is_token_account_record(data@) by {
                lemma_token_account_bytes_wf(a);
            }
        }
        if data.len() != TokenAccount::LEN {
            return Err(TokenError::InvalidAccountData);
        }
        let mint = key_at(data, 0);
        let owner = key_at(data, 32);
        let amount = u64_at(data, 64);
        let delegate = match option_key_at(data, 72) {
            Some(o) => o,
            None => return Err(TokenError::InvalidAccountData),
        };
        let state = match data[108] {
            0u8 => AccountState::Uninitialized,
            1u8 => AccountState::Initialized,
            2u8 => AccountState::Frozen,
            _ => return Err(TokenError::InvalidAccountData),
        };
        let is_native = match option_u64_at(data, 109) {
            Some(o) => o,
            None => return Err(TokenError::InvalidAccountData),
        };
        let delegated_amount = u64_at(data, 121);
        let close_authority = match option_key_at(data, 129) {
            Some(o) => o,
            None => return Err(TokenError::InvalidAccountData),
        };
        let a = TokenAccount {
            mint,
            owner,
            amount,
            delegate,
            state,
            is_native,
            delegated_amount,
            close_authority,
        };
        let ghost parts = data@.subrange(0, 32) + data@.subrange(32, 64) + data@.subrange(64, 72)
            + data@.subrange(72, 108) + seq![data@[108]] + data@.subrange(109, 121)
            + data@.subrange(121, 129) + data@.subrange(129, 165);
        assert(token_account_bytes(a) =~= parts);
        assert(data@ =~= parts);
        Ok(a)
    }
}

} // verus!
