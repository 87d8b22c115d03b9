//! The instruction payload: a one-byte tag, then the variant's arguments.
//!
//! Tags follow the order of the variants, starting at 0; `decimals` is one
//! byte and `amount` eight little-endian bytes. A payload with an unknown
//! tag, or of the wrong length for its tag, is refused.

use vstd::bytes::{
    lemma_auto_spec_u64_to_from_le_bytes, spec_u64_from_le_bytes, spec_u64_to_le_bytes,
    u64_from_le_bytes, u64_to_le_bytes,
};
use vstd::prelude::*;

use crate::state::{TokenError, TokenInstruction};

verus! {

/// The packed form of an instruction.
pub open spec fn instruction_bytes(ix: TokenInstruction) -> Seq<u8> {
    match ix {
        TokenInstruction::InitializeMint { decimals } => seq![0u8, decimals],
        TokenInstruction::InitializeAccount => seq![1u8],
        TokenInstruction::MintTo { amount } => seq![2u8] + spec_u64_to_le_bytes(amount),
        TokenInstruction::Transfer { amount } => seq![3u8] + spec_u64_to_le_bytes(amount),
        TokenInstruction::Approve { amount } => seq![4u8] + spec_u64_to_le_bytes(amount),
        TokenInstruction::Revoke => seq![5u8],
        TokenInstruction::Burn { amount } => seq![6u8] + spec_u64_to_le_bytes(amount),
        TokenInstruction::FreezeAccount => seq![7u8],
        TokenInstruction::ThawAccount => seq![8u8],
    }
}

/// The payload length that goes with a known tag.
pub open spec fn payload_len(tag: u8) -> int {
    if tag == 0 {
        2
    } else if tag == 2 || tag == 3 || tag == 4 || tag == 6 {
        9
    } else {
        1
    }
}

/// `b` is the packed form of some instruction.
pub open spec fn is_instruction(b: Seq<u8>) -> bool {
    &&& b.len() >= 1
    &&& b[0] <= 8
    &&& b.len() == payload_len(b[0])
}

proof fn lemma_instruction_bytes_wf(ix: TokenInstruction)
    ensures
        is_instruction(instruction_bytes(ix)),
{
    lemma_auto_spec_u64_to_from_le_bytes();
}

/// Round trip: a packed instruction determines the instruction, so
/// unpacking the packed form of `a` gives back `a`.
pub proof fn lemma_instruction_bytes_injective(a: TokenInstruction, b: TokenInstruction)
    requires
        instruction_bytes(a) == instruction_bytes(b),
    ensures
        a == b,
{
    lemma_auto_spec_u64_to_from_le_bytes();
    let s = instruction_bytes(a);
    assert(s[0] == instruction_bytes(b)[0]);
    assert(s.len() == instruction_bytes(b).len());
    if s.len() == 9 {
        assert(s.subrange(1, 9) =~= spec_u64_to_le_bytes(match a {
            TokenInstruction::MintTo { amount } => amount,
            TokenInstruction::Transfer { amount } => amount,
            TokenInstruction::Approve { amount } => amount,
            TokenInstruction::Burn { amount } => amount,
            _ => 0,
        }));
        assert(instruction_bytes(b).subrange(1, 9) =~= spec_u64_to_le_bytes(match b {
            TokenInstruction::MintTo { amount } => amount,
            TokenInstruction::Transfer { amount } => amount,
            TokenInstruction::Approve { amount } => amount,
            TokenInstruction::Burn { amount } => amount,
            _ => 0,
        }));
    } else if s.len() == 2 {
        assert(s[1] == instruction_bytes(b)[1]);
    }
}

impl TokenInstruction {
    /// Packs the instruction into its payload form.
    pub fn pack(&self) -> (r: Vec<u8>)
        ensures
            r@ == instruction_bytes(*self),
    {
        proof {
            lemma_auto_spec_u64_to_from_le_bytes();
        }
        let (tag, amount): (u8, Option<u64>) = match self {
            TokenInstruction::InitializeMint { decimals } => {
                let v: Vec<u8> = vec![0u8, *decimals];
                assert(v@ =~= instruction_bytes(*self));
                return v;
            },
            TokenInstruction::InitializeAccount => (1u8, None),
            TokenInstruction::MintTo { amount } => (2u8, Some(*amount)),
            TokenInstruction::Transfer { amount } => (3u8, Some(*amount)),
            TokenInstruction::Approve { amount } => (4u8, Some(*amount)),
            TokenInstruction::Revoke => (5u8, None),
            TokenInstruction::Burn { amount } => (6u8, Some(*amount)),
            TokenInstruction::FreezeAccount => (7u8, None),
            TokenInstruction::ThawAccount => (8u8, None),
        };
        let mut out: Vec<u8> = vec![tag];
        if let Some(a) = amount {
            let bytes = u64_to_le_bytes(a);
            let mut i: usize = 0;
            while i < 8
                invariant
                    i <= 8,
                    bytes@ == spec_u64_to_le_bytes(a),
                    bytes@.len() == 8,
                    out@ == seq![tag] + bytes@.subrange(0, i as int),
                decreases 8 - i,
            {
                out.push(bytes[i]);
                i = i + 1;
                assert(out@ =~= seq![tag] + bytes@.subrange(0, i as int));
            }
            assert(bytes@.subrange(0, 8) =~= bytes@);
        }
        assert(out@ =~= instruction_bytes(*self));
        out
    }

    /// Decodes a payload; unknown tags, short or overlong payloads are refused.
    pub fn unpack(data: &[u8]) -> (r: Result<TokenInstruction, TokenError>)
        ensures
            match r {
                Ok(ix) => instruction_bytes(ix) == data@ && is_instruction(data@),
                Err(e) => e == TokenError::InvalidInstructionData && !is_instruction(data@)
                    && forall|ix: TokenInstruction| instruction_bytes(ix) != data@,
            },
    {
        proof {
            lemma_auto_spec_u64_to_from_le_bytes();
            assert forall|ix: TokenInstruction| instruction_bytes(ix) == data@ implies is_instruction(
                data@,
            ) by {
                lemma_instruction_bytes_wf(ix);
            }
        }
        if data.len() == 0 {
            return Err(TokenError::InvalidInstructionData);
        }
        let tag = data[0];
        if tag > 8 {
            return Err(TokenError::InvalidInstructionData);
        }
        if tag == 0 {
            if data.len() != 2 {
                return Err(TokenError::InvalidInstructionData);
            }
            let ix = TokenInstruction::InitializeMint { decimals: data[1] };
            assert(instruction_bytes(ix) =~= data@);
            return Ok(ix);
        }
        if tag == 2 || tag == 3 || tag == 4 || tag == 6 {
            if data.len() != 9 {
                return Err(TokenError::InvalidInstructionData);
            }
            let amount = u64_from_le_bytes(&data[1..9]);
            assert(spec_u64_to_le_bytes(amount) == data@.subrange(1, 9));
            let ix = if tag == 2 {
                TokenInstruction::MintTo { amount }
            } else if tag == 3 {
                TokenInstruction::Transfer { amount }
            } else if tag == 4 {
                TokenInstruction::Approve { amount }
            } else {
                TokenInstruction::Burn { amount }
            };
            assert(instruction_bytes(ix) =~= data@);
            return Ok(ix);
        }
        if data.len() != 1 {
            return Err(TokenError::InvalidInstructionData);
        }
        let ix = if tag == 1 {
            TokenInstruction::InitializeAccount
        } else if tag == 5 {
            TokenInstruction::Revoke
        } else if tag == 7 {
            TokenInstruction::FreezeAccount
        } else {
            TokenInstruction::ThawAccount
        };
        assert(instruction_bytes(ix) =~= data@);
        Ok(ix)
    }
}

} // verus!
