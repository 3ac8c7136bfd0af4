//! The instructions of the ledger and their wire format.

use vstd::prelude::*;
use vstd::bytes::{spec_u64_from_le_bytes, spec_u64_to_le_bytes};
use vstd::slice::slice_subrange;
use crate::address::Address;
use crate::error::{LedgerError, TokenError};
use crate::wire::{read_u64, u64_bytes};

verus! {

/// An instruction as a mathematical value.
pub enum InstructionView {
    InitializeMint { decimals: u8, mint_authority: Seq<u8> },
    InitializeAccount,
    Transfer { amount: u64 },
    Approve { amount: u64 },
    MintTo { amount: u64 },
    Burn { amount: u64 },
}

/// The error of every malformed instruction.
pub open spec fn invalid_instruction() -> LedgerError {
    LedgerError::Token(TokenError::InvalidInstruction)
}

impl InstructionView {
    /// The authority of `InitializeMint` is an address.
    pub open spec fn wf(self) -> bool {
        self matches InstructionView::InitializeMint { mint_authority, .. }
            ==> mint_authority.len() == 32
    }

    /// The bytes of the instruction: a tag, and then the decimals and the
    /// authority, or the amount in little-endian order, or nothing.
    pub open spec fn pack(self) -> Seq<u8> {
        match self {
            InstructionView::InitializeMint { decimals, mint_authority } => seq![0u8, decimals]
                + mint_authority,
            InstructionView::InitializeAccount => seq![1u8],
            InstructionView::Transfer { amount } => seq![2u8] + spec_u64_to_le_bytes(amount),
            InstructionView::Approve { amount } => seq![3u8] + spec_u64_to_le_bytes(amount),
            InstructionView::MintTo { amount } => seq![4u8] + spec_u64_to_le_bytes(amount),
            InstructionView::Burn { amount } => seq![5u8] + spec_u64_to_le_bytes(amount),
        }
    }

    /// The instruction that `input` starts with. The first byte selects the
    /// variant; bytes after those that the variant needs are ignored.
    pub open spec fn unpack(input: Seq<u8>) -> Result<InstructionView, LedgerError> {
        if input.len() == 0 {
            Err(invalid_instruction())
        } else if input[0] == 0 {
            if input.len() < 34 {
                Err(invalid_instruction())
            } else {
                Ok(
                    InstructionView::InitializeMint {
                        decimals: input[1],
                        mint_authority: input.subrange(2, 34),
                    },
                )
            }
        } else if input[0] == 1 {
            Ok(InstructionView::InitializeAccount)
        } else if input[0] <= 5 {
            if input.len() < 9 {
                Err(invalid_instruction())
            } else {
                let amount = spec_u64_from_le_bytes(input.subrange(1, 9));
                if input[0] == 2 {
                    Ok(InstructionView::Transfer { amount })
                } else if input[0] == 3 {
                    Ok(InstructionView::Approve { amount })
                } else if input[0] == 4 {
                    Ok(InstructionView::MintTo { amount })
                } else {
                    Ok(InstructionView::Burn { amount })
                }
            }
        } else {
            Err(invalid_instruction())
        }
    }

    /// The number of bytes of the encoded instruction: 34, 1 or 9.
    pub proof fn lemma_pack_len(self)
        requires
            self.wf(),
        ensures
            self.pack().len() == match self {
                InstructionView::InitializeMint { .. } => 34nat,
                InstructionView::InitializeAccount => 1nat,
                _ => 9nat,
            },
    {
        vstd::bytes::lemma_auto_spec_u64_to_from_le_bytes();
    }

    /// Decoding an encoded instruction gives it back, whatever bytes follow it.
    pub proof fn lemma_round_trip(self, trailing: Seq<u8>)
        requires
            self.wf(),
        ensures
            InstructionView::unpack(self.pack() + trailing) == Ok::<InstructionView, LedgerError>(
                self,
            ),
            InstructionView::unpack(self.pack()) == Ok::<InstructionView, LedgerError>(self),
    {
        vstd::bytes::lemma_auto_spec_u64_to_from_le_bytes();
        self.lemma_pack_len();
        let b = self.pack() + trailing;
        assert(self.pack() + Seq::<u8>::empty() =~= self.pack());
        match self {
            InstructionView::InitializeMint { decimals, mint_authority } => {
                assert(b.subrange(2, 34) =~= mint_authority);
                assert(self.pack().subrange(2, 34) =~= mint_authority);
            },
            InstructionView::InitializeAccount => {},
            InstructionView::Transfer { amount } => {
                assert(b.subrange(1, 9) =~= spec_u64_to_le_bytes(amount));
                assert(self.pack().subrange(1, 9) =~= spec_u64_to_le_bytes(amount));
            },
            InstructionView::Approve { amount } => {
                assert(b.subrange(1, 9) =~= spec_u64_to_le_bytes(amount));
                assert(self.pack().subrange(1, 9) =~= spec_u64_to_le_bytes(amount));
            },
            InstructionView::MintTo { amount } => {
                assert(b.subrange(1, 9) =~= spec_u64_to_le_bytes(amount));
                assert(self.pack().subrange(1, 9) =~= spec_u64_to_le_bytes(amount));
            },
            InstructionView::Burn { amount } => {
                assert(b.subrange(1, 9) =~= spec_u64_to_le_bytes(amount));
                assert(self.pack().subrange(1, 9) =~= spec_u64_to_le_bytes(amount));
            },
        }
    }
}

/// What the ledger can be asked to do.
#[derive(Clone, Debug, PartialEq)]
pub enum TokenInstruction {
    /// Initializes a mint with its decimals and its authority.
    InitializeMint { decimals: u8, mint_authority: Address },
    /// Initializes an account of a mint for an owner.
    InitializeAccount,
    /// Moves `amount` from one account to another of the same mint.
    Transfer { amount: u64 },
    /// Lets a delegate move up to `amount` from an account.
    Approve { amount: u64 },
    /// Creates `amount` new units in an account.
    MintTo { amount: u64 },
    /// Destroys `amount` units of an account.
    Burn { amount: u64 },
}

impl View for TokenInstruction {
    type V = InstructionView;

    open spec fn view(&self) -> InstructionView {
        match *self {
            TokenInstruction::InitializeMint { decimals, mint_authority } => {
                InstructionView::InitializeMint { decimals, mint_authority: mint_authority@ }
            },
            TokenInstruction::InitializeAccount => InstructionView::InitializeAccount,
            TokenInstruction::Transfer { amount } => InstructionView::Transfer { amount },
            TokenInstruction::Approve { amount } => InstructionView::Approve { amount },
            TokenInstruction::MintTo { amount } => InstructionView::MintTo { amount },
            TokenInstruction::Burn { amount } => InstructionView::Burn { amount },
        }
    }
}

impl TokenInstruction {
    /// The view of an instruction is well formed.
    pub proof fn lemma_wf(self)
        ensures
            self@.wf(),
    {
        if let TokenInstruction::InitializeMint { mint_authority, .. } = self {
            mint_authority.lemma_view();
        }
    }

    /// An instruction is determined by its view.
    pub proof fn lemma_view_injective(self, other: TokenInstruction)
        requires
            self@ == other@,
        ensures
            self == other,
    {
        if let TokenInstruction::InitializeMint { mint_authority, .. } = self {
            mint_authority.lemma_view_injective(other->mint_authority);
        }
    }

    /// Encodes the instruction.
    pub fn pack(&self) -> (buf: Vec<u8>)
        ensures
            buf@ == self@.pack(),
            InstructionView::unpack(buf@) == Ok::<InstructionView, LedgerError>(self@),
    {
        proof {
            self.lemma_wf();
            self@.lemma_round_trip(Seq::empty());
        }
        let mut buf: Vec<u8> = Vec::with_capacity(34);
        match self {
            TokenInstruction::InitializeMint { mint_authority, decimals } => {
                buf.push(0);
                buf.push(*decimals);
                let key = mint_authority.to_bytes();
                buf.extend_from_slice(key.as_slice());
            },
            TokenInstruction::InitializeAccount => buf.push(1),
            TokenInstruction::Transfer { amount } => {
                buf.push(2);
                let le = u64_bytes(*amount);
                buf.extend_from_slice(le.as_slice());
            },
            TokenInstruction::Approve { amount } => {
                buf.push(3);
                let le = u64_bytes(*amount);
                buf.extend_from_slice(le.as_slice());
            },
            TokenInstruction::MintTo { amount } => {
                buf.push(4);
                let le = u64_bytes(*amount);
                buf.extend_from_slice(le.as_slice());
            },
            TokenInstruction::Burn { amount } => {
                buf.push(5);
                let le = u64_bytes(*amount);
                buf.extend_from_slice(le.as_slice());
            },
        };
        assert(buf@ =~= self@.pack());
        buf
    }

    /// Decodes the instruction that `input` starts with. Every malformed input
    /// is `InvalidInstruction`: an empty one, an unknown tag, or fewer bytes
    /// than the variant needs.
    pub fn unpack(input: &[u8]) -> (r: Result<TokenInstruction, LedgerError>)
        ensures
            r matches Ok(instruction) ==> InstructionView::unpack(input@) == Ok::<
                InstructionView,
                LedgerError,
            >(instruction@),
            r matches Err(e) ==> InstructionView::unpack(input@) == Err::<
                InstructionView,
                LedgerError,
            >(e),
    {
        let len = input.len();
        if len == 0 {
            return Err(LedgerError::Token(TokenError::InvalidInstruction));
        }
        let tag = input[0];
        let rest = slice_subrange(input, 1, len);
        if tag == 0 {
            if rest.len() == 0 {
                return Err(LedgerError::Token(TokenError::InvalidInstruction));
            }
            let decimals = rest[0];
            let (mint_authority, _rest) = match Self::unpack_pubkey(
                slice_subrange(rest, 1, rest.len()),
            ) {
                Ok(pair) => pair,
                Err(e) => { return Err(e); },
            };
            assert(input@.subrange(2, 34) =~= mint_authority@);
            Ok(TokenInstruction::InitializeMint { decimals, mint_authority })
        } else if tag == 1 {
            Ok(TokenInstruction::InitializeAccount)
        } else if tag <= 5 {
            if rest.len() < 8 {
                return Err(LedgerError::Token(TokenError::InvalidInstruction));
            }
            let amount = read_u64(rest, 0);
            assert(rest@.subrange(0, 8) =~= input@.subrange(1, 9));
            if tag == 2 {
                Ok(TokenInstruction::Transfer { amount })
            } else if tag == 3 {
                Ok(TokenInstruction::Approve { amount })
            } else if tag == 4 {
                Ok(TokenInstruction::MintTo { amount })
            } else {
                Ok(TokenInstruction::Burn { amount })
            }
        } else {
            Err(LedgerError::Token(TokenError::InvalidInstruction))
        }
    }

    /// Splits an address off the front of `input`, which must hold at least 32
    /// bytes.
    pub fn unpack_pubkey(input: &[u8]) -> (r: Result<(Address, &[u8]), LedgerError>)
        ensures
            input@.len() < 32 ==> r == Err::<(Address, &[u8]), LedgerError>(invalid_instruction()),
            input@.len() >= 32 ==> (r matches Ok((key, rest)) && key@ == input@.subrange(0, 32)
                && rest@ == input@.subrange(32, input@.len() as int)),
    {
        let len = input.len();
        if len >= 32 {
            let pk = Address::new(slice_subrange(input, 0, 32));
            Ok((pk, slice_subrange(input, 32, len)))
        } else {
            Err(LedgerError::Token(TokenError::InvalidInstruction))
        }
    }
}

} // verus!
