//! Errors of the ledger.

use vstd::prelude::*;

verus! {

/// The reasons for which the ledger itself rejects an instruction.
#[derive(Clone, Copy, Debug, PartialEq, Eq, Structural)]
pub enum TokenError {
    /// The instruction bytes are malformed.
    InvalidInstruction,
    /// The record is already initialized.
    AlreadyInUse,
    /// The record's balance is below the rent-exempt threshold.
    NotRentExempt,
    /// The mint record is missing or not initialized.
    InvalidMint,
    /// The account belongs to another mint.
    MintMismatch,
    /// Source and destination are the same record.
    SelfTransfer,
    /// The balance or the delegated allowance is too small.
    InsufficientFunds,
    /// An amount would leave the range of 64 bits.
    Overflow,
    /// The mint has no authority: its supply is fixed.
    FixedSupply,
    /// The authority's address is not the expected one.
    OwnerMismatch,
}

impl TokenError {
    /// The number under which the host reports the error.
    pub open spec fn spec_code(self) -> u32 {
        match self {
            TokenError::InvalidInstruction => 0,
            TokenError::AlreadyInUse => 1,
            TokenError::NotRentExempt => 2,
            TokenError::InvalidMint => 3,
            TokenError::MintMismatch => 4,
            TokenError::SelfTransfer => 5,
            TokenError::InsufficientFunds => 6,
            TokenError::Overflow => 7,
            TokenError::FixedSupply => 8,
            TokenError::OwnerMismatch => 9,
        }
    }

    /// The error with the given number, if there is one.
    pub open spec fn spec_from_code(code: u32) -> Option<TokenError> {
        if code == 0 {
            Some(TokenError::InvalidInstruction)
        } else if code == 1 {
            Some(TokenError::AlreadyInUse)
        } else if code == 2 {
            Some(TokenError::NotRentExempt)
        } else if code == 3 {
            Some(TokenError::InvalidMint)
        } else if code == 4 {
            Some(TokenError::MintMismatch)
        } else if code == 5 {
            Some(TokenError::SelfTransfer)
        } else if code == 6 {
            Some(TokenError::InsufficientFunds)
        } else if code == 7 {
            Some(TokenError::Overflow)
        } else if code == 8 {
            Some(TokenError::FixedSupply)
        } else if code == 9 {
            Some(TokenError::OwnerMismatch)
        } else {
            None
        }
    }

    /// The diagnostic line of the error.
    pub open spec fn spec_message(self) -> Seq<char> {
        match self {
            TokenError::InvalidInstruction => "Error: Invalid instruction"@,
            TokenError::AlreadyInUse => "Error: Already in use"@,
            TokenError::NotRentExempt => "Error: Lamport balance below rent-exempt threshold"@,
            TokenError::InvalidMint => "Error: Invalid mint"@,
            TokenError::MintMismatch => "Error: Mint mismatch"@,
            TokenError::SelfTransfer => "Error: Self transfer"@,
            TokenError::InsufficientFunds => "Error: Insufficient funds"@,
            TokenError::Overflow => "Error: Overflow"@,
            TokenError::FixedSupply => "Error: Fixed supply"@,
            TokenError::OwnerMismatch => "Error: Owner mismatch"@,
        }
    }

    /// The number under which the host reports the error.
    pub fn code(&self) -> (c: u32)
        ensures
            c == self.spec_code(),
            TokenError::spec_from_code(c) == Some(*self),
    {
        match self {
            TokenError::InvalidInstruction => 0,
            TokenError::AlreadyInUse => 1,
            TokenError::NotRentExempt => 2,
            TokenError::InvalidMint => 3,
            TokenError::MintMismatch => 4,
            TokenError::SelfTransfer => 5,
            TokenError::InsufficientFunds => 6,
            TokenError::Overflow => 7,
            TokenError::FixedSupply => 8,
            TokenError::OwnerMismatch => 9,
        }
    }

    /// The error with the given number, if there is one.
    pub fn from_code(code: u32) -> (e: Option<TokenError>)
        ensures
            e == TokenError::spec_from_code(code),
            e matches Some(err) ==> err.spec_code() == code,
            e is None <==> code > 9,
    {
        match code {
            0 => Some(TokenError::InvalidInstruction),
            1 => Some(TokenError::AlreadyInUse),
            2 => Some(TokenError::NotRentExempt),
            3 => Some(TokenError::InvalidMint),
            4 => Some(TokenError::MintMismatch),
            5 => Some(TokenError::SelfTransfer),
            6 => Some(TokenError::InsufficientFunds),
            7 => Some(TokenError::Overflow),
            8 => Some(TokenError::FixedSupply),
            9 => Some(TokenError::OwnerMismatch),
            _ => None,
        }
    }

    /// The diagnostic line of the error.
    pub fn message(&self) -> (s: &'static str)
        ensures
            s@ == self.spec_message(),
    {
        match self {
            TokenError::InvalidInstruction => "Error: Invalid instruction",
            TokenError::AlreadyInUse => "Error: Already in use",
            TokenError::NotRentExempt => "Error: Lamport balance below rent-exempt threshold",
            TokenError::InvalidMint => "Error: Invalid mint",
            TokenError::MintMismatch => "Error: Mint mismatch",
            TokenError::SelfTransfer => "Error: Self transfer",
            TokenError::InsufficientFunds => "Error: Insufficient funds",
            TokenError::Overflow => "Error: Overflow",
            TokenError::FixedSupply => "Error: Fixed supply",
            TokenError::OwnerMismatch => "Error: Owner mismatch",
        }
    }
}

/// Every way in which an instruction can fail: a rejection by the ledger's own
/// rules, or one of the failures that the host environment defines.
#[derive(Clone, Copy, Debug, PartialEq, Eq, Structural)]
pub enum LedgerError {
    /// The ledger's rules reject the instruction.
    Token(TokenError),
    /// A handle does not hold what the instruction needs in its place.
    InvalidArgument,
    /// The bytes of a record are malformed.
    InvalidAccountData,
    /// The authority did not sign.
    MissingRequiredSignature,
    /// The record has not been initialized.
    UninitializedAccount,
    /// The instruction needs more handles than were supplied.
    NotEnoughAccountKeys,
}

} // verus!
