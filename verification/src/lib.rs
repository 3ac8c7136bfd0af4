//! A fungible-token ledger: mint and account records, their fixed-width
//! encodings, the instruction wire format, and the state transitions that
//! create, mint, transfer, delegate and burn balances.

pub mod address;
pub mod error;
pub mod wire;
pub mod state;
pub mod instruction;
pub mod record;
pub mod rent;
pub mod processor;
pub mod laws;
