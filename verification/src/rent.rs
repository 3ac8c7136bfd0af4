//! What the host's rent sysvar says of a record.

use vstd::prelude::*;
use solana_program::account_info::AccountInfo;
use solana_program::pubkey::Pubkey;
use solana_program::rent::Rent;
use solana_program::sysvar::Sysvar;
use crate::address::Address;

verus! {

/// Bytes that the host adds to the length of a record's data when it computes
/// the rent.
pub const ACCOUNT_STORAGE_OVERHEAD: u64 = 128;

/// The address of the rent sysvar.
pub open spec fn rent_sysvar_id() -> Seq<u8> {
    seq![
        6u8, 167u8, 213u8, 23u8, 25u8, 44u8, 92u8, 81u8, 33u8, 140u8, 201u8, 76u8, 61u8, 74u8,
        241u8, 127u8, 88u8, 218u8, 238u8, 8u8, 155u8, 161u8, 253u8, 68u8, 227u8, 219u8, 217u8,
        138u8, 0u8, 0u8, 0u8, 0u8,
    ]
}

/// The rate, in lamports for a byte and a year, of the rent that the record
/// with address `key` and bytes `data` holds; `None` where it holds no rent.
pub uninterp spec fn sysvar_rent_rate(key: Seq<u8>, data: Seq<u8>) -> Option<u64>;

/// Whether, by the rent that the record with address `key` and bytes `data`
/// holds, `balance` exempts `data_len` bytes of data from rent.
pub uninterp spec fn sysvar_rent_exempt(
    key: Seq<u8>,
    data: Seq<u8>,
    balance: u64,
    data_len: usize,
) -> bool;

/// Whether the yearly rent of `data_len` bytes at `rate` is a 64-bit number.
/// The host computes the rent only where it is.
pub open spec fn rate_fits(rate: u64, data_len: usize) -> bool {
    (ACCOUNT_STORAGE_OVERHEAD + data_len) * rate <= u64::MAX && ACCOUNT_STORAGE_OVERHEAD
        + data_len <= u64::MAX
}

/// Calls `Rent::from_account_info` of solana_program on a handle with this
/// address and these bytes, and gives the field `lamports_per_byte_year` of the
/// rent it returns, `None` where it returns an error. The contract names the
/// result, and claims what the function's documentation says: there is an error
/// where the address is not that of the rent sysvar.
#[verifier::external_body]
pub(crate) fn rent_rate(key: &Address, data: &[u8]) -> (rate: Option<u64>)
    ensures
        rate == sysvar_rent_rate(key@, data@),
        rate is Some ==> key@ == rent_sysvar_id(),
{
    let (id, owner) = (Pubkey::new_from_array(key.to_bytes()), Pubkey::default());
    let (mut lamports, mut bytes) = (0u64, data.to_vec());
    let info = AccountInfo::new(&id, false, false, &mut lamports, &mut bytes, &owner, false, 0);
    match Rent::from_account_info(&info) {
        Ok(rent) => Some(rent.lamports_per_byte_year),
        Err(_) => None,
    }
}

/// Calls `Rent::is_exempt` of solana_program, with `balance` and `data_len`, on
/// the rent that `Rent::from_account_info` returns for a handle with this
/// address and these bytes. The contract names the result. `is_exempt`
/// multiplies the rate by `data_len` and the storage overhead in 64 bits: the
/// call is made only where that product fits.
#[verifier::external_body]
pub(crate) fn rent_is_exempt(key: &Address, data: &[u8], balance: u64, data_len: usize) -> (exempt: bool)
    requires
        sysvar_rent_rate(key@, data@) matches Some(rate) && rate_fits(rate, data_len),
    ensures
        exempt == sysvar_rent_exempt(key@, data@, balance, data_len),
{
    let (id, owner) = (Pubkey::new_from_array(key.to_bytes()), Pubkey::default());
    let (mut lamports, mut bytes) = (0u64, data.to_vec());
    let info = AccountInfo::new(&id, false, false, &mut lamports, &mut bytes, &owner, false, 0);
    match Rent::from_account_info(&info) {
        Ok(rent) => rent.is_exempt(balance, data_len),
        Err(_) => false,
    }
}

} // verus!
