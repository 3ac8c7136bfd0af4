//! What holds of every instruction that the ledger carries out.

use vstd::prelude::*;
use crate::error::{LedgerError, TokenError};
use crate::instruction::InstructionView;
use crate::processor::{
    balance_fell, balance_rose, balances_conserved, burn_valid, mint_to_valid,
    owner_transfer_valid, rejected, spec_approve, spec_authorize_debit, spec_burn,
    spec_initialize_account, spec_initialize_mint, spec_mint_to, spec_process, spec_transfer,
    supply_changed,
};
use crate::record::{all_wf, RecordView};
use crate::state::{AccountView, MintView};

verus! {

/// A transfer from a record to itself is rejected as a self-transfer, whatever
/// the amount and whatever the records hold. A transfer that succeeds takes
/// exactly the amount from the source and adds exactly the amount to the
/// destination, so that the two balances together are what they were. And a
/// transfer of an amount that the source holds, between two accounts of one
/// mint and signed by the source's owner, succeeds wherever the destination
/// can hold the amount (and, where the owner is also the account's delegate,
/// the allowance covers it).
pub proof fn lemma_transfer(accounts: Seq<RecordView>, amount: u64)
    ensures
        accounts.len() >= 2 && accounts[0].key == accounts[1].key ==> spec_transfer(
            accounts,
            amount,
        ) == rejected(TokenError::SelfTransfer),
        owner_transfer_valid(accounts, amount) ==> spec_transfer(accounts, amount) is Ok,
        spec_transfer(accounts, amount) matches Ok(after) ==> after.len() == accounts.len()
            && balance_fell(accounts[0].data, after[0].data, amount) && balance_rose(
            accounts[1].data,
            after[1].data,
            amount,
        ) && balances_conserved(
            accounts[0].data,
            accounts[1].data,
            after[0].data,
            after[1].data,
        ),
{
    if spec_transfer(accounts, amount) is Ok {
        AccountView::lemma_unpack_wf(accounts[0].data);
        AccountView::lemma_unpack_wf(accounts[1].data);
        let source = AccountView::unpack(accounts[0].data)->Ok_0;
        let dest = AccountView::unpack(accounts[1].data)->Ok_0;
        let debited = spec_authorize_debit(source, accounts[2], amount)->Ok_0;
        (AccountView { amount: (source.amount - amount) as u64, ..debited }).lemma_round_trip();
        (AccountView { amount: (dest.amount + amount) as u64, ..dest }).lemma_round_trip();
    }
}

/// Minting that succeeds adds exactly the amount to the mint's supply and to
/// the destination's balance, and changes nothing else of either. Minting that
/// passes every check of the records and of the authority is rejected as an
/// overflow where the supply with the amount added is no 64-bit number.
pub proof fn lemma_mint_to(accounts: Seq<RecordView>, amount: u64)
    ensures
        spec_mint_to(accounts, amount) matches Ok(after) ==> after.len() == accounts.len()
            && supply_changed(accounts[0].data, after[0].data, amount as int) && balance_rose(
            accounts[1].data,
            after[1].data,
            amount,
        ),
        mint_to_valid(accounts) && MintView::unpack(accounts[0].data)->Ok_0.supply + amount
            > u64::MAX ==> spec_mint_to(accounts, amount) == rejected(TokenError::Overflow),
{
    if spec_mint_to(accounts, amount) is Ok {
        MintView::lemma_unpack_wf(accounts[0].data);
        AccountView::lemma_unpack_wf(accounts[1].data);
        let mint = MintView::unpack(accounts[0].data)->Ok_0;
        let dest = AccountView::unpack(accounts[1].data)->Ok_0;
        (MintView { supply: (mint.supply + amount) as u64, ..mint }).lemma_round_trip();
        (AccountView { amount: (dest.amount + amount) as u64, ..dest }).lemma_round_trip();
    }
}

/// Burning that succeeds takes exactly the amount from the mint's supply and
/// from the source's balance. Burning that passes every check of the source
/// and of the authority is rejected as an overflow where the amount is more
/// than the mint's supply.
pub proof fn lemma_burn(accounts: Seq<RecordView>, amount: u64)
    ensures
        spec_burn(accounts, amount) matches Ok(after) ==> after.len() == accounts.len()
            && supply_changed(accounts[1].data, after[1].data, -(amount as int)) && balance_fell(
            accounts[0].data,
            after[0].data,
            amount,
        ),
        burn_valid(accounts, amount) && MintView::unpack(accounts[1].data)->Ok_0.supply < amount
            ==> spec_burn(accounts, amount) == rejected(TokenError::Overflow),
{
    if spec_burn(accounts, amount) is Ok {
        MintView::lemma_unpack_wf(accounts[1].data);
        AccountView::lemma_unpack_wf(accounts[0].data);
        let mint = MintView::unpack(accounts[1].data)->Ok_0;
        let source = AccountView::unpack(accounts[0].data)->Ok_0;
        let debited = spec_authorize_debit(source, accounts[2], amount)->Ok_0;
        (MintView { supply: (mint.supply - amount) as u64, ..mint }).lemma_round_trip();
        (AccountView { amount: (source.amount - amount) as u64, ..debited }).lemma_round_trip();
    }
}

/// After an approval, a transfer that the delegate signs takes its amount off
/// the allowance. A transfer of exactly the allowance ends the delegation; a
/// transfer of less leaves the delegate in place with what is left of the
/// allowance. `approval` holds the handles of the approval (source, delegate,
/// owner), `transfer` those of the transfer (the source as the approval left
/// it, the destination, the delegate).
pub proof fn lemma_delegated_transfer(
    approval: Seq<RecordView>,
    allowance: u64,
    transfer: Seq<RecordView>,
    amount: u64,
    dest: AccountView,
)
    requires
        all_wf(approval),
        spec_approve(approval, allowance) matches Ok(approved) && transfer.len() >= 3
            && transfer[0] == approved[0],
        transfer[0].key != transfer[1].key,
        transfer[2].key == approval[1].key,
        transfer[2].is_signer,
        AccountView::unpack(transfer[1].data) == Ok::<AccountView, LedgerError>(dest),
        AccountView::unpack(approval[0].data) matches Ok(source) && amount <= source.amount
            && source.mint == dest.mint,
        amount <= allowance,
        dest.amount + amount <= u64::MAX,
    ensures
        spec_transfer(transfer, amount) matches Ok(after) && (AccountView::unpack(
            after[0].data,
        ) matches Ok(source_after) && (if amount == allowance {
            source_after.delegate is None
        } else {
            source_after.delegate == Some(approval[1].key) && source_after.delegated_amount
                == allowance - amount
        })),
{
    AccountView::lemma_unpack_wf(approval[0].data);
    AccountView::lemma_unpack_wf(transfer[1].data);
    let source = AccountView::unpack(approval[0].data)->Ok_0;
    let approved = AccountView {
        delegate: Some(approval[1].key),
        delegated_amount: allowance,
        ..source
    };
    approved.lemma_round_trip();
    let debited = spec_authorize_debit(approved, transfer[2], amount)->Ok_0;
    (AccountView { amount: (approved.amount - amount) as u64, ..debited }).lemma_round_trip();
}

/// A mint that is initialized is never initialized again.
pub proof fn lemma_mint_initialized_once(
    accounts: Seq<RecordView>,
    decimals: u8,
    mint_authority: Seq<u8>,
    exempt: bool,
)
    requires
        accounts.len() >= 2,
        MintView::unpack_unchecked(accounts[0].data) matches Ok(mint) && mint.is_initialized,
    ensures
        spec_initialize_mint(accounts, decimals, mint_authority, Some(exempt)) == rejected(
            TokenError::AlreadyInUse,
        ),
{
}

/// An account that is initialized is never initialized again.
pub proof fn lemma_account_initialized_once(accounts: Seq<RecordView>, exempt: bool)
    requires
        accounts.len() >= 4,
        AccountView::unpack_unchecked(accounts[0].data) matches Ok(account)
            && account.is_initialized(),
    ensures
        spec_initialize_account(accounts, Some(exempt)) == rejected(TokenError::AlreadyInUse),
{
}

/// An instruction that succeeds leaves every handle its address, its signer
/// flag, its balance and the length of its record, and changes the bytes of
/// the first two records at most.
pub proof fn lemma_process_frame(accounts: Seq<RecordView>, input: Seq<u8>)
    requires
        all_wf(accounts),
        spec_process(accounts, input) is Ok,
    ensures
        ({
            let after = spec_process(accounts, input)->Ok_0;
            &&& after.len() == accounts.len()
            &&& forall|i: int|
                0 <= i < accounts.len() ==> (#[trigger] after[i]).key == accounts[i].key
                    && after[i].is_signer == accounts[i].is_signer && after[i].lamports
                    == accounts[i].lamports && after[i].data.len() == accounts[i].data.len()
            &&& forall|i: int| 2 <= i < accounts.len() ==> #[trigger] after[i] == accounts[i]
        }),
{
    let after = spec_process(accounts, input)->Ok_0;
    MintView::lemma_unpack_wf(accounts[0].data);
    AccountView::lemma_unpack_wf(accounts[0].data);
    if accounts.len() >= 2 {
        MintView::lemma_unpack_wf(accounts[1].data);
        AccountView::lemma_unpack_wf(accounts[1].data);
    }
    lemma_packed_lengths();
}

/// An instruction that succeeds leaves every initialized account an
/// initialized account of the same mint and the same owner, and every
/// initialized mint an initialized mint with the same authority and the same
/// decimals.
pub proof fn lemma_initialized_stays(accounts: Seq<RecordView>, input: Seq<u8>, i: int)
    requires
        all_wf(accounts),
        spec_process(accounts, input) is Ok,
        0 <= i < accounts.len(),
    ensures
        ({
            let after = spec_process(accounts, input)->Ok_0;
            &&& AccountView::unpack(accounts[i].data) matches Ok(account) ==> (AccountView::unpack(
                after[i].data,
            ) matches Ok(account_after) && account_after.mint == account.mint
                && account_after.owner == account.owner)
            &&& MintView::unpack(accounts[i].data) matches Ok(mint) ==> (MintView::unpack(
                after[i].data,
            ) matches Ok(mint_after) && mint_after.mint_authority == mint.mint_authority
                && mint_after.decimals == mint.decimals)
        }),
{
    lemma_process_frame(accounts, input);
    match InstructionView::unpack(input)->Ok_0 {
        InstructionView::Transfer { amount } => {
            lemma_transfer(accounts, amount);
        },
        InstructionView::MintTo { amount } => {
            lemma_mint_to(accounts, amount);
        },
        InstructionView::Burn { amount } => {
            lemma_burn(accounts, amount);
        },
        InstructionView::Approve { amount } => {
            AccountView::lemma_unpack_wf(accounts[0].data);
            let source = AccountView::unpack(accounts[0].data)->Ok_0;
            (AccountView {
                delegate: Some(accounts[1].key),
                delegated_amount: amount,
                ..source
            }).lemma_round_trip();
        },
        _ => {},
    }
}

/// Every well-formed record has the length of its kind when encoded.
proof fn lemma_packed_lengths()
    ensures
        forall|mint: MintView| mint.wf() ==> (#[trigger] mint.pack()).len() == 46,
        forall|account: AccountView| account.wf() ==> (#[trigger] account.pack()).len() == 117,
{
    assert forall|mint: MintView| mint.wf() implies (#[trigger] mint.pack()).len() == 46 by {
        mint.lemma_pack_len();
    }
    assert forall|account: AccountView| account.wf() implies (#[trigger] account.pack()).len()
        == 117 by {
        account.lemma_pack_len();
    }
}

} // verus!
