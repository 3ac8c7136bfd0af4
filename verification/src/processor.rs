//! The state transitions of the ledger.

use vstd::prelude::*;
use crate::address::Address;
use crate::error::{LedgerError, TokenError};
use crate::instruction::{InstructionView, TokenInstruction};
use crate::laws::{lemma_burn, lemma_mint_to, lemma_transfer};
use crate::record::{views, RecordHandle, RecordView};
use crate::rent::{
    rate_fits, rent_is_exempt, rent_rate, rent_sysvar_id, sysvar_rent_exempt, sysvar_rent_rate,
};
use crate::state::{Account, AccountState, AccountView, Mint, MintView};

verus! {

/// What an instruction does to the records: the records after it, or the
/// reason for which it is rejected.
pub type Outcome = Result<Seq<RecordView>, LedgerError>;

/// The rejection by one of the ledger's own rules.
pub open spec fn rejected(e: TokenError) -> Outcome {
    Err(LedgerError::Token(e))
}

/// Whether the result of an executed instruction and the handles after it are
/// what `expected` says: on success the handles hold the new records, on
/// failure the error is the expected one and no handle has changed.
pub open spec fn agrees(
    r: Result<(), LedgerError>,
    before: Seq<RecordHandle>,
    after: Seq<RecordHandle>,
    expected: Outcome,
) -> bool {
    match r {
        Ok(()) => expected == Ok::<Seq<RecordView>, LedgerError>(views(after)),
        Err(e) => expected == Err::<Seq<RecordView>, LedgerError>(e) && after == before,
    }
}

/// The check of an authority against the address that is expected of it: the
/// handle must have that address, and must have signed.
pub open spec fn spec_validate_owner(expected: Seq<u8>, authority: RecordView) -> Result<
    (),
    LedgerError,
> {
    if expected != authority.key {
        Err(LedgerError::Token(TokenError::OwnerMismatch))
    } else if !authority.is_signer {
        Err(LedgerError::MissingRequiredSignature)
    } else {
        Ok(())
    }
}

/// The source account after `authority` has been accepted for taking `amount`
/// out of it. Where the authority is the account's delegate, it must have
/// signed and `amount` comes off its allowance, which ends the delegation when
/// it reaches 0. Any other authority must be the owner, and must have signed.
pub open spec fn spec_authorize_debit(
    source: AccountView,
    authority: RecordView,
    amount: u64,
) -> Result<AccountView, LedgerError> {
    if source.delegate == Some(authority.key) {
        if !authority.is_signer {
            Err(LedgerError::MissingRequiredSignature)
        } else if source.delegated_amount < amount {
            Err(LedgerError::Token(TokenError::InsufficientFunds))
        } else {
            Ok(
                AccountView {
                    delegated_amount: (source.delegated_amount - amount) as u64,
                    delegate: if source.delegated_amount == amount {
                        None
                    } else {
                        source.delegate
                    },
                    ..source
                },
            )
        }
    } else {
        match spec_validate_owner(source.owner, authority) {
            Err(e) => Err(e),
            Ok(()) => Ok(source),
        }
    }
}

/// Transfer, on the handles of the source, the destination and the authority.
pub open spec fn spec_transfer(accounts: Seq<RecordView>, amount: u64) -> Outcome {
    if accounts.len() < 2 {
        Err(LedgerError::NotEnoughAccountKeys)
    } else if accounts[0].key == accounts[1].key {
        rejected(TokenError::SelfTransfer)
    } else if accounts.len() < 3 {
        Err(LedgerError::NotEnoughAccountKeys)
    } else {
        match (AccountView::unpack(accounts[0].data), AccountView::unpack(accounts[1].data)) {
            (Err(e), _) => Err(e),
            (Ok(_), Err(e)) => Err(e),
            (Ok(source), Ok(dest)) => if source.amount < amount {
                rejected(TokenError::InsufficientFunds)
            } else if source.mint != dest.mint {
                rejected(TokenError::MintMismatch)
            } else {
                match spec_authorize_debit(source, accounts[2], amount) {
                    Err(e) => Err(e),
                    Ok(debited) => if dest.amount + amount > u64::MAX {
                        rejected(TokenError::Overflow)
                    } else {
                        let source_after = AccountView {
                            amount: (source.amount - amount) as u64,
                            ..debited
                        };
                        let dest_after = AccountView {
                            amount: (dest.amount + amount) as u64,
                            ..dest
                        };
                        Ok(
                            accounts.update(0, accounts[0].with_data(source_after.pack())).update(
                                1,
                                accounts[1].with_data(dest_after.pack()),
                            ),
                        )
                    },
                }
            },
        }
    }
}

/// Approve, on the handles of the source, the delegate and the owner. The new
/// allowance replaces any earlier delegation.
pub open spec fn spec_approve(accounts: Seq<RecordView>, amount: u64) -> Outcome {
    if accounts.len() < 3 {
        Err(LedgerError::NotEnoughAccountKeys)
    } else {
        match AccountView::unpack(accounts[0].data) {
            Err(e) => Err(e),
            Ok(source) => match spec_validate_owner(source.owner, accounts[2]) {
                Err(e) => Err(e),
                Ok(()) => {
                    let source_after = AccountView {
                        delegate: Some(accounts[1].key),
                        delegated_amount: amount,
                        ..source
                    };
                    Ok(accounts.update(0, accounts[0].with_data(source_after.pack())))
                },
            },
        }
    }
}

/// MintTo, on the handles of the mint, the destination and the mint's
/// authority.
pub open spec fn spec_mint_to(accounts: Seq<RecordView>, amount: u64) -> Outcome {
    if accounts.len() < 3 {
        Err(LedgerError::NotEnoughAccountKeys)
    } else {
        match AccountView::unpack(accounts[1].data) {
            Err(e) => Err(e),
            Ok(dest) => if accounts[0].key != dest.mint {
                rejected(TokenError::MintMismatch)
            } else {
                match MintView::unpack(accounts[0].data) {
                    Err(e) => Err(e),
                    Ok(mint) => match mint.mint_authority {
                        None => rejected(TokenError::FixedSupply),
                        Some(mint_authority) => match spec_validate_owner(
                            mint_authority,
                            accounts[2],
                        ) {
                            Err(e) => Err(e),
                            Ok(()) => if dest.amount + amount > u64::MAX || mint.supply + amount
                                > u64::MAX {
                                rejected(TokenError::Overflow)
                            } else {
                                let dest_after = AccountView {
                                    amount: (dest.amount + amount) as u64,
                                    ..dest
                                };
                                let mint_after = MintView {
                                    supply: (mint.supply + amount) as u64,
                                    ..mint
                                };
                                Ok(
                                    accounts.update(
                                        1,
                                        accounts[1].with_data(dest_after.pack()),
                                    ).update(0, accounts[0].with_data(mint_after.pack())),
                                )
                            },
                        },
                    },
                }
            },
        }
    }
}

/// Burn, on the handles of the source, the mint and the authority.
pub open spec fn spec_burn(accounts: Seq<RecordView>, amount: u64) -> Outcome {
    if accounts.len() < 3 {
        Err(LedgerError::NotEnoughAccountKeys)
    } else {
        match AccountView::unpack(accounts[0].data) {
            Err(e) => Err(e),
            Ok(source) => if source.amount < amount {
                rejected(TokenError::InsufficientFunds)
            } else if accounts[1].key != source.mint {
                rejected(TokenError::MintMismatch)
            } else {
                match spec_authorize_debit(source, accounts[2], amount) {
                    Err(e) => Err(e),
                    Ok(debited) => match MintView::unpack(accounts[1].data) {
                        Err(e) => Err(e),
                        Ok(mint) => if mint.supply < amount {
                            rejected(TokenError::Overflow)
                        } else {
                            let source_after = AccountView {
                                amount: (source.amount - amount) as u64,
                                ..debited
                            };
                            let mint_after = MintView {
                                supply: (mint.supply - amount) as u64,
                                ..mint
                            };
                            Ok(
                                accounts.update(
                                    0,
                                    accounts[0].with_data(source_after.pack()),
                                ).update(1, accounts[1].with_data(mint_after.pack())),
                            )
                        },
                    },
                }
            },
        }
    }
}

/// InitializeMint, on the handles of the mint and the rent sysvar. `rent` is
/// what the sysvar says of the mint's record: `None` where the second handle
/// holds no rent, else whether the record's balance exempts it from rent.
pub open spec fn spec_initialize_mint(
    accounts: Seq<RecordView>,
    decimals: u8,
    mint_authority: Seq<u8>,
    rent: Option<bool>,
) -> Outcome {
    if accounts.len() < 2 {
        Err(LedgerError::NotEnoughAccountKeys)
    } else {
        match rent {
            None => Err(LedgerError::InvalidArgument),
            Some(exempt) => match MintView::unpack_unchecked(accounts[0].data) {
                Err(e) => Err(e),
                Ok(mint) => if mint.is_initialized {
                    rejected(TokenError::AlreadyInUse)
                } else if !exempt {
                    rejected(TokenError::NotRentExempt)
                } else {
                    let mint_after = MintView {
                        mint_authority: Some(mint_authority),
                        decimals,
                        is_initialized: true,
                        ..mint
                    };
                    Ok(accounts.update(0, accounts[0].with_data(mint_after.pack())))
                },
            },
        }
    }
}

/// InitializeAccount, on the handles of the account, its mint, its owner and
/// the rent sysvar. `rent` is what the sysvar says of the account's record.
pub open spec fn spec_initialize_account(accounts: Seq<RecordView>, rent: Option<bool>) -> Outcome {
    if accounts.len() < 4 {
        Err(LedgerError::NotEnoughAccountKeys)
    } else {
        match rent {
            None => Err(LedgerError::InvalidArgument),
            Some(exempt) => match AccountView::unpack_unchecked(accounts[0].data) {
                Err(e) => Err(e),
                Ok(account) => if account.is_initialized() {
                    rejected(TokenError::AlreadyInUse)
                } else if !exempt {
                    rejected(TokenError::NotRentExempt)
                } else if MintView::unpack(accounts[1].data) is Err {
                    rejected(TokenError::InvalidMint)
                } else {
                    let account_after = AccountView {
                        mint: accounts[1].key,
                        owner: accounts[2].key,
                        amount: 0,
                        delegate: None,
                        delegated_amount: 0,
                        state: AccountState::Initialized,
                    };
                    Ok(accounts.update(0, accounts[0].with_data(account_after.pack())))
                },
            },
        }
    }
}

/// What the rent sysvar in `sysvar` says of `record`: `None` where the handle
/// holds no rent, else whether the record's balance exempts its bytes from
/// rent.
pub open spec fn rent_answer(sysvar: RecordView, record: RecordView) -> Option<bool> {
    match sysvar_rent_rate(sysvar.key, sysvar.data) {
        None => None,
        Some(_) => Some(
            sysvar_rent_exempt(
                sysvar.key,
                sysvar.data,
                record.lamports,
                record.data.len() as usize,
            ),
        ),
    }
}

/// Whether the rent of `record` can be computed from the rent in `sysvar`.
pub open spec fn rent_computable(sysvar: RecordView, record: RecordView) -> bool {
    sysvar_rent_rate(sysvar.key, sysvar.data) matches Some(rate) && rate_fits(
        rate,
        record.data.len() as usize,
    )
}

/// Whether InitializeMint on these handles comes to ask for the rent: there is
/// a second handle and it holds a rent, and the first is a mint that is not
/// initialized.
pub open spec fn mint_rent_due(accounts: Seq<RecordView>) -> bool {
    &&& accounts.len() >= 2
    &&& sysvar_rent_rate(accounts[1].key, accounts[1].data) is Some
    &&& MintView::unpack_unchecked(accounts[0].data) matches Ok(mint) && !mint.is_initialized
}

/// Whether InitializeAccount on these handles comes to ask for the rent.
pub open spec fn account_rent_due(accounts: Seq<RecordView>) -> bool {
    &&& accounts.len() >= 4
    &&& sysvar_rent_rate(accounts[3].key, accounts[3].data) is Some
    &&& AccountView::unpack_unchecked(accounts[0].data) matches Ok(account)
        && !account.is_initialized()
}

/// Whether every rent that the instruction in `input` asks for on these
/// handles can be computed.
pub open spec fn rent_in_range(accounts: Seq<RecordView>, input: Seq<u8>) -> bool {
    match InstructionView::unpack(input) {
        Ok(InstructionView::InitializeMint { .. }) => mint_rent_due(accounts) ==> rent_computable(
            accounts[1],
            accounts[0],
        ),
        Ok(InstructionView::InitializeAccount) => account_rent_due(accounts) ==> rent_computable(
            accounts[3],
            accounts[0],
        ),
        _ => true,
    }
}

/// What the instruction in `input` does to the records.
pub open spec fn spec_process(accounts: Seq<RecordView>, input: Seq<u8>) -> Outcome {
    match InstructionView::unpack(input) {
        Err(e) => Err(e),
        Ok(InstructionView::InitializeMint { decimals, mint_authority }) => spec_initialize_mint(
            accounts,
            decimals,
            mint_authority,
            if accounts.len() >= 2 {
                rent_answer(accounts[1], accounts[0])
            } else {
                None
            },
        ),
        Ok(InstructionView::InitializeAccount) => spec_initialize_account(
            accounts,
            if accounts.len() >= 4 {
                rent_answer(accounts[3], accounts[0])
            } else {
                None
            },
        ),
        Ok(InstructionView::Transfer { amount }) => spec_transfer(accounts, amount),
        Ok(InstructionView::Approve { amount }) => spec_approve(accounts, amount),
        Ok(InstructionView::MintTo { amount }) => spec_mint_to(accounts, amount),
        Ok(InstructionView::Burn { amount }) => spec_burn(accounts, amount),
    }
}

/// Whether the account that `after` encodes holds `amount` less than the
/// account that `before` encodes.
pub open spec fn balance_fell(before: Seq<u8>, after: Seq<u8>, amount: u64) -> bool {
    AccountView::unpack(before) matches Ok(b) && (AccountView::unpack(after) matches Ok(a)
        && a.amount == b.amount - amount)
}

/// Whether the account that `after` encodes holds `amount` more than the
/// account that `before` encodes, and is the same in everything else.
pub open spec fn balance_rose(before: Seq<u8>, after: Seq<u8>, amount: u64) -> bool {
    AccountView::unpack(before) matches Ok(b) && b.amount + amount <= u64::MAX
        && AccountView::unpack(after) == Ok::<AccountView, LedgerError>(
        AccountView { amount: (b.amount + amount) as u64, ..b },
    )
}

/// Whether the source and the destination hold together after a transfer what
/// they held before it.
pub open spec fn balances_conserved(
    source_before: Seq<u8>,
    dest_before: Seq<u8>,
    source_after: Seq<u8>,
    dest_after: Seq<u8>,
) -> bool {
    AccountView::unpack(source_before)->Ok_0.amount + AccountView::unpack(dest_before)->Ok_0.amount
        == AccountView::unpack(source_after)->Ok_0.amount + AccountView::unpack(
        dest_after,
    )->Ok_0.amount
}

/// Whether the mint that `after` encodes is the mint that `before` encodes
/// with `change` added to its supply.
pub open spec fn supply_changed(before: Seq<u8>, after: Seq<u8>, change: int) -> bool {
    MintView::unpack(before) matches Ok(b) && 0 <= b.supply + change <= u64::MAX
        && MintView::unpack(after) == Ok::<MintView, LedgerError>(
        MintView { supply: (b.supply + change) as u64, ..b },
    )
}

/// The transfers that the owner of the source signs and that are owed
/// success: the source holds the amount, both accounts are of one mint, and
/// the destination can hold the amount. Where the owner is also the account's
/// delegate, the amount must be within the allowance.
pub open spec fn owner_transfer_valid(accounts: Seq<RecordView>, amount: u64) -> bool {
    &&& accounts.len() >= 3
    &&& accounts[0].key != accounts[1].key
    &&& AccountView::unpack(accounts[0].data) matches Ok(source) && (AccountView::unpack(
        accounts[1].data,
    ) matches Ok(dest) && amount <= source.amount && source.mint == dest.mint && accounts[2].key
        == source.owner && accounts[2].is_signer && dest.amount + amount <= u64::MAX && (
    source.delegate == Some(source.owner) ==> amount <= source.delegated_amount))
}

/// The mintings that pass every check of the records and of the authority.
pub open spec fn mint_to_valid(accounts: Seq<RecordView>) -> bool {
    &&& accounts.len() >= 3
    &&& AccountView::unpack(accounts[1].data) matches Ok(dest) && accounts[0].key == dest.mint
    &&& MintView::unpack(accounts[0].data) matches Ok(mint) && mint.mint_authority == Some(
        accounts[2].key,
    )
    &&& accounts[2].is_signer
}

/// The burnings that pass every check of the source and of the authority, and
/// find a mint.
pub open spec fn burn_valid(accounts: Seq<RecordView>, amount: u64) -> bool {
    &&& accounts.len() >= 3
    &&& AccountView::unpack(accounts[0].data) matches Ok(source) && amount <= source.amount
        && accounts[1].key == source.mint && spec_authorize_debit(source, accounts[2], amount) is Ok
    &&& MintView::unpack(accounts[1].data) is Ok
}

/// The processor of instructions.
pub struct Processor {}

impl Processor {
    /// Checks an authority against the address that is expected of it.
    pub fn validate_owner(expected_owner: &Address, owner_account_info: &RecordHandle) -> (r:
        Result<(), LedgerError>)
        ensures
            r == spec_validate_owner(expected_owner@, owner_account_info@),
    {
        if !expected_owner.same(&owner_account_info.key) {
            return Err(LedgerError::Token(TokenError::OwnerMismatch));
        }
        if !owner_account_info.is_signer {
            return Err(LedgerError::MissingRequiredSignature);
        }
        Ok(())
    }

    /// Accepts or refuses `authority_info` for taking `amount` out of
    /// `source_account`, and takes the amount off the delegate's allowance where
    /// the authority is the delegate.
    pub fn authorize_debit(
        source_account: Account,
        authority_info: &RecordHandle,
        amount: u64,
    ) -> (r: Result<Account, LedgerError>)
        ensures
            r matches Ok(debited) ==> spec_authorize_debit(
                source_account@,
                authority_info@,
                amount,
            ) == Ok::<AccountView, LedgerError>(debited@),
            r matches Err(e) ==> spec_authorize_debit(source_account@, authority_info@, amount)
                == Err::<AccountView, LedgerError>(e),
    {
        let mut source_account = source_account;
        let by_delegate = match &source_account.delegate {
            Some(delegate) => authority_info.key.same(delegate),
            None => false,
        };
        if by_delegate {
            if !authority_info.is_signer {
                return Err(LedgerError::MissingRequiredSignature);
            }
            if source_account.delegated_amount < amount {
                return Err(LedgerError::Token(TokenError::InsufficientFunds));
            }
            source_account.delegated_amount = match source_account.delegated_amount.checked_sub(
                amount,
            ) {
                Some(left) => left,
                None => { return Err(LedgerError::Token(TokenError::Overflow)); },
            };
            if source_account.delegated_amount == 0 {
                source_account.delegate = None;
            }
            Ok(source_account)
        } else {
            match Self::validate_owner(&source_account.owner, authority_info) {
                Ok(()) => Ok(source_account),
                Err(e) => Err(e),
            }
        }
    }

    /// Moves `amount` from the first record to the second, on the authority of
    /// the third.
    pub fn process_transfer(accounts: &mut [RecordHandle], amount: u64) -> (r: Result<
        (),
        LedgerError,
    >)
        ensures
            agrees(r, old(accounts)@, final(accounts)@, spec_transfer(views(old(accounts)@), amount)),
            old(accounts)@.len() >= 2 && old(accounts)@[0].key@ == old(accounts)@[1].key@ ==> r
                == Err::<(), LedgerError>(LedgerError::Token(TokenError::SelfTransfer)),
            owner_transfer_valid(views(old(accounts)@), amount) ==> r is Ok,
            r is Ok ==> balance_fell(old(accounts)@[0].data@, final(accounts)@[0].data@, amount)
                && balance_rose(old(accounts)@[1].data@, final(accounts)@[1].data@, amount)
                && balances_conserved(
                old(accounts)@[0].data@,
                old(accounts)@[1].data@,
                final(accounts)@[0].data@,
                final(accounts)@[1].data@,
            ),
    {
        proof {
            lemma_transfer(views(old(accounts)@), amount);
        }
        let n = accounts.len();
        if n < 2 {
            return Err(LedgerError::NotEnoughAccountKeys);
        }
        if accounts[0].key.same(&accounts[1].key) {
            return Err(LedgerError::Token(TokenError::SelfTransfer));
        }
        if n < 3 {
            return Err(LedgerError::NotEnoughAccountKeys);
        }
        let source_account = match Account::unpack(accounts[0].data.as_slice()) {
            Ok(account) => account,
            Err(e) => { return Err(e); },
        };
        let mut dest_account = match Account::unpack(accounts[1].data.as_slice()) {
            Ok(account) => account,
            Err(e) => { return Err(e); },
        };
        if source_account.amount < amount {
            return Err(LedgerError::Token(TokenError::InsufficientFunds));
        }
        if !source_account.mint.same(&dest_account.mint) {
            return Err(LedgerError::Token(TokenError::MintMismatch));
        }
        let mut source_account = match Self::authorize_debit(source_account, &accounts[2], amount) {
            Ok(account) => account,
            Err(e) => { return Err(e); },
        };
        source_account.amount = match source_account.amount.checked_sub(amount) {
            Some(left) => left,
            None => { return Err(LedgerError::Token(TokenError::Overflow)); },
        };
        dest_account.amount = match dest_account.amount.checked_add(amount) {
            Some(sum) => sum,
            None => { return Err(LedgerError::Token(TokenError::Overflow)); },
        };
        match Account::pack(source_account, accounts[0].data.as_mut_slice()) {
            Ok(()) => {},
            Err(e) => { return Err(e); },
        }
        match Account::pack(dest_account, accounts[1].data.as_mut_slice()) {
            Ok(()) => {},
            Err(e) => { return Err(e); },
        }
        assert(views(accounts@) =~= spec_transfer(views(old(accounts)@), amount)->Ok_0);
        Ok(())
    }
    /// Lets the second record's address move up to `amount` from the first
    /// record, on the authority of the third.
    pub fn process_approve(accounts: &mut [RecordHandle], amount: u64) -> (r: Result<
        (),
        LedgerError,
    >)
        ensures
            agrees(r, old(accounts)@, final(accounts)@, spec_approve(views(old(accounts)@), amount)),
    {
        if accounts.len() < 3 {
            return Err(LedgerError::NotEnoughAccountKeys);
        }
        let mut source_account = match Account::unpack(accounts[0].data.as_slice()) {
            Ok(account) => account,
            Err(e) => { return Err(e); },
        };
        match Self::validate_owner(&source_account.owner, &accounts[2]) {
            Ok(()) => {},
            Err(e) => { return Err(e); },
        }
        source_account.delegate = Some(accounts[1].key);
        source_account.delegated_amount = amount;
        match Account::pack(source_account, accounts[0].data.as_mut_slice()) {
            Ok(()) => {},
            Err(e) => { return Err(e); },
        }
        assert(views(accounts@) =~= spec_approve(views(old(accounts)@), amount)->Ok_0);
        Ok(())
    }

    /// Creates `amount` new units of the mint in the first record and puts
    /// them into the second, on the authority of the third.
    pub fn process_mint_to(accounts: &mut [RecordHandle], amount: u64) -> (r: Result<
        (),
        LedgerError,
    >)
        ensures
            agrees(r, old(accounts)@, final(accounts)@, spec_mint_to(views(old(accounts)@), amount)),
            r is Ok ==> supply_changed(
                old(accounts)@[0].data@,
                final(accounts)@[0].data@,
                amount as int,
            ) && balance_rose(old(accounts)@[1].data@, final(accounts)@[1].data@, amount),
            mint_to_valid(views(old(accounts)@)) && MintView::unpack(
                old(accounts)@[0].data@,
            )->Ok_0.supply + amount > u64::MAX ==> r == Err::<(), LedgerError>(
                LedgerError::Token(TokenError::Overflow),
            ),
    {
        proof {
            lemma_mint_to(views(old(accounts)@), amount);
        }
        if accounts.len() < 3 {
            return Err(LedgerError::NotEnoughAccountKeys);
        }
        let mut dest_account = match Account::unpack(accounts[1].data.as_slice()) {
            Ok(account) => account,
            Err(e) => { return Err(e); },
        };
        if !accounts[0].key.same(&dest_account.mint) {
            return Err(LedgerError::Token(TokenError::MintMismatch));
        }
        let mut mint = match Mint::unpack(accounts[0].data.as_slice()) {
            Ok(mint) => mint,
            Err(e) => { return Err(e); },
        };
        match &mint.mint_authority {
            Some(mint_authority) => match Self::validate_owner(mint_authority, &accounts[2]) {
                Ok(()) => {},
                Err(e) => { return Err(e); },
            },
            None => { return Err(LedgerError::Token(TokenError::FixedSupply)); },
        }
        dest_account.amount = match dest_account.amount.checked_add(amount) {
            Some(sum) => sum,
            None => { return Err(LedgerError::Token(TokenError::Overflow)); },
        };
        mint.supply = match mint.supply.checked_add(amount) {
            Some(sum) => sum,
            None => { return Err(LedgerError::Token(TokenError::Overflow)); },
        };
        match Account::pack(dest_account, accounts[1].data.as_mut_slice()) {
            Ok(()) => {},
            Err(e) => { return Err(e); },
        }
        match Mint::pack(mint, accounts[0].data.as_mut_slice()) {
            Ok(()) => {},
            Err(e) => { return Err(e); },
        }
        assert(views(accounts@) =~= spec_mint_to(views(old(accounts)@), amount)->Ok_0);
        Ok(())
    }

    /// Destroys `amount` units of the first record, which belong to the mint in
    /// the second, on the authority of the third.
    pub fn process_burn(accounts: &mut [RecordHandle], amount: u64) -> (r: Result<(), LedgerError>)
        ensures
            agrees(r, old(accounts)@, final(accounts)@, spec_burn(views(old(accounts)@), amount)),
            r is Ok ==> supply_changed(
                old(accounts)@[1].data@,
                final(accounts)@[1].data@,
                -(amount as int),
            ) && balance_fell(old(accounts)@[0].data@, final(accounts)@[0].data@, amount),
            burn_valid(views(old(accounts)@), amount) && MintView::unpack(
                old(accounts)@[1].data@,
            )->Ok_0.supply < amount ==> r == Err::<(), LedgerError>(
                LedgerError::Token(TokenError::Overflow),
            ),
    {
        proof {
            lemma_burn(views(old(accounts)@), amount);
        }
        if accounts.len() < 3 {
            return Err(LedgerError::NotEnoughAccountKeys);
        }
        let source_account = match Account::unpack(accounts[0].data.as_slice()) {
            Ok(account) => account,
            Err(e) => { return Err(e); },
        };
        if source_account.amount < amount {
            return Err(LedgerError::Token(TokenError::InsufficientFunds));
        }
        if !accounts[1].key.same(&source_account.mint) {
            return Err(LedgerError::Token(TokenError::MintMismatch));
        }
        let mut source_account = match Self::authorize_debit(source_account, &accounts[2], amount) {
            Ok(account) => account,
            Err(e) => { return Err(e); },
        };
        source_account.amount = match source_account.amount.checked_sub(amount) {
            Some(left) => left,
            None => { return Err(LedgerError::Token(TokenError::Overflow)); },
        };
        let mut mint = match Mint::unpack(accounts[1].data.as_slice()) {
            Ok(mint) => mint,
            Err(e) => { return Err(e); },
        };
        mint.supply = match mint.supply.checked_sub(amount) {
            Some(left) => left,
            None => { return Err(LedgerError::Token(TokenError::Overflow)); },
        };
        match Account::pack(source_account, accounts[0].data.as_mut_slice()) {
            Ok(()) => {},
            Err(e) => { return Err(e); },
        }
        match Mint::pack(mint, accounts[1].data.as_mut_slice()) {
            Ok(()) => {},
            Err(e) => { return Err(e); },
        }
        assert(views(accounts@) =~= spec_burn(views(old(accounts)@), amount)->Ok_0);
        Ok(())
    }

    /// Initializes the mint in the first record, given what the rent sysvar in
    /// the second says of that record.
    pub fn initialize_mint(
        accounts: &mut [RecordHandle],
        decimals: u8,
        mint_authority: Address,
        rent: Option<bool>,
    ) -> (r: Result<(), LedgerError>)
        ensures
            agrees(
                r,
                old(accounts)@,
                final(accounts)@,
                spec_initialize_mint(views(old(accounts)@), decimals, mint_authority@, rent),
            ),
    {
        if accounts.len() < 2 {
            return Err(LedgerError::NotEnoughAccountKeys);
        }
        let exempt = match rent {
            Some(exempt) => exempt,
            None => { return Err(LedgerError::InvalidArgument); },
        };
        let mut mint = match Mint::unpack_unchecked(accounts[0].data.as_slice()) {
            Ok(mint) => mint,
            Err(e) => { return Err(e); },
        };
        if mint.is_initialized {
            return Err(LedgerError::Token(TokenError::AlreadyInUse));
        }
        if !exempt {
            return Err(LedgerError::Token(TokenError::NotRentExempt));
        }
        mint.mint_authority = Some(mint_authority);
        mint.decimals = decimals;
        mint.is_initialized = true;
        match Mint::pack(mint, accounts[0].data.as_mut_slice()) {
            Ok(()) => {},
            Err(e) => { return Err(e); },
        }
        assert(views(accounts@) =~= spec_initialize_mint(
            views(old(accounts)@),
            decimals,
            mint_authority@,
            rent,
        )->Ok_0);
        Ok(())
    }

    /// Initializes the account in the first record for the mint in the second
    /// and the owner in the third, given what the rent sysvar in the fourth
    /// says of the first record.
    pub fn initialize_account(accounts: &mut [RecordHandle], rent: Option<bool>) -> (r: Result<
        (),
        LedgerError,
    >)
        ensures
            agrees(
                r,
                old(accounts)@,
                final(accounts)@,
                spec_initialize_account(views(old(accounts)@), rent),
            ),
    {
        if accounts.len() < 4 {
            return Err(LedgerError::NotEnoughAccountKeys);
        }
        let exempt = match rent {
            Some(exempt) => exempt,
            None => { return Err(LedgerError::InvalidArgument); },
        };
        let mut account = match Account::unpack_unchecked(accounts[0].data.as_slice()) {
            Ok(account) => account,
            Err(e) => { return Err(e); },
        };
        if account.is_initialized() {
            return Err(LedgerError::Token(TokenError::AlreadyInUse));
        }
        if !exempt {
            return Err(LedgerError::Token(TokenError::NotRentExempt));
        }
        match Mint::unpack(accounts[1].data.as_slice()) {
            Ok(_) => {},
            Err(_) => { return Err(LedgerError::Token(TokenError::InvalidMint)); },
        }
        account.mint = accounts[1].key;
        account.owner = accounts[2].key;
        account.delegate = None;
        account.delegated_amount = 0;
        account.state = AccountState::Initialized;
        account.amount = 0;
        match Account::pack(account, accounts[0].data.as_mut_slice()) {
            Ok(()) => {},
            Err(e) => { return Err(e); },
        }
        assert(views(accounts@) =~= spec_initialize_account(views(old(accounts)@), rent)->Ok_0);
        Ok(())
    }
    /// Whether the yearly rent of `data_len` bytes at `rate` is a 64-bit number.
    pub fn rate_in_range(rate: u64, data_len: usize) -> (b: bool)
        ensures
            b == rate_fits(rate, data_len),
    {
        let len = data_len as u64;
        match len.checked_add(crate::rent::ACCOUNT_STORAGE_OVERHEAD) {
            None => false,
            Some(total) => total.checked_mul(rate).is_some(),
        }
    }

    /// Initializes the mint in the first record, if the rent sysvar in the
    /// second says that the record is exempt from rent.
    pub fn process_initialize_mint(
        accounts: &mut [RecordHandle],
        decimals: u8,
        mint_authority: Address,
    ) -> (r: Result<(), LedgerError>)
        requires
            mint_rent_due(views(old(accounts)@)) ==> rent_computable(
                old(accounts)@[1]@,
                old(accounts)@[0]@,
            ),
        ensures
            agrees(
                r,
                old(accounts)@,
                final(accounts)@,
                spec_initialize_mint(
                    views(old(accounts)@),
                    decimals,
                    mint_authority@,
                    if old(accounts)@.len() >= 2 {
                        rent_answer(old(accounts)@[1]@, old(accounts)@[0]@)
                    } else {
                        None
                    },
                ),
            ),
            old(accounts)@.len() >= 2 && old(accounts)@[1].key@ != rent_sysvar_id() ==> r == Err::<
                (),
                LedgerError,
            >(LedgerError::InvalidArgument),
    {
        if accounts.len() < 2 {
            return Err(LedgerError::NotEnoughAccountKeys);
        }
        if rent_rate(&accounts[1].key, accounts[1].data.as_slice()).is_none() {
            return Err(LedgerError::InvalidArgument);
        }
        let mint = match Mint::unpack_unchecked(accounts[0].data.as_slice()) {
            Ok(mint) => mint,
            Err(e) => { return Err(e); },
        };
        if mint.is_initialized {
            return Err(LedgerError::Token(TokenError::AlreadyInUse));
        }
        let exempt = rent_is_exempt(
            &accounts[1].key,
            accounts[1].data.as_slice(),
            accounts[0].lamports,
            accounts[0].data.len(),
        );
        Self::initialize_mint(accounts, decimals, mint_authority, Some(exempt))
    }

    /// Initializes the account in the first record for the mint in the second
    /// and the owner in the third, if the rent sysvar in the fourth says that
    /// the record is exempt from rent.
    pub fn process_initialize_account(accounts: &mut [RecordHandle]) -> (r: Result<
        (),
        LedgerError,
    >)
        requires
            account_rent_due(views(old(accounts)@)) ==> rent_computable(
                old(accounts)@[3]@,
                old(accounts)@[0]@,
            ),
        ensures
            agrees(
                r,
                old(accounts)@,
                final(accounts)@,
                spec_initialize_account(
                    views(old(accounts)@),
                    if old(accounts)@.len() >= 4 {
                        rent_answer(old(accounts)@[3]@, old(accounts)@[0]@)
                    } else {
                        None
                    },
                ),
            ),
            old(accounts)@.len() >= 4 && old(accounts)@[3].key@ != rent_sysvar_id() ==> r == Err::<
                (),
                LedgerError,
            >(LedgerError::InvalidArgument),
    {
        if accounts.len() < 4 {
            return Err(LedgerError::NotEnoughAccountKeys);
        }
        if rent_rate(&accounts[3].key, accounts[3].data.as_slice()).is_none() {
            return Err(LedgerError::InvalidArgument);
        }
        let account = match Account::unpack_unchecked(accounts[0].data.as_slice()) {
            Ok(account) => account,
            Err(e) => { return Err(e); },
        };
        if account.is_initialized() {
            return Err(LedgerError::Token(TokenError::AlreadyInUse));
        }
        let exempt = rent_is_exempt(
            &accounts[3].key,
            accounts[3].data.as_slice(),
            accounts[0].lamports,
            accounts[0].data.len(),
        );
        Self::initialize_account(accounts, Some(exempt))
    }

    /// Decodes the instruction in `input` and carries it out on the records
    /// behind `accounts`. On an error no record has changed.
    pub fn process(_program_id: &Address, accounts: &mut [RecordHandle], input: &[u8]) -> (r:
        Result<(), LedgerError>)
        requires
            rent_in_range(views(old(accounts)@), input@),
        ensures
            agrees(r, old(accounts)@, final(accounts)@, spec_process(views(old(accounts)@), input@)),
    {
        let instruction = match TokenInstruction::unpack(input) {
            Ok(instruction) => instruction,
            Err(e) => { return Err(e); },
        };
        match instruction {
            TokenInstruction::InitializeMint { decimals, mint_authority } => {
                Self::process_initialize_mint(accounts, decimals, mint_authority)
            },
            TokenInstruction::InitializeAccount => Self::process_initialize_account(accounts),
            TokenInstruction::Transfer { amount } => Self::process_transfer(accounts, amount),
            TokenInstruction::Approve { amount } => Self::process_approve(accounts, amount),
            TokenInstruction::MintTo { amount } => Self::process_mint_to(accounts, amount),
            TokenInstruction::Burn { amount } => Self::process_burn(accounts, amount),
        }
    }

    /// Whether the rent that the instruction in `input` asks for on these
    /// handles, if it asks for one, can be computed.
    pub fn rent_is_in_range(accounts: &[RecordHandle], input: &[u8]) -> (b: bool)
        ensures
            b == rent_in_range(views(accounts@), input@),
    {
        let (sysvar, for_account): (usize, bool) = match TokenInstruction::unpack(input) {
            Ok(TokenInstruction::InitializeMint { .. }) => (1, false),
            Ok(TokenInstruction::InitializeAccount) => (3, true),
            _ => { return true; },
        };
        if accounts.len() <= sysvar {
            return true;
        }
        let rate = match rent_rate(&accounts[sysvar].key, accounts[sysvar].data.as_slice()) {
            Some(rate) => rate,
            None => { return true; },
        };
        let due = if for_account {
            match Account::unpack_unchecked(accounts[0].data.as_slice()) {
                Ok(account) => !account.is_initialized(),
                Err(_) => false,
            }
        } else {
            match Mint::unpack_unchecked(accounts[0].data.as_slice()) {
                Ok(mint) => !mint.is_initialized,
                Err(_) => false,
            }
        };
        !due || Self::rate_in_range(rate, accounts[0].data.len())
    }

    /// Carries out the instruction in `input` as `process` does, wherever the
    /// rent that it asks for can be computed. Where it cannot, the answer is
    /// `None` and no record has changed.
    pub fn try_process(program_id: &Address, accounts: &mut [RecordHandle], input: &[u8]) -> (r:
        Option<Result<(), LedgerError>>)
        ensures
            r is None <==> !rent_in_range(views(old(accounts)@), input@),
            r is None ==> final(accounts)@ == old(accounts)@,
            r matches Some(result) ==> agrees(
                result,
                old(accounts)@,
                final(accounts)@,
                spec_process(views(old(accounts)@), input@),
            ),
    {
        if Self::rent_is_in_range(accounts, input) {
            Some(Self::process(program_id, accounts, input))
        } else {
            None
        }
    }
}

} // verus!
