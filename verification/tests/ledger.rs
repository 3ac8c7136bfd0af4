use solana_program::account_info::AccountInfo;
use solana_program::pubkey::Pubkey;
use solana_program::rent::Rent;
use solana_program::sysvar::Sysvar;
use token_ledger::address::Address;
use token_ledger::error::{LedgerError, TokenError};
use token_ledger::instruction::TokenInstruction;
use token_ledger::processor::Processor;
use token_ledger::record::RecordHandle;
use token_ledger::state::{Account, AccountState, Mint};

fn address(byte: u8) -> Address {
    Address::new(&[byte; 32])
}

fn program_id() -> Address {
    address(0xf0)
}

fn handle(key: Address, is_signer: bool, lamports: u64, data: Vec<u8>) -> RecordHandle {
    RecordHandle { key, is_signer, lamports, data }
}

fn signer(key: Address) -> RecordHandle {
    handle(key, true, 0, Vec::new())
}

fn bystander(key: Address) -> RecordHandle {
    handle(key, false, 0, Vec::new())
}

fn rent_sysvar_with(rent: Rent) -> RecordHandle {
    let key = solana_program::sysvar::rent::id();
    let owner = Pubkey::default();
    let mut lamports = 0u64;
    let mut data = vec![0u8; Rent::size_of()];
    {
        let mut info =
            AccountInfo::new(&key, false, false, &mut lamports, &mut data, &owner, false, 0);
        rent.to_account_info(&mut info).unwrap();
    }
    handle(Address::new_from_array(key.to_bytes()), false, 0, data)
}

fn rent_sysvar() -> RecordHandle {
    rent_sysvar_with(Rent::default())
}

fn mint_minimum_balance() -> u64 {
    Rent::default().minimum_balance(Mint::get_packed_len())
}

fn account_minimum_balance() -> u64 {
    Rent::default().minimum_balance(Account::get_packed_len())
}

fn mint_record(key: Address, mint: Mint) -> RecordHandle {
    let mut data = vec![0u8; 46];
    Mint::pack(mint, &mut data).unwrap();
    handle(key, false, mint_minimum_balance(), data)
}

fn account_record(key: Address, account: Account) -> RecordHandle {
    let mut data = vec![0u8; 117];
    Account::pack(account, &mut data).unwrap();
    handle(key, false, account_minimum_balance(), data)
}

fn account_of(mint: Address, owner: Address, amount: u64) -> Account {
    Account {
        mint,
        owner,
        amount,
        delegate: None,
        delegated_amount: 0,
        state: AccountState::Initialized,
    }
}

fn mint_of(authority: Option<Address>, supply: u64) -> Mint {
    Mint { mint_authority: authority, supply, decimals: 2, is_initialized: true }
}

fn run(accounts: &mut [RecordHandle], instruction: TokenInstruction) -> Result<(), LedgerError> {
    Processor::try_process(&program_id(), accounts, &instruction.pack())
        .expect("the rent can be computed")
}

fn token(e: TokenError) -> Result<(), LedgerError> {
    Err(LedgerError::Token(e))
}

fn account_in(record: &RecordHandle) -> Account {
    Account::unpack(&record.data).unwrap()
}

fn mint_in(record: &RecordHandle) -> Mint {
    Mint::unpack(&record.data).unwrap()
}

#[test]
fn rent_sysvar_address() {
    let expected: [u8; 32] = [
        6, 167, 213, 23, 25, 44, 92, 81, 33, 140, 201, 76, 61, 74, 241, 127, 88, 218, 238, 8, 155,
        161, 253, 68, 227, 219, 217, 138, 0, 0, 0, 0,
    ];
    assert_eq!(solana_program::sysvar::rent::id().to_bytes(), expected);
    assert_eq!(rent_sysvar().key.to_bytes(), expected);
}

#[test]
fn initialize_mint_on_zeroed_buffer() {
    let authority = address(0xa1);
    let mut accounts =
        vec![handle(address(1), false, mint_minimum_balance(), vec![0u8; 46]), rent_sysvar()];
    let result = run(
        &mut accounts,
        TokenInstruction::InitializeMint { decimals: 2, mint_authority: authority },
    );
    assert_eq!(result, Ok(()));
    let mut expect = vec![1u8, 0, 0, 0];
    expect.extend_from_slice(&[0xa1; 32]);
    expect.extend_from_slice(&[0u8; 8]);
    expect.push(2);
    expect.push(1);
    assert_eq!(accounts[0].data, expect);
    assert_eq!(
        mint_in(&accounts[0]),
        Mint { mint_authority: Some(authority), supply: 0, decimals: 2, is_initialized: true }
    );
    assert_eq!(accounts[1], rent_sysvar());
}

#[test]
fn initialize_mint_twice_is_already_in_use() {
    let mut accounts =
        vec![handle(address(1), false, mint_minimum_balance(), vec![0u8; 46]), rent_sysvar()];
    let instruction = TokenInstruction::InitializeMint { decimals: 2, mint_authority: address(2) };
    assert_eq!(run(&mut accounts, instruction.clone()), Ok(()));
    let before = accounts.clone();
    assert_eq!(run(&mut accounts, instruction), token(TokenError::AlreadyInUse));
    assert_eq!(accounts, before);
}

#[test]
fn initialize_mint_needs_the_rent_exempt_balance() {
    let instruction = TokenInstruction::InitializeMint { decimals: 2, mint_authority: address(2) };
    let mut accounts =
        vec![handle(address(1), false, mint_minimum_balance() - 1, vec![0u8; 46]), rent_sysvar()];
    let before = accounts.clone();
    assert_eq!(run(&mut accounts, instruction.clone()), token(TokenError::NotRentExempt));
    assert_eq!(accounts, before);
    accounts[0].lamports = mint_minimum_balance();
    assert_eq!(run(&mut accounts, instruction), Ok(()));
}

#[test]
fn initialize_mint_failures_before_the_rent_check() {
    let instruction = TokenInstruction::InitializeMint { decimals: 2, mint_authority: address(2) };
    let fresh = handle(address(1), false, mint_minimum_balance(), vec![0u8; 46]);

    let mut none: Vec<RecordHandle> = Vec::new();
    assert_eq!(run(&mut none, instruction.clone()), Err(LedgerError::NotEnoughAccountKeys));
    let mut one = vec![fresh.clone()];
    assert_eq!(run(&mut one, instruction.clone()), Err(LedgerError::NotEnoughAccountKeys));

    // The second handle has the bytes of a rent, but not the address of the sysvar.
    let mut stranger = rent_sysvar();
    stranger.key = address(9);
    let mut accounts = vec![fresh.clone(), stranger];
    assert_eq!(run(&mut accounts, instruction.clone()), Err(LedgerError::InvalidArgument));

    // The second handle has the address of the sysvar, but too few bytes.
    let mut truncated = rent_sysvar();
    truncated.data.truncate(10);
    let mut accounts = vec![fresh.clone(), truncated];
    assert_eq!(run(&mut accounts, instruction.clone()), Err(LedgerError::InvalidArgument));

    // The record has not the length of a mint.
    let mut accounts =
        vec![handle(address(1), false, mint_minimum_balance(), vec![0u8; 45]), rent_sysvar()];
    assert_eq!(run(&mut accounts, instruction), Err(LedgerError::InvalidAccountData));
}

#[test]
fn rent_follows_the_sysvar() {
    let instruction = TokenInstruction::InitializeMint { decimals: 0, mint_authority: address(2) };
    // Without rent every balance is exempt.
    let mut accounts = vec![handle(address(1), false, 0, vec![0u8; 46]), rent_sysvar_with(Rent::free())];
    assert_eq!(run(&mut accounts, instruction.clone()), Ok(()));
    // With the tenfold rate the usual minimum is not enough.
    let mut dear = Rent::default();
    dear.lamports_per_byte_year *= 10;
    let mut accounts = vec![
        handle(address(1), false, mint_minimum_balance(), vec![0u8; 46]),
        rent_sysvar_with(dear),
    ];
    assert_eq!(run(&mut accounts, instruction.clone()), token(TokenError::NotRentExempt));
    accounts[0].lamports = dear.minimum_balance(46);
    assert_eq!(run(&mut accounts, instruction), Ok(()));
}

#[test]
fn rent_that_cannot_be_computed_is_no_answer() {
    let instruction = TokenInstruction::InitializeMint { decimals: 0, mint_authority: address(2) };
    let mut absurd = Rent::default();
    absurd.lamports_per_byte_year = u64::MAX / 174 + 1;
    let mut accounts =
        vec![handle(address(1), false, u64::MAX, vec![0u8; 46]), rent_sysvar_with(absurd)];
    let before = accounts.clone();
    assert!(!Processor::rent_is_in_range(&accounts, &instruction.pack()));
    assert_eq!(Processor::try_process(&program_id(), &mut accounts, &instruction.pack()), None);
    assert_eq!(accounts, before);

    // The largest rate whose product with the 174 bytes is a 64-bit number.
    absurd.lamports_per_byte_year = u64::MAX / 174;
    accounts[1] = rent_sysvar_with(absurd);
    assert!(Processor::rent_is_in_range(&accounts, &instruction.pack()));
    assert!(Processor::try_process(&program_id(), &mut accounts, &instruction.pack()).is_some());

    // Where the rent is not asked for, its rate does not matter.
    absurd.lamports_per_byte_year = u64::MAX;
    let mut accounts = vec![
        mint_record(address(1), mint_of(Some(address(2)), 0)),
        rent_sysvar_with(absurd),
    ];
    assert_eq!(
        Processor::try_process(&program_id(), &mut accounts, &instruction.pack()),
        Some(token(TokenError::AlreadyInUse))
    );
    assert!(Processor::rent_is_in_range(&accounts, &TokenInstruction::Burn { amount: 1 }.pack()));
}

#[test]
fn storage_overhead_is_that_of_the_host() {
    assert_eq!(
        token_ledger::rent::ACCOUNT_STORAGE_OVERHEAD,
        solana_program::rent::ACCOUNT_STORAGE_OVERHEAD
    );
    // 128 bytes of overhead and 46 of data, at the usual rate and for two years.
    assert_eq!(mint_minimum_balance(), (128 + 46) * 3480 * 2);
}

#[test]
fn process_without_rent_needs_no_test_of_the_rent() {
    let (mint, owner) = (address(0x11), address(0x22));
    let mut accounts = vec![
        account_record(address(1), account_of(mint, owner, 9)),
        account_record(address(2), account_of(mint, owner, 1)),
        signer(owner),
    ];
    let input = TokenInstruction::Transfer { amount: 4 }.pack();
    assert!(Processor::rent_is_in_range(&accounts, &input));
    assert_eq!(Processor::process(&program_id(), &mut accounts, &input), Ok(()));
    assert_eq!((account_in(&accounts[0]).amount, account_in(&accounts[1]).amount), (5, 5));
}

#[test]
fn rate_in_range_bounds() {
    assert!(Processor::rate_in_range(0, 46));
    assert!(Processor::rate_in_range(3480, 117));
    assert!(Processor::rate_in_range(u64::MAX / 174, 46));
    assert!(!Processor::rate_in_range(u64::MAX / 174 + 1, 46));
    assert!(Processor::rate_in_range(u64::MAX / 128, 0));
    assert!(!Processor::rate_in_range(u64::MAX / 128 + 1, 0));
    assert!(!Processor::rate_in_range(0, usize::MAX));
}

#[test]
fn initialize_account_sets_every_field() {
    let mint_key = address(0x11);
    let owner_key = address(0x22);
    let mut stale = vec![0u8; 117];
    stale[64] = 9;
    stale[108] = 9;
    let mut accounts = vec![
        handle(address(1), false, account_minimum_balance(), stale),
        mint_record(mint_key, mint_of(Some(address(3)), 0)),
        bystander(owner_key),
        rent_sysvar(),
    ];
    assert_eq!(run(&mut accounts, TokenInstruction::InitializeAccount), Ok(()));
    assert_eq!(
        account_in(&accounts[0]),
        Account {
            mint: mint_key,
            owner: owner_key,
            amount: 0,
            delegate: None,
            delegated_amount: 0,
            state: AccountState::Initialized,
        }
    );
    let before = accounts.clone();
    assert_eq!(run(&mut accounts, TokenInstruction::InitializeAccount), token(TokenError::AlreadyInUse));
    assert_eq!(accounts, before);
}

#[test]
fn initialize_account_rejections() {
    let fresh = handle(address(1), false, account_minimum_balance(), vec![0u8; 117]);
    let mint = mint_record(address(0x11), mint_of(None, 0));
    let owner = bystander(address(0x22));

    let mut accounts = vec![fresh.clone(), mint.clone(), owner.clone()];
    assert_eq!(
        run(&mut accounts, TokenInstruction::InitializeAccount),
        Err(LedgerError::NotEnoughAccountKeys)
    );

    let mut accounts = vec![fresh.clone(), mint.clone(), owner.clone(), bystander(address(5))];
    assert_eq!(
        run(&mut accounts, TokenInstruction::InitializeAccount),
        Err(LedgerError::InvalidArgument)
    );

    let mut poor = fresh.clone();
    poor.lamports = account_minimum_balance() - 1;
    let mut accounts = vec![poor, mint.clone(), owner.clone(), rent_sysvar()];
    assert_eq!(run(&mut accounts, TokenInstruction::InitializeAccount), token(TokenError::NotRentExempt));

    // A mint that is not initialized, and a record that is no mint at all.
    let blank_mint = handle(address(0x11), false, mint_minimum_balance(), vec![0u8; 46]);
    let mut accounts = vec![fresh.clone(), blank_mint, owner.clone(), rent_sysvar()];
    let before = accounts.clone();
    assert_eq!(run(&mut accounts, TokenInstruction::InitializeAccount), token(TokenError::InvalidMint));
    assert_eq!(accounts, before);
    let mut accounts = vec![fresh.clone(), owner.clone(), owner.clone(), rent_sysvar()];
    assert_eq!(run(&mut accounts, TokenInstruction::InitializeAccount), token(TokenError::InvalidMint));

    let mut accounts = vec![
        handle(address(1), false, account_minimum_balance(), vec![0u8; 116]),
        mint,
        owner,
        rent_sysvar(),
    ];
    assert_eq!(
        run(&mut accounts, TokenInstruction::InitializeAccount),
        Err(LedgerError::InvalidAccountData)
    );
}

#[test]
fn transfer_moves_exactly_the_amount() {
    let (mint, owner) = (address(0x11), address(0x22));
    let mut accounts = vec![
        account_record(address(1), account_of(mint, owner, 1000)),
        account_record(address(2), account_of(mint, address(0x33), 5)),
        signer(owner),
    ];
    assert_eq!(run(&mut accounts, TokenInstruction::Transfer { amount: 400 }), Ok(()));
    assert_eq!(account_in(&accounts[0]), account_of(mint, owner, 600));
    assert_eq!(account_in(&accounts[1]), account_of(mint, address(0x33), 405));
    assert_eq!(accounts[2], signer(owner));
    // The whole balance, and then nothing.
    assert_eq!(run(&mut accounts, TokenInstruction::Transfer { amount: 600 }), Ok(()));
    assert_eq!(account_in(&accounts[0]).amount, 0);
    assert_eq!(account_in(&accounts[1]).amount, 1005);
    assert_eq!(run(&mut accounts, TokenInstruction::Transfer { amount: 0 }), Ok(()));
    assert_eq!(account_in(&accounts[0]).amount + account_in(&accounts[1]).amount, 1005);
}

#[test]
fn transfer_of_more_than_the_balance() {
    let (mint, owner) = (address(0x11), address(0x22));
    let mut accounts = vec![
        account_record(address(1), account_of(mint, owner, 50)),
        account_record(address(2), account_of(mint, owner, 0)),
        signer(owner),
    ];
    let before = accounts.clone();
    assert_eq!(
        run(&mut accounts, TokenInstruction::Transfer { amount: 100 }),
        token(TokenError::InsufficientFunds)
    );
    assert_eq!(accounts, before);
}

#[test]
fn transfer_to_the_same_record() {
    let (mint, owner) = (address(0x11), address(0x22));
    let source = account_record(address(1), account_of(mint, owner, 50));
    for amount in [0u64, 1, 50, 51, u64::MAX] {
        let mut accounts = vec![source.clone(), source.clone(), signer(owner)];
        let before = accounts.clone();
        assert_eq!(
            run(&mut accounts, TokenInstruction::Transfer { amount }),
            token(TokenError::SelfTransfer)
        );
        assert_eq!(accounts, before);
    }
    // The check comes before the third handle is asked for, and before any decoding.
    let mut accounts = vec![bystander(address(1)), bystander(address(1))];
    assert_eq!(
        run(&mut accounts, TokenInstruction::Transfer { amount: 1 }),
        token(TokenError::SelfTransfer)
    );
    let mut accounts = vec![bystander(address(1)), bystander(address(2))];
    assert_eq!(
        run(&mut accounts, TokenInstruction::Transfer { amount: 1 }),
        Err(LedgerError::NotEnoughAccountKeys)
    );
}

#[test]
fn transfer_rejections() {
    let (mint, owner) = (address(0x11), address(0x22));
    let source = account_record(address(1), account_of(mint, owner, 50));
    let dest = account_record(address(2), account_of(mint, owner, u64::MAX - 10));

    let mut accounts = vec![source.clone(), dest.clone(), signer(owner)];
    let before = accounts.clone();
    assert_eq!(run(&mut accounts, TokenInstruction::Transfer { amount: 11 }), token(TokenError::Overflow));
    assert_eq!(accounts, before);
    assert_eq!(run(&mut accounts, TokenInstruction::Transfer { amount: 10 }), Ok(()));
    assert_eq!(account_in(&accounts[1]).amount, u64::MAX);

    let other = account_record(address(2), account_of(address(0x12), owner, 0));
    let mut accounts = vec![source.clone(), other, signer(owner)];
    assert_eq!(
        run(&mut accounts, TokenInstruction::Transfer { amount: 1 }),
        token(TokenError::MintMismatch)
    );

    let mut accounts = vec![source.clone(), dest.clone(), signer(address(0x23))];
    assert_eq!(
        run(&mut accounts, TokenInstruction::Transfer { amount: 1 }),
        token(TokenError::OwnerMismatch)
    );

    let mut accounts = vec![source.clone(), dest.clone(), bystander(owner)];
    assert_eq!(
        run(&mut accounts, TokenInstruction::Transfer { amount: 1 }),
        Err(LedgerError::MissingRequiredSignature)
    );

    let blank = handle(address(3), false, 0, vec![0u8; 117]);
    let mut accounts = vec![blank.clone(), dest.clone(), signer(owner)];
    assert_eq!(
        run(&mut accounts, TokenInstruction::Transfer { amount: 1 }),
        Err(LedgerError::UninitializedAccount)
    );
    let mut accounts = vec![source.clone(), blank, signer(owner)];
    assert_eq!(
        run(&mut accounts, TokenInstruction::Transfer { amount: 1 }),
        Err(LedgerError::UninitializedAccount)
    );
    let mut accounts = vec![source, bystander(address(4)), signer(owner)];
    assert_eq!(
        run(&mut accounts, TokenInstruction::Transfer { amount: 1 }),
        Err(LedgerError::InvalidAccountData)
    );
}

#[test]
fn approve_replaces_the_delegation() {
    let (mint, owner, delegate) = (address(0x11), address(0x22), address(0x44));
    let mut accounts = vec![
        account_record(address(1), account_of(mint, owner, 50)),
        bystander(delegate),
        signer(owner),
    ];
    assert_eq!(run(&mut accounts, TokenInstruction::Approve { amount: 500 }), Ok(()));
    let approved = account_in(&accounts[0]);
    assert_eq!(approved.delegate, Some(delegate));
    assert_eq!(approved.delegated_amount, 500);
    assert_eq!(approved.amount, 50);
    // A second approval does not add to the first.
    accounts[1] = bystander(address(0x45));
    assert_eq!(run(&mut accounts, TokenInstruction::Approve { amount: 20 }), Ok(()));
    let approved = account_in(&accounts[0]);
    assert_eq!(approved.delegate, Some(address(0x45)));
    assert_eq!(approved.delegated_amount, 20);

    accounts[2] = bystander(owner);
    let before = accounts.clone();
    assert_eq!(
        run(&mut accounts, TokenInstruction::Approve { amount: 1 }),
        Err(LedgerError::MissingRequiredSignature)
    );
    accounts[2] = signer(delegate);
    assert_eq!(run(&mut accounts, TokenInstruction::Approve { amount: 1 }), token(TokenError::OwnerMismatch));
    assert_eq!(accounts[0], before[0]);
    accounts.truncate(2);
    assert_eq!(
        run(&mut accounts, TokenInstruction::Approve { amount: 1 }),
        Err(LedgerError::NotEnoughAccountKeys)
    );
}

#[test]
fn delegate_spends_the_allowance() {
    let (mint, owner, delegate) = (address(0x11), address(0x22), address(0x44));
    let mut approval = vec![
        account_record(address(1), account_of(mint, owner, 1000)),
        bystander(delegate),
        signer(owner),
    ];
    assert_eq!(run(&mut approval, TokenInstruction::Approve { amount: 100 }), Ok(()));

    let mut accounts = vec![
        approval[0].clone(),
        account_record(address(2), account_of(mint, owner, 0)),
        signer(delegate),
    ];
    // Less than the allowance leaves the delegate with the rest.
    assert_eq!(run(&mut accounts, TokenInstruction::Transfer { amount: 30 }), Ok(()));
    let source = account_in(&accounts[0]);
    assert_eq!(source.delegate, Some(delegate));
    assert_eq!(source.delegated_amount, 70);
    assert_eq!(source.amount, 970);
    // More than is left is refused.
    let before = accounts.clone();
    assert_eq!(
        run(&mut accounts, TokenInstruction::Transfer { amount: 71 }),
        token(TokenError::InsufficientFunds)
    );
    assert_eq!(accounts, before);
    // A delegate that has not signed is refused.
    accounts[2] = bystander(delegate);
    assert_eq!(
        run(&mut accounts, TokenInstruction::Transfer { amount: 1 }),
        Err(LedgerError::MissingRequiredSignature)
    );
    // Exactly what is left ends the delegation.
    accounts[2] = signer(delegate);
    assert_eq!(run(&mut accounts, TokenInstruction::Transfer { amount: 70 }), Ok(()));
    let source = account_in(&accounts[0]);
    assert_eq!(source.delegate, None);
    assert_eq!(source.delegated_amount, 0);
    assert_eq!(source.amount, 900);
    assert_eq!(account_in(&accounts[1]).amount, 100);
    // The former delegate is now a stranger.
    assert_eq!(run(&mut accounts, TokenInstruction::Transfer { amount: 1 }), token(TokenError::OwnerMismatch));
}

#[test]
fn delegate_spends_the_whole_allowance_at_once() {
    let (mint, owner, delegate) = (address(0x11), address(0x22), address(0x44));
    let mut approval = vec![
        account_record(address(1), account_of(mint, owner, 1000)),
        bystander(delegate),
        signer(owner),
    ];
    assert_eq!(run(&mut approval, TokenInstruction::Approve { amount: 100 }), Ok(()));
    let mut accounts = vec![
        approval[0].clone(),
        account_record(address(2), account_of(mint, owner, 0)),
        signer(delegate),
    ];
    assert_eq!(run(&mut accounts, TokenInstruction::Transfer { amount: 100 }), Ok(()));
    let source = account_in(&accounts[0]);
    assert_eq!(source.delegate, None);
    assert_eq!(source.delegated_amount, 0);
    // The bytes of the former delegate are gone from the record.
    assert_eq!(&accounts[0].data[72..108], &[0u8; 36][..]);
}

#[test]
fn mint_to_adds_to_supply_and_balance() {
    let (mint_key, authority) = (address(0x11), address(0x55));
    let mut accounts = vec![
        mint_record(mint_key, mint_of(Some(authority), 1000)),
        account_record(address(2), account_of(mint_key, address(0x22), 7)),
        signer(authority),
    ];
    assert_eq!(run(&mut accounts, TokenInstruction::MintTo { amount: 42 }), Ok(()));
    assert_eq!(mint_in(&accounts[0]), mint_of(Some(authority), 1042));
    assert_eq!(account_in(&accounts[1]), account_of(mint_key, address(0x22), 49));
}

#[test]
fn mint_to_rejections() {
    let (mint_key, authority) = (address(0x11), address(0x55));
    let mint = mint_record(mint_key, mint_of(Some(authority), u64::MAX - 5));
    let dest = account_record(address(2), account_of(mint_key, address(0x22), 0));

    let mut accounts = vec![mint.clone(), dest.clone(), signer(authority)];
    let before = accounts.clone();
    assert_eq!(run(&mut accounts, TokenInstruction::MintTo { amount: 6 }), token(TokenError::Overflow));
    assert_eq!(accounts, before);
    assert_eq!(run(&mut accounts, TokenInstruction::MintTo { amount: 5 }), Ok(()));
    assert_eq!(mint_in(&accounts[0]).supply, u64::MAX);

    // The balance overflows although the supply does not.
    let mut accounts = vec![
        mint_record(mint_key, mint_of(Some(authority), 0)),
        account_record(address(2), account_of(mint_key, address(0x22), u64::MAX)),
        signer(authority),
    ];
    assert_eq!(run(&mut accounts, TokenInstruction::MintTo { amount: 1 }), token(TokenError::Overflow));

    let mut accounts =
        vec![mint_record(mint_key, mint_of(None, 0)), dest.clone(), signer(authority)];
    assert_eq!(run(&mut accounts, TokenInstruction::MintTo { amount: 1 }), token(TokenError::FixedSupply));

    let mut accounts = vec![mint_record(address(0x12), mint_of(Some(authority), 0)), dest.clone(), signer(authority)];
    assert_eq!(run(&mut accounts, TokenInstruction::MintTo { amount: 1 }), token(TokenError::MintMismatch));

    let mut accounts = vec![mint.clone(), dest.clone(), signer(address(0x56))];
    assert_eq!(run(&mut accounts, TokenInstruction::MintTo { amount: 1 }), token(TokenError::OwnerMismatch));

    let mut accounts = vec![mint.clone(), dest.clone(), bystander(authority)];
    assert_eq!(
        run(&mut accounts, TokenInstruction::MintTo { amount: 1 }),
        Err(LedgerError::MissingRequiredSignature)
    );

    let mut accounts = vec![mint, dest];
    assert_eq!(
        run(&mut accounts, TokenInstruction::MintTo { amount: 1 }),
        Err(LedgerError::NotEnoughAccountKeys)
    );
}

#[test]
fn burn_takes_from_supply_and_balance() {
    let (mint_key, owner) = (address(0x11), address(0x22));
    let mut accounts = vec![
        account_record(address(1), account_of(mint_key, owner, 100)),
        mint_record(mint_key, mint_of(None, 1000)),
        signer(owner),
    ];
    assert_eq!(run(&mut accounts, TokenInstruction::Burn { amount: 40 }), Ok(()));
    assert_eq!(account_in(&accounts[0]), account_of(mint_key, owner, 60));
    assert_eq!(mint_in(&accounts[1]), mint_of(None, 960));
}

#[test]
fn burn_against_another_mint() {
    let (mint_key, owner) = (address(0x11), address(0x22));
    let mut accounts = vec![
        account_record(address(1), account_of(mint_key, owner, 100)),
        mint_record(address(0x12), mint_of(None, 5)),
        signer(owner),
    ];
    let before = accounts.clone();
    // The supply of the other mint is less than the amount: the mismatch comes first.
    assert_eq!(run(&mut accounts, TokenInstruction::Burn { amount: 10 }), token(TokenError::MintMismatch));
    assert_eq!(accounts, before);
}

#[test]
fn burn_rejections() {
    let (mint_key, owner, delegate) = (address(0x11), address(0x22), address(0x44));
    let source = account_record(address(1), account_of(mint_key, owner, 100));
    let mint = mint_record(mint_key, mint_of(None, 50));

    let mut accounts = vec![source.clone(), mint.clone(), signer(owner)];
    let before = accounts.clone();
    assert_eq!(
        run(&mut accounts, TokenInstruction::Burn { amount: 101 }),
        token(TokenError::InsufficientFunds)
    );
    // More than the supply, though the account holds it.
    assert_eq!(run(&mut accounts, TokenInstruction::Burn { amount: 51 }), token(TokenError::Overflow));
    assert_eq!(accounts, before);
    assert_eq!(run(&mut accounts, TokenInstruction::Burn { amount: 50 }), Ok(()));
    assert_eq!(mint_in(&accounts[1]).supply, 0);

    let mut accounts = vec![source.clone(), mint.clone(), signer(delegate)];
    assert_eq!(run(&mut accounts, TokenInstruction::Burn { amount: 1 }), token(TokenError::OwnerMismatch));

    let mut accounts = vec![
        source.clone(),
        handle(mint_key, false, 0, vec![0u8; 46]),
        signer(owner),
    ];
    assert_eq!(
        run(&mut accounts, TokenInstruction::Burn { amount: 1 }),
        Err(LedgerError::UninitializedAccount)
    );

    // A delegate burns within its allowance.
    let mut delegated = account_of(mint_key, owner, 100);
    delegated.delegate = Some(delegate);
    delegated.delegated_amount = 10;
    let mut accounts = vec![account_record(address(1), delegated), mint, signer(delegate)];
    assert_eq!(
        run(&mut accounts, TokenInstruction::Burn { amount: 11 }),
        token(TokenError::InsufficientFunds)
    );
    assert_eq!(run(&mut accounts, TokenInstruction::Burn { amount: 10 }), Ok(()));
    let source = account_in(&accounts[0]);
    assert_eq!((source.amount, source.delegate, source.delegated_amount), (90, None, 0));
    assert_eq!(mint_in(&accounts[1]).supply, 40);
}

#[test]
fn malformed_instruction_changes_nothing() {
    let mut accounts = vec![account_record(address(1), account_of(address(2), address(3), 1))];
    let before = accounts.clone();
    assert_eq!(
        Processor::process(&program_id(), &mut accounts, &[9, 1, 2]),
        token(TokenError::InvalidInstruction)
    );
    assert_eq!(Processor::process(&program_id(), &mut accounts, &[]), token(TokenError::InvalidInstruction));
    assert_eq!(accounts, before);
}

#[test]
fn operations_with_the_rent_answer_given() {
    let authority = address(0xa1);
    let fresh = handle(address(1), false, 0, vec![0u8; 46]);
    let mut accounts = vec![fresh.clone(), bystander(address(9))];
    assert_eq!(
        Processor::initialize_mint(&mut accounts, 6, authority, None),
        Err(LedgerError::InvalidArgument)
    );
    assert_eq!(
        Processor::initialize_mint(&mut accounts, 6, authority, Some(false)),
        token(TokenError::NotRentExempt)
    );
    assert_eq!(accounts[0], fresh);
    assert_eq!(Processor::initialize_mint(&mut accounts, 6, authority, Some(true)), Ok(()));
    assert_eq!(
        mint_in(&accounts[0]),
        Mint { mint_authority: Some(authority), supply: 0, decimals: 6, is_initialized: true }
    );
    assert_eq!(
        Processor::initialize_mint(&mut accounts, 6, authority, Some(false)),
        token(TokenError::AlreadyInUse)
    );

    let mut accounts = vec![
        handle(address(2), false, 0, vec![0u8; 117]),
        accounts[0].clone(),
        bystander(address(0x22)),
        bystander(address(9)),
    ];
    assert_eq!(
        Processor::initialize_account(&mut accounts, Some(false)),
        token(TokenError::NotRentExempt)
    );
    assert_eq!(Processor::initialize_account(&mut accounts, None), Err(LedgerError::InvalidArgument));
    assert_eq!(Processor::initialize_account(&mut accounts, Some(true)), Ok(()));
    assert_eq!(account_in(&accounts[0]), account_of(address(1), address(0x22), 0));
}

#[test]
fn authority_checks() {
    let owner = address(0x22);
    assert_eq!(Processor::validate_owner(&owner, &signer(owner)), Ok(()));
    assert_eq!(
        Processor::validate_owner(&owner, &bystander(owner)),
        Err(LedgerError::MissingRequiredSignature)
    );
    // The address is checked before the signature.
    assert_eq!(
        Processor::validate_owner(&owner, &bystander(address(0x23))),
        token(TokenError::OwnerMismatch)
    );

    // An owner that is also the delegate spends as the delegate.
    let mut account = account_of(address(0x11), owner, 100);
    account.delegate = Some(owner);
    account.delegated_amount = 5;
    assert_eq!(
        Processor::authorize_debit(account, &signer(owner), 6),
        Err(LedgerError::Token(TokenError::InsufficientFunds))
    );
    let debited = Processor::authorize_debit(account, &signer(owner), 2).unwrap();
    assert_eq!((debited.delegate, debited.delegated_amount, debited.amount), (Some(owner), 3, 100));
}
