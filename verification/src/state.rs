//! Mint and account records and their fixed-width encodings.

use vstd::prelude::*;
use vstd::bytes::{spec_u64_from_le_bytes, spec_u64_to_le_bytes};
use vstd::slice::slice_subrange;
use crate::address::Address;
use crate::error::LedgerError;
use crate::wire::{overwrite, put, read_u64, take, u64_bytes};

verus! {

/// Length of an encoded mint.
pub const MINT_LEN: usize = 46;

/// Length of an encoded account.
pub const ACCOUNT_LEN: usize = 117;

/// Whether every byte of a buffer is 0, as in a record that was never used.
pub open spec fn zeroed(b: Seq<u8>) -> bool {
    forall|i: int| 0 <= i < b.len() ==> b[i] == 0
}

/// The bytes of an optional address.
pub open spec fn key_view(key: Option<Address>) -> Option<Seq<u8>> {
    match key {
        Some(k) => Some(k@),
        None => None,
    }
}

/// Whether an optional address, if present, has 32 bytes.
pub open spec fn key_wf(key: Option<Seq<u8>>) -> bool {
    key matches Some(k) ==> k.len() == 32
}

/// The encoding of an optional address: the tag `1, 0, 0, 0` and the address,
/// or 36 zero bytes where there is none.
pub open spec fn spec_pack_key(key: Option<Seq<u8>>) -> Seq<u8> {
    match key {
        Some(k) => seq![1u8, 0u8, 0u8, 0u8] + k,
        None => Seq::new(36, |i: int| 0u8),
    }
}

/// The optional address that 36 bytes encode. With the tag `0, 0, 0, 0` there
/// is none, whatever follows; with `1, 0, 0, 0` it is the 32 bytes that follow;
/// no other tag is valid.
pub open spec fn spec_unpack_key(b: Seq<u8>) -> Result<Option<Seq<u8>>, LedgerError> {
    if b[0] == 0 && b[1] == 0 && b[2] == 0 && b[3] == 0 {
        Ok(None)
    } else if b[0] == 1 && b[1] == 0 && b[2] == 0 && b[3] == 0 {
        Ok(Some(b.subrange(4, 36)))
    } else {
        Err(LedgerError::InvalidAccountData)
    }
}

/// Decoding an encoded optional address gives it back.
pub proof fn lemma_key_round_trip(key: Option<Seq<u8>>)
    requires
        key_wf(key),
    ensures
        spec_pack_key(key).len() == 36,
        spec_unpack_key(spec_pack_key(key)) == Ok::<Option<Seq<u8>>, LedgerError>(key),
{
    match key {
        Some(k) => {
            assert(spec_pack_key(key).subrange(4, 36) =~= k);
        },
        None => {},
    }
}

/// Two optional addresses with the same bytes are the same.
pub proof fn lemma_key_view_injective(a: Option<Address>, b: Option<Address>)
    requires
        key_view(a) == key_view(b),
    ensures
        a == b,
{
    if let Some(x) = a {
        x.lemma_view_injective(b->0);
    }
}

/// Eight zero bytes are the number 0 in little-endian order.
pub proof fn lemma_zero_bytes(b: Seq<u8>)
    requires
        b.len() == 8,
        forall|i: int| 0 <= i < 8 ==> b[i] == 0,
    ensures
        spec_u64_from_le_bytes(b) == 0,
{
    vstd::bytes::lemma_auto_spec_u64_to_from_le_bytes();
    vstd::bytes::spec_u64_to_le_bytes_to_open(0);
    assert(0u64 & 0xff == 0 && (0u64 >> 8) & 0xff == 0 && (0u64 >> 16) & 0xff == 0 && (0u64 >> 24)
        & 0xff == 0 && (0u64 >> 32) & 0xff == 0 && (0u64 >> 40) & 0xff == 0 && (0u64 >> 48) & 0xff
        == 0 && (0u64 >> 56) & 0xff == 0) by (bit_vector);
    assert(b =~= spec_u64_to_le_bytes(0));
}

/// Writes the encoding of an optional address.
pub fn pack_coption_key(src: &Option<Address>, dst: &mut [u8; 36])
    ensures
        final(dst)@ == spec_pack_key(key_view(*src)),
{
    match src {
        Some(key) => {
            let body = key.to_bytes();
            dst[0] = 1;
            dst[1] = 0;
            dst[2] = 0;
            dst[3] = 0;
            let mut i: usize = 0;
            while i < 32
                invariant
                    i <= 32,
                    dst@[0] == 1 && dst@[1] == 0 && dst@[2] == 0 && dst@[3] == 0,
                    forall|k: int| 0 <= k < i ==> dst@[4 + k] == body@[k],
                decreases 32 - i,
            {
                dst[4 + i] = body[i];
                i += 1;
            }
            assert(dst@ =~= spec_pack_key(key_view(*src)));
        },
        None => {
            let mut i: usize = 0;
            while i < 36
                invariant
                    i <= 36,
                    forall|k: int| 0 <= k < i ==> dst@[k] == 0,
                decreases 36 - i,
            {
                dst[i] = 0;
                i += 1;
            }
            assert(dst@ =~= spec_pack_key(key_view(*src)));
        },
    }
}

/// Reads an encoded optional address.
pub fn unpack_coption_key(src: &[u8; 36]) -> (r: Result<Option<Address>, LedgerError>)
    ensures
        r matches Ok(key) ==> spec_unpack_key(src@) == Ok::<Option<Seq<u8>>, LedgerError>(
            key_view(key),
        ),
        r matches Err(e) ==> spec_unpack_key(src@) == Err::<Option<Seq<u8>>, LedgerError>(e),
{
    if src[1] != 0 || src[2] != 0 || src[3] != 0 {
        Err(LedgerError::InvalidAccountData)
    } else if src[0] == 0 {
        Ok(None)
    } else if src[0] == 1 {
        Ok(Some(Address::new(slice_subrange(src.as_slice(), 4, 36))))
    } else {
        Err(LedgerError::InvalidAccountData)
    }
}

/// Whether an account has been initialized.
#[derive(Clone, Copy, Debug, PartialEq, Eq, Structural)]
pub enum AccountState {
    /// The account has not been used yet. An all-zero record is in this state.
    Uninitialized,
    /// The account is initialized.
    Initialized,
}

impl AccountState {
    /// The byte that stands for the state.
    pub open spec fn spec_to_byte(self) -> u8 {
        match self {
            AccountState::Uninitialized => 0,
            AccountState::Initialized => 1,
        }
    }

    /// The state that a byte stands for.
    pub open spec fn spec_from_byte(b: u8) -> Option<AccountState> {
        if b == 0 {
            Some(AccountState::Uninitialized)
        } else if b == 1 {
            Some(AccountState::Initialized)
        } else {
            None
        }
    }

    /// The byte that stands for the state.
    pub fn to_byte(&self) -> (b: u8)
        ensures
            b == self.spec_to_byte(),
    {
        match self {
            AccountState::Uninitialized => 0,
            AccountState::Initialized => 1,
        }
    }

    /// The state that a byte stands for: 0 and 1 are the only valid bytes.
    pub fn from_byte(b: u8) -> (s: Option<AccountState>)
        ensures
            s == AccountState::spec_from_byte(b),
    {
        if b == 0 {
            Some(AccountState::Uninitialized)
        } else if b == 1 {
            Some(AccountState::Initialized)
        } else {
            None
        }
    }
}

impl Default for AccountState {
    fn default() -> (s: AccountState)
        ensures
            s == AccountState::Uninitialized,
    {
        AccountState::Uninitialized
    }
}

/// A mint as a mathematical value.
pub struct MintView {
    pub mint_authority: Option<Seq<u8>>,
    pub supply: u64,
    pub decimals: u8,
    pub is_initialized: bool,
}

impl MintView {
    /// The authority, if there is one, is an address.
    pub open spec fn wf(self) -> bool {
        key_wf(self.mint_authority)
    }

    /// The 46 bytes of the mint: the optional authority, the supply in
    /// little-endian order, the decimals, and 1 or 0 for initialized or not.
    pub open spec fn pack(self) -> Seq<u8> {
        spec_pack_key(self.mint_authority) + spec_u64_to_le_bytes(self.supply) + seq![
            self.decimals,
        ] + seq![if self.is_initialized { 1u8 } else { 0u8 }]
    }

    /// The mint that the first 46 bytes of `b` encode.
    pub open spec fn unpack_from(b: Seq<u8>) -> Result<MintView, LedgerError> {
        match spec_unpack_key(b.subrange(0, 36)) {
            Err(e) => Err(e),
            Ok(mint_authority) => if b[45] > 1 {
                Err(LedgerError::InvalidAccountData)
            } else {
                Ok(
                    MintView {
                        mint_authority,
                        supply: spec_u64_from_le_bytes(b.subrange(36, 44)),
                        decimals: b[44],
                        is_initialized: b[45] == 1,
                    },
                )
            },
        }
    }

    /// The mint that `b` encodes, initialized or not. A buffer of another
    /// length than 46 encodes none.
    pub open spec fn unpack_unchecked(b: Seq<u8>) -> Result<MintView, LedgerError> {
        if b.len() != 46 {
            Err(LedgerError::InvalidAccountData)
        } else {
            MintView::unpack_from(b)
        }
    }

    /// The initialized mint that `b` encodes.
    pub open spec fn unpack(b: Seq<u8>) -> Result<MintView, LedgerError> {
        match MintView::unpack_unchecked(b) {
            Err(e) => Err(e),
            Ok(mint) => if mint.is_initialized {
                Ok(mint)
            } else {
                Err(LedgerError::UninitializedAccount)
            },
        }
    }

    /// An encoded mint has 46 bytes.
    pub proof fn lemma_pack_len(self)
        requires
            self.wf(),
        ensures
            self.pack().len() == 46,
    {
        lemma_key_round_trip(self.mint_authority);
        vstd::bytes::lemma_auto_spec_u64_to_from_le_bytes();
    }

    /// What decodes as a mint is well formed.
    pub proof fn lemma_unpack_wf(b: Seq<u8>)
        ensures
            MintView::unpack_unchecked(b) matches Ok(mint) ==> mint.wf(),
            MintView::unpack(b) matches Ok(mint) ==> mint.wf(),
    {
    }

    /// Decoding an encoded mint gives the mint back. The strict decoder does so
    /// for an initialized mint, and answers `UninitializedAccount` for another.
    pub proof fn lemma_round_trip(self)
        requires
            self.wf(),
        ensures
            MintView::unpack_unchecked(self.pack()) == Ok::<MintView, LedgerError>(self),
            self.is_initialized ==> MintView::unpack(self.pack()) == Ok::<MintView, LedgerError>(
                self,
            ),
            !self.is_initialized ==> MintView::unpack(self.pack()) == Err::<MintView, LedgerError>(
                LedgerError::UninitializedAccount,
            ),
    {
        let b = self.pack();
        self.lemma_pack_len();
        lemma_key_round_trip(self.mint_authority);
        vstd::bytes::lemma_auto_spec_u64_to_from_le_bytes();
        assert(b.subrange(0, 36) =~= spec_pack_key(self.mint_authority));
        assert(b.subrange(36, 44) =~= spec_u64_to_le_bytes(self.supply));
    }

    /// A buffer of another length than 46 is no mint, for either decoder.
    pub proof fn lemma_wrong_length(b: Seq<u8>)
        requires
            b.len() != 46,
        ensures
            MintView::unpack_unchecked(b) == Err::<MintView, LedgerError>(
                LedgerError::InvalidAccountData,
            ),
            MintView::unpack(b) == Err::<MintView, LedgerError>(LedgerError::InvalidAccountData),
    {
    }

    /// An all-zero buffer of 46 bytes is the mint that has not been
    /// initialized: no authority, no supply, no decimals.
    pub proof fn lemma_zeroed(b: Seq<u8>)
        requires
            b.len() == 46,
            zeroed(b),
        ensures
            MintView::unpack_unchecked(b) == Ok::<MintView, LedgerError>(
                MintView { mint_authority: None, supply: 0, decimals: 0, is_initialized: false },
            ),
    {
        lemma_zero_bytes(b.subrange(36, 44));
    }
}

/// A token type: who may mint it, and how much of it exists.
#[derive(Clone, Copy, Debug, PartialEq)]
pub struct Mint {
    /// Who may increase the supply. Without an authority the supply is fixed.
    pub mint_authority: Option<Address>,
    /// Total of the units that exist.
    pub supply: u64,
    /// Number of decimals in which amounts are displayed.
    pub decimals: u8,
    /// Whether the mint is initialized.
    pub is_initialized: bool,
}

impl View for Mint {
    type V = MintView;

    open spec fn view(&self) -> MintView {
        MintView {
            mint_authority: key_view(self.mint_authority),
            supply: self.supply,
            decimals: self.decimals,
            is_initialized: self.is_initialized,
        }
    }
}

impl Default for Mint {
    fn default() -> (m: Mint)
        ensures
            m@ == (MintView {
                mint_authority: None,
                supply: 0,
                decimals: 0,
                is_initialized: false,
            }),
    {
        Mint { mint_authority: None, supply: 0, decimals: 0, is_initialized: false }
    }
}

impl Mint {
    /// The view of a mint is well formed.
    pub proof fn lemma_wf(self)
        ensures
            self@.wf(),
    {
        if let Some(k) = self.mint_authority {
            k.lemma_view();
        }
    }


    /// A mint is determined by its view.
    pub proof fn lemma_view_injective(self, other: Mint)
        requires
            self@ == other@,
        ensures
            self == other,
    {
        lemma_key_view_injective(self.mint_authority, other.mint_authority);
    }

    pub fn is_initialized(&self) -> (b: bool)
        ensures
            b == self@.is_initialized,
    {
        self.is_initialized
    }

    /// The length of an encoded mint.
    pub fn get_packed_len() -> (n: usize)
        ensures
            n == 46,
    {
        MINT_LEN
    }

    /// Decodes the first 46 bytes of `src`.
    pub fn unpack_from_slice(src: &[u8]) -> (r: Result<Mint, LedgerError>)
        requires
            src@.len() >= 46,
        ensures
            r matches Ok(mint) ==> MintView::unpack_from(src@) == Ok::<MintView, LedgerError>(
                mint@,
            ),
            r matches Err(e) ==> MintView::unpack_from(src@) == Err::<MintView, LedgerError>(e),
    {
        let key = take::<36>(src, 0);
        let mint_authority = match unpack_coption_key(&key) {
            Ok(k) => k,
            Err(e) => { return Err(e); },
        };
        let supply = read_u64(src, 36);
        let decimals = src[44];
        let is_initialized = if src[45] == 0 {
            false
        } else if src[45] == 1 {
            true
        } else {
            return Err(LedgerError::InvalidAccountData);
        };
        Ok(Mint { mint_authority, supply, decimals, is_initialized })
    }

    /// Writes the encoding of the mint over the first 46 bytes of `dst`.
    pub fn pack_into_slice(&self, dst: &mut [u8])
        requires
            old(dst)@.len() >= 46,
        ensures
            final(dst)@ == overwrite(old(dst)@, 0, self@.pack()),
    {
        let mut key = [0u8; 36];
        pack_coption_key(&self.mint_authority, &mut key);
        let supply = u64_bytes(self.supply);
        put(dst, 0, key.as_slice());
        put(dst, 36, supply.as_slice());
        dst[44] = self.decimals;
        dst[45] = if self.is_initialized { 1 } else { 0 };
        proof {
            self.lemma_wf();
            self@.lemma_pack_len();
            assert(dst@ =~= overwrite(old(dst)@, 0, self@.pack()));
        }
    }

    /// Decodes an initialized mint. A buffer of another length than 46 or with
    /// a malformed field is `InvalidAccountData`; a well-formed mint that is not
    /// initialized is `UninitializedAccount`.
    pub fn unpack(input: &[u8]) -> (r: Result<Mint, LedgerError>)
        ensures
            r matches Ok(mint) ==> MintView::unpack(input@) == Ok::<MintView, LedgerError>(mint@),
            r matches Err(e) ==> MintView::unpack(input@) == Err::<MintView, LedgerError>(e),
            input@.len() != 46 ==> r == Err::<Mint, LedgerError>(LedgerError::InvalidAccountData),
    {
        let value = match Mint::unpack_unchecked(input) {
            Ok(v) => v,
            Err(e) => { return Err(e); },
        };
        if value.is_initialized() {
            Ok(value)
        } else {
            Err(LedgerError::UninitializedAccount)
        }
    }

    /// Decodes a mint, initialized or not: an all-zero buffer of 46 bytes is
    /// the mint that has not been initialized.
    pub fn unpack_unchecked(input: &[u8]) -> (r: Result<Mint, LedgerError>)
        ensures
            r matches Ok(mint) ==> MintView::unpack_unchecked(input@) == Ok::<
                MintView,
                LedgerError,
            >(mint@),
            r matches Err(e) ==> MintView::unpack_unchecked(input@) == Err::<
                MintView,
                LedgerError,
            >(e),
            input@.len() != 46 ==> r == Err::<Mint, LedgerError>(LedgerError::InvalidAccountData),
            input@.len() == 46 && zeroed(input@) ==> r is Ok && r->Ok_0@ == (MintView {
                mint_authority: None,
                supply: 0,
                decimals: 0,
                is_initialized: false,
            }),
    {
        proof {
            if input@.len() == 46 && zeroed(input@) {
                MintView::lemma_zeroed(input@);
            }
        }
        if input.len() != MINT_LEN {
            return Err(LedgerError::InvalidAccountData);
        }
        Mint::unpack_from_slice(input)
    }

    /// Encodes the mint into `dst`, which must have 46 bytes; a buffer of
    /// another length is left as it is.
    pub fn pack(src: Mint, dst: &mut [u8]) -> (r: Result<(), LedgerError>)
        ensures
            old(dst)@.len() == 46 ==> r == Ok::<(), LedgerError>(()) && final(dst)@
                == src@.pack() && MintView::unpack_unchecked(final(dst)@) == Ok::<
                MintView,
                LedgerError,
            >(src@),
            old(dst)@.len() != 46 ==> r == Err::<(), LedgerError>(
                LedgerError::InvalidAccountData,
            ) && final(dst)@ == old(dst)@,
    {
        if dst.len() != MINT_LEN {
            return Err(LedgerError::InvalidAccountData);
        }
        src.pack_into_slice(dst);
        proof {
            src.lemma_wf();
            src@.lemma_pack_len();
            src@.lemma_round_trip();
            assert(dst@ =~= src@.pack());
        }
        Ok(())
    }
}

/// An account as a mathematical value.
pub struct AccountView {
    pub mint: Seq<u8>,
    pub owner: Seq<u8>,
    pub amount: u64,
    pub delegate: Option<Seq<u8>>,
    pub delegated_amount: u64,
    pub state: AccountState,
}

impl AccountView {
    /// The mint, the owner and the delegate, if there is one, are addresses.
    pub open spec fn wf(self) -> bool {
        &&& self.mint.len() == 32
        &&& self.owner.len() == 32
        &&& key_wf(self.delegate)
    }

    /// Whether the account is initialized.
    pub open spec fn is_initialized(self) -> bool {
        self.state != AccountState::Uninitialized
    }

    /// The 117 bytes of the account: the mint, the owner, the amount in
    /// little-endian order, the optional delegate, the delegated amount in
    /// little-endian order, and the byte of the state.
    pub open spec fn pack(self) -> Seq<u8> {
        self.mint + self.owner + spec_u64_to_le_bytes(self.amount) + spec_pack_key(self.delegate)
            + spec_u64_to_le_bytes(self.delegated_amount) + seq![self.state.spec_to_byte()]
    }

    /// The account that the first 117 bytes of `b` encode.
    pub open spec fn unpack_from(b: Seq<u8>) -> Result<AccountView, LedgerError> {
        match spec_unpack_key(b.subrange(72, 108)) {
            Err(e) => Err(e),
            Ok(delegate) => match AccountState::spec_from_byte(b[116]) {
                None => Err(LedgerError::InvalidAccountData),
                Some(state) => Ok(
                    AccountView {
                        mint: b.subrange(0, 32),
                        owner: b.subrange(32, 64),
                        amount: spec_u64_from_le_bytes(b.subrange(64, 72)),
                        delegate,
                        delegated_amount: spec_u64_from_le_bytes(b.subrange(108, 116)),
                        state,
                    },
                ),
            },
        }
    }

    /// The account that `b` encodes, initialized or not. A buffer of another
    /// length than 117 encodes none.
    pub open spec fn unpack_unchecked(b: Seq<u8>) -> Result<AccountView, LedgerError> {
        if b.len() != 117 {
            Err(LedgerError::InvalidAccountData)
        } else {
            AccountView::unpack_from(b)
        }
    }

    /// The initialized account that `b` encodes.
    pub open spec fn unpack(b: Seq<u8>) -> Result<AccountView, LedgerError> {
        match AccountView::unpack_unchecked(b) {
            Err(e) => Err(e),
            Ok(account) => if account.is_initialized() {
                Ok(account)
            } else {
                Err(LedgerError::UninitializedAccount)
            },
        }
    }

    /// An encoded account has 117 bytes.
    pub proof fn lemma_pack_len(self)
        requires
            self.wf(),
        ensures
            self.pack().len() == 117,
    {
        lemma_key_round_trip(self.delegate);
        vstd::bytes::lemma_auto_spec_u64_to_from_le_bytes();
    }

    /// What decodes as an account is well formed.
    pub proof fn lemma_unpack_wf(b: Seq<u8>)
        ensures
            AccountView::unpack_unchecked(b) matches Ok(account) ==> account.wf(),
            AccountView::unpack(b) matches Ok(account) ==> account.wf(),
    {
    }

    /// Decoding an encoded account gives the account back. The strict decoder
    /// does so for an initialized account, and answers `UninitializedAccount`
    /// for another.
    pub proof fn lemma_round_trip(self)
        requires
            self.wf(),
        ensures
            AccountView::unpack_unchecked(self.pack()) == Ok::<AccountView, LedgerError>(self),
            self.is_initialized() ==> AccountView::unpack(self.pack()) == Ok::<
                AccountView,
                LedgerError,
            >(self),
            !self.is_initialized() ==> AccountView::unpack(self.pack()) == Err::<
                AccountView,
                LedgerError,
            >(LedgerError::UninitializedAccount),
    {
        let b = self.pack();
        self.lemma_pack_len();
        lemma_key_round_trip(self.delegate);
        vstd::bytes::lemma_auto_spec_u64_to_from_le_bytes();
        assert(b.subrange(0, 32) =~= self.mint);
        assert(b.subrange(32, 64) =~= self.owner);
        assert(b.subrange(64, 72) =~= spec_u64_to_le_bytes(self.amount));
        assert(b.subrange(72, 108) =~= spec_pack_key(self.delegate));
        assert(b.subrange(108, 116) =~= spec_u64_to_le_bytes(self.delegated_amount));
    }

    /// A buffer of another length than 117 is no account, for either decoder.
    pub proof fn lemma_wrong_length(b: Seq<u8>)
        requires
            b.len() != 117,
        ensures
            AccountView::unpack_unchecked(b) == Err::<AccountView, LedgerError>(
                LedgerError::InvalidAccountData,
            ),
            AccountView::unpack(b) == Err::<AccountView, LedgerError>(
                LedgerError::InvalidAccountData,
            ),
    {
    }

    /// An all-zero buffer of 117 bytes is the account that has not been
    /// initialized.
    pub proof fn lemma_zeroed(b: Seq<u8>)
        requires
            b.len() == 117,
            zeroed(b),
        ensures
            AccountView::unpack_unchecked(b) == Ok::<AccountView, LedgerError>(
                AccountView {
                    mint: Seq::new(32, |i: int| 0u8),
                    owner: Seq::new(32, |i: int| 0u8),
                    amount: 0,
                    delegate: None,
                    delegated_amount: 0,
                    state: AccountState::Uninitialized,
                },
            ),
    {
        lemma_zero_bytes(b.subrange(64, 72));
        lemma_zero_bytes(b.subrange(108, 116));
        assert(b.subrange(0, 32) =~= Seq::new(32, |i: int| 0u8));
        assert(b.subrange(32, 64) =~= Seq::new(32, |i: int| 0u8));
    }
}

/// An owner's balance of one mint.
#[derive(Clone, Copy, Debug, PartialEq)]
pub struct Account {
    /// The mint of which the account holds units.
    pub mint: Address,
    /// The authority over the balance.
    pub owner: Address,
    /// The balance.
    pub amount: u64,
    /// A second authority, which may move up to `delegated_amount`.
    pub delegate: Option<Address>,
    /// What is left of the delegate's allowance.
    pub delegated_amount: u64,
    /// Whether the account is initialized.
    pub state: AccountState,
}

impl View for Account {
    type V = AccountView;

    open spec fn view(&self) -> AccountView {
        AccountView {
            mint: self.mint@,
            owner: self.owner@,
            amount: self.amount,
            delegate: key_view(self.delegate),
            delegated_amount: self.delegated_amount,
            state: self.state,
        }
    }
}

impl Account {
    /// The view of an account is well formed.
    pub proof fn lemma_wf(self)
        ensures
            self@.wf(),
    {
        self.mint.lemma_view();
        self.owner.lemma_view();
        if let Some(k) = self.delegate {
            k.lemma_view();
        }
    }


    /// An account is determined by its view.
    pub proof fn lemma_view_injective(self, other: Account)
        requires
            self@ == other@,
        ensures
            self == other,
    {
        self.mint.lemma_view_injective(other.mint);
        self.owner.lemma_view_injective(other.owner);
        lemma_key_view_injective(self.delegate, other.delegate);
    }

    pub fn is_initialized(&self) -> (b: bool)
        ensures
            b == self@.is_initialized(),
    {
        match self.state {
            AccountState::Uninitialized => false,
            AccountState::Initialized => true,
        }
    }

    /// The length of an encoded account.
    pub fn get_packed_len() -> (n: usize)
        ensures
            n == 117,
    {
        ACCOUNT_LEN
    }

    /// Decodes the first 117 bytes of `src`.
    pub fn unpack_from_slice(src: &[u8]) -> (r: Result<Account, LedgerError>)
        requires
            src@.len() >= 117,
        ensures
            r matches Ok(account) ==> AccountView::unpack_from(src@) == Ok::<
                AccountView,
                LedgerError,
            >(account@),
            r matches Err(e) ==> AccountView::unpack_from(src@) == Err::<AccountView, LedgerError>(
                e,
            ),
    {
        let mint = Address::new_from_array(take::<32>(src, 0));
        let owner = Address::new_from_array(take::<32>(src, 32));
        let amount = read_u64(src, 64);
        let key = take::<36>(src, 72);
        let delegate = match unpack_coption_key(&key) {
            Ok(k) => k,
            Err(e) => { return Err(e); },
        };
        let delegated_amount = read_u64(src, 108);
        let state = match AccountState::from_byte(src[116]) {
            Some(s) => s,
            None => { return Err(LedgerError::InvalidAccountData); },
        };
        Ok(Account { mint, owner, amount, delegate, delegated_amount, state })
    }

    /// Writes the encoding of the account over the first 117 bytes of `dst`.
    pub fn pack_into_slice(&self, dst: &mut [u8])
        requires
            old(dst)@.len() >= 117,
        ensures
            final(dst)@ == overwrite(old(dst)@, 0, self@.pack()),
    {
        let mint = self.mint.to_bytes();
        let owner = self.owner.to_bytes();
        let amount = u64_bytes(self.amount);
        let mut key = [0u8; 36];
        pack_coption_key(&self.delegate, &mut key);
        let delegated_amount = u64_bytes(self.delegated_amount);
        put(dst, 0, mint.as_slice());
        put(dst, 32, owner.as_slice());
        put(dst, 64, amount.as_slice());
        put(dst, 72, key.as_slice());
        dst[116] = self.state.to_byte();
        put(dst, 108, delegated_amount.as_slice());
        proof {
            self.lemma_wf();
            self@.lemma_pack_len();
            assert(dst@ =~= overwrite(old(dst)@, 0, self@.pack()));
        }
    }

    /// Decodes an initialized account. A buffer of another length than 117 or
    /// with a malformed field is `InvalidAccountData`; a well-formed account
    /// that is not initialized is `UninitializedAccount`.
    pub fn unpack(input: &[u8]) -> (r: Result<Account, LedgerError>)
        ensures
            r matches Ok(account) ==> AccountView::unpack(input@) == Ok::<AccountView, LedgerError>(
                account@,
            ),
            r matches Err(e) ==> AccountView::unpack(input@) == Err::<AccountView, LedgerError>(e),
            input@.len() != 117 ==> r == Err::<Account, LedgerError>(
                LedgerError::InvalidAccountData,
            ),
    {
        let value = match Account::unpack_unchecked(input) {
            Ok(v) => v,
            Err(e) => { return Err(e); },
        };
        if value.is_initialized() {
            Ok(value)
        } else {
            Err(LedgerError::UninitializedAccount)
        }
    }

    /// Decodes an account, initialized or not: an all-zero buffer of 117 bytes
    /// is the account that has not been initialized.
    pub fn unpack_unchecked(input: &[u8]) -> (r: Result<Account, LedgerError>)
        ensures
            r matches Ok(account) ==> AccountView::unpack_unchecked(input@) == Ok::<
                AccountView,
                LedgerError,
            >(account@),
            r matches Err(e) ==> AccountView::unpack_unchecked(input@) == Err::<
                AccountView,
                LedgerError,
            >(e),
            input@.len() != 117 ==> r == Err::<Account, LedgerError>(
                LedgerError::InvalidAccountData,
            ),
            input@.len() == 117 && zeroed(input@) ==> r is Ok && r->Ok_0@.state
                == AccountState::Uninitialized,
    {
        proof {
            if input@.len() == 117 && zeroed(input@) {
                AccountView::lemma_zeroed(input@);
            }
        }
        if input.len() != ACCOUNT_LEN {
            return Err(LedgerError::InvalidAccountData);
        }
        Account::unpack_from_slice(input)
    }

    /// Encodes the account into `dst`, which must have 117 bytes; a buffer of
    /// another length is left as it is.
    pub fn pack(src: Account, dst: &mut [u8]) -> (r: Result<(), LedgerError>)
        ensures
            old(dst)@.len() == 117 ==> r == Ok::<(), LedgerError>(()) && final(dst)@
                == src@.pack() && AccountView::unpack_unchecked(final(dst)@) == Ok::<
                AccountView,
                LedgerError,
            >(src@),
            old(dst)@.len() != 117 ==> r == Err::<(), LedgerError>(
                LedgerError::InvalidAccountData,
            ) && final(dst)@ == old(dst)@,
    {
        if dst.len() != ACCOUNT_LEN {
            return Err(LedgerError::InvalidAccountData);
        }
        src.pack_into_slice(dst);
        proof {
            src.lemma_wf();
            src@.lemma_pack_len();
            src@.lemma_round_trip();
            assert(dst@ =~= src@.pack());
        }
        Ok(())
    }
}

impl Default for Account {
    fn default() -> (a: Account)
        ensures
            a@ == (AccountView {
                mint: Seq::new(32, |i: int| 0u8),
                owner: Seq::new(32, |i: int| 0u8),
                amount: 0,
                delegate: None,
                delegated_amount: 0,
                state: AccountState::Uninitialized,
            }),
    {
        let zero = Address::new_from_array([0u8; 32]);
        proof {
            assert(zero@ =~= Seq::new(32, |i: int| 0u8));
        }
        Account {
            mint: zero,
            owner: zero,
            amount: 0,
            delegate: None,
            delegated_amount: 0,
            state: AccountState::Uninitialized,
        }
    }
}

} // verus!
