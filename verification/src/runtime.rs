//! What a program sees of the accounts an instruction names, the errors it can
//! return, and the address derivations it asks the runtime library for.
use vstd::prelude::*;

use crate::address::{Address, zero_key};
use crate::wire::{store, store_into, write_address, WireError};

verus! {

/// One account passed to an instruction, as the program reads and writes it.
/// The accounts of an instruction are a `Vec<AccountView>` in the order the
/// instruction lists them.
#[derive(Debug, Clone)]
pub struct AccountView {
    pub key: Address,
    pub owner: Address,
    pub is_signer: bool,
    pub is_writable: bool,
    pub lamports: u64,
    pub data: Vec<u8>,
}

/// The mathematical value of an [`AccountView`].
pub struct AccountModel {
    pub key: Seq<u8>,
    pub owner: Seq<u8>,
    pub is_signer: bool,
    pub is_writable: bool,
    pub lamports: u64,
    pub data: Seq<u8>,
}

impl View for AccountView {
    type V = AccountModel;

    open spec fn view(&self) -> AccountModel {
        AccountModel {
            key: self.key@,
            owner: self.owner@,
            is_signer: self.is_signer,
            is_writable: self.is_writable,
            lamports: self.lamports,
            data: self.data@,
        }
    }
}

/// The values of a list of accounts.
pub open spec fn models(accounts: Seq<AccountView>) -> Seq<AccountModel> {
    accounts.map_values(|a: AccountView| a@)
}

/// Every key and owner in the accounts is 32 bytes long, as an `Address` is.
pub open spec fn keys_shaped(accounts: Seq<AccountModel>) -> bool {
    forall|i: int| 0 <= i < accounts.len() ==> accounts[i].key.len() == 32 && accounts[i].owner.len() == 32
}

pub open spec fn with_data(a: AccountModel, data: Seq<u8>) -> AccountModel {
    AccountModel { data: data, ..a }
}

pub open spec fn with_lamports(a: AccountModel, lamports: u64) -> AccountModel {
    AccountModel { lamports: lamports, ..a }
}

/// An account the program asks the system program to create: `payer` and
/// `new_account` are positions in the instruction's accounts, the new account
/// gets `space` zero bytes of data and belongs to `owner`, and the program
/// signs for its derived address with `signer_seeds`.
#[derive(Debug, Clone)]
pub struct CreateAccountRequest {
    pub payer: usize,
    pub new_account: usize,
    pub space: u64,
    pub owner: Address,
    pub signer_seeds: Vec<Vec<u8>>,
}

/// The value of a [`CreateAccountRequest`].
pub struct CreateAccountModel {
    pub payer: int,
    pub new_account: int,
    pub space: u64,
    pub owner: Seq<u8>,
    pub signer_seeds: Seq<Seq<u8>>,
}

impl View for CreateAccountRequest {
    type V = CreateAccountModel;

    open spec fn view(&self) -> CreateAccountModel {
        CreateAccountModel {
            payer: self.payer as int,
            new_account: self.new_account as int,
            space: self.space,
            owner: self.owner@,
            signer_seeds: seeds_view(self.signer_seeds@),
        }
    }
}

/// A system-program transfer the program asks the runtime for: `lamports`
/// from account `from` to account `to` (positions in the instruction's
/// accounts), signed for with `signer_seeds` when `from` is a derived address
/// of the program (no seeds when the sender signed the transaction).
#[derive(Debug, Clone)]
pub struct TransferRequest {
    pub from: usize,
    pub to: usize,
    pub lamports: u64,
    pub signer_seeds: Vec<Vec<u8>>,
}

/// The value of a [`TransferRequest`].
pub struct TransferModel {
    pub from: int,
    pub to: int,
    pub lamports: u64,
    pub signer_seeds: Seq<Seq<u8>>,
}

impl View for TransferRequest {
    type V = TransferModel;

    open spec fn view(&self) -> TransferModel {
        TransferModel {
            from: self.from as int,
            to: self.to as int,
            lamports: self.lamports,
            signer_seeds: seeds_view(self.signer_seeds@),
        }
    }
}

/// A key's bytes as a seed.
pub fn key_seed(key: &Address) -> (r: Vec<u8>)
    ensures
        r@ == key@,
{
    let mut v: Vec<u8> = Vec::new();
    write_address(&mut v, key);
    v
}

/// The errors a program returns (the runtime's program error codes).
#[derive(Debug, Clone, Copy, PartialEq, Eq, Structural)]
pub enum ProgramError {
    /// A program-specific error code.
    Custom(u32),
    InvalidArgument,
    InvalidInstructionData,
    InvalidAccountData,
    IncorrectProgramId,
    MissingRequiredSignature,
    AccountAlreadyInitialized,
    UninitializedAccount,
    NotEnoughAccountKeys,
    InvalidSeeds,
    /// Encoding or decoding account state failed.
    BorshIoError(WireError),
    IllegalOwner,
    ArithmeticOverflow,
}

/// An instruction's run matches its specification: on success the accounts
/// are the expected ones; on failure the error is the expected one and the
/// accounts are as they were (the runtime discards a failed instruction's
/// changes).
pub open spec fn outcome(
    r: Result<(), ProgramError>,
    before: Seq<AccountModel>,
    after: Seq<AccountModel>,
    expected: Result<Seq<AccountModel>, ProgramError>,
) -> bool {
    match expected {
        Ok(s) => r is Ok && after == s,
        Err(e) => r == Err::<(), ProgramError>(e) && after == before,
    }
}

/// Serializing `enc` into account `i`'s data.
pub open spec fn put_data(accounts: Seq<AccountModel>, i: int, enc: Seq<u8>) -> Result<
    Seq<AccountModel>,
    ProgramError,
> {
    match store(accounts[i].data, enc) {
        Err(e) => Err(ProgramError::BorshIoError(e)),
        Ok(d) => Ok(accounts.update(i, with_data(accounts[i], d))),
    }
}

pub proof fn lemma_models_update(accounts: Seq<AccountView>, i: int, a: AccountView)
    requires
        0 <= i < accounts.len(),
    ensures
        models(accounts.update(i, a)) == models(accounts).update(i, a@),
{
    assert(models(accounts.update(i, a)) =~= models(accounts).update(i, a@));
}

/// Serializes `enc` into the data of account `i`.
pub fn store_account_data(accounts: &mut Vec<AccountView>, i: usize, enc: &Vec<u8>) -> (r: Result<
    (),
    ProgramError,
>)
    requires
        i < old(accounts)@.len(),
    ensures
        final(accounts)@.len() == old(accounts)@.len(),
        outcome(
            r,
            models(old(accounts)@),
            models(final(accounts)@),
            put_data(models(old(accounts)@), i as int, enc@),
        ),
{
    let mut acct = accounts.remove(i);
    let r = store_into(&mut acct.data, enc);
    accounts.insert(i, acct);
    proof {
        assert(accounts@ =~= old(accounts)@.update(i as int, acct));
        lemma_models_update(old(accounts)@, i as int, acct);
        let m = models(old(accounts)@);
        if r is Err {
            assert(acct@ == m[i as int]);
            assert(m.update(i as int, acct@) =~= m);
        }
    }
    match r {
        Ok(()) => Ok(()),
        Err(e) => Err(ProgramError::BorshIoError(e)),
    }
}

/// `n` zero bytes.
pub open spec fn zeros(n: nat) -> Seq<u8> {
    Seq::new(n, |i: int| 0u8)
}

/// Sets every byte of `data` to zero.
fn zero_fill(data: &mut Vec<u8>)
    ensures
        final(data)@ == zeros(old(data)@.len()),
{
    let n = data.len();
    let mut j: usize = 0;
    while j < n
        invariant
            j <= n,
            n == data@.len(),
            forall|k: int| 0 <= k < j ==> data@[k] == 0u8,
        decreases n - j,
    {
        data.set(j, 0u8);
        j = j + 1;
    }
    assert(data@ =~= zeros(n as nat));
}

/// Sets every byte of account `i`'s data to zero.
pub fn zero_account_data(accounts: &mut Vec<AccountView>, i: usize)
    requires
        i < old(accounts)@.len(),
    ensures
        final(accounts)@.len() == old(accounts)@.len(),
        models(final(accounts)@) == models(old(accounts)@).update(
            i as int,
            with_data(
                models(old(accounts)@)[i as int],
                zeros(models(old(accounts)@)[i as int].data.len()),
            ),
        ),
{
    let mut acct = accounts.remove(i);
    zero_fill(&mut acct.data);
    accounts.insert(i, acct);
    proof {
        assert(accounts@ =~= old(accounts)@.update(i as int, acct));
        lemma_models_update(old(accounts)@, i as int, acct);
    }
}

/// Sets the lamports of account `i`.
pub fn set_lamports(accounts: &mut Vec<AccountView>, i: usize, lamports: u64)
    requires
        i < old(accounts)@.len(),
    ensures
        final(accounts)@.len() == old(accounts)@.len(),
        models(final(accounts)@) == models(old(accounts)@).update(
            i as int,
            with_lamports(models(old(accounts)@)[i as int], lamports),
        ),
{
    let mut acct = accounts.remove(i);
    acct.lamports = lamports;
    accounts.insert(i, acct);
    proof {
        assert(accounts@ =~= old(accounts)@.update(i as int, acct));
        lemma_models_update(old(accounts)@, i as int, acct);
    }
}

/// The address and bump seed that `Pubkey::try_find_program_address` finds for
/// the seeds and program id, or `None` when no bump seed gives an address off
/// the curve.
pub uninterp spec fn program_address(seeds: Seq<Seq<u8>>, program_id: Seq<u8>) -> Option<
    (Seq<u8>, u8),
>;

pub open spec fn pda_view(r: Option<(Address, u8)>) -> Option<(Seq<u8>, u8)> {
    match r {
        None => None,
        Some((a, b)) => Some((a@, b)),
    }
}

pub open spec fn seeds_view(seeds: Seq<Vec<u8>>) -> Seq<Seq<u8>> {
    seeds.map_values(|s: Vec<u8>| s@)
}

/// Calls `solana_program`'s `Pubkey::try_find_program_address`. Trusted: the
/// result depends on the seeds and the program id alone (a hash search that
/// is named, not stated, here).
#[verifier::external_body]
pub fn find_program_address(seeds: &Vec<Vec<u8>>, program_id: &Address) -> (r: Option<
    (Address, u8),
>)
    ensures
        pda_view(r) == program_address(seeds_view(seeds@), program_id@),
{
    let refs: Vec<&[u8]> = seeds.iter().map(|s| s.as_slice()).collect();
    let id = solana_program::pubkey::Pubkey::new_from_array(program_id.bytes);
    match solana_program::pubkey::Pubkey::try_find_program_address(&refs, &id) {
        Some((k, bump)) => Some((Address { bytes: k.to_bytes() }, bump)),
        None => None,
    }
}

/// Calls `solana_sdk::system_program::id()`. Trusted: the system program's id
/// is declared as "11111111111111111111111111111111", the base-58 form of
/// thirty-two zero bytes.
#[verifier::external_body]
pub fn system_program_id() -> (r: Address)
    ensures
        r@ == zero_key(),
{
    Address { bytes: solana_sdk::system_program::id().to_bytes() }
}

} // verus!
