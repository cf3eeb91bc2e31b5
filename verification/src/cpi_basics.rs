//! A transfer program: it moves lamports through the system program, either
//! from a signing sender or from its own vault at a derived address, and
//! records each transfer in a record account.
pub mod error;
pub mod instruction;
pub mod state;

use vstd::prelude::*;

use crate::address::Address;
use crate::runtime::{
    find_program_address, keys_shaped, models, outcome, pda_view, program_address, put_data,
    store_account_data, AccountModel, AccountView, ProgramError, TransferModel, TransferRequest,
};
use crate::wire::WireError;
use error::{transfer_err, TransferError};
use state::{lemma_record_roundtrip, parse_record, record_bytes, TransferRecord, TransferRecordModel};

verus! {

/// The bytes of "transfer_vault", the one seed of the vault's address.
pub open spec fn vault_seed() -> Seq<u8> {
    seq![116u8, 114u8, 97u8, 110u8, 115u8, 102u8, 101u8, 114u8, 95u8, 118u8, 97u8, 117u8, 108u8, 116u8]
}

/// The vault's address is derived from the one seed "transfer_vault".
pub open spec fn vault_seeds() -> Seq<Seq<u8>> {
    seq![vault_seed()]
}

fn vault_seed_vec() -> (r: Vec<u8>)
    ensures
        r@ == vault_seed(),
{
    let v: Vec<u8> = vec![116u8, 114u8, 97u8, 110u8, 115u8, 102u8, 101u8, 114u8, 95u8, 118u8, 97u8, 117u8, 108u8, 116u8];
    assert(v@ =~= vault_seed());
    v
}

pub open spec fn transfer_request_view(r: Option<Result<TransferRequest, ProgramError>>) -> Option<
    Result<TransferModel, ProgramError>,
> {
    match r {
        None => None,
        Some(Err(e)) => Some(Err(e)),
        Some(Ok(q)) => Some(Ok(q@)),
    }
}

/// The checks TransferWithRecord makes: four accounts, a signing sender, an
/// amount above zero, and a record account that belongs to the program. The
/// transfer asked for is the amount from account 0 to account 1, with no seeds
/// (the sender signed).
pub open spec fn transfer_with_record_plan(
    program_id: Seq<u8>,
    accounts: Seq<AccountModel>,
    amount: u64,
) -> Result<TransferModel, ProgramError> {
    if accounts.len() < 4 {
        Err(ProgramError::NotEnoughAccountKeys)
    } else if !accounts[0].is_signer {
        Err(ProgramError::MissingRequiredSignature)
    } else if amount == 0 {
        Err(transfer_err(TransferError::InvalidAmount))
    } else if accounts[2].owner != program_id {
        Err(ProgramError::IncorrectProgramId)
    } else {
        Ok(TransferModel { from: 0, to: 1, lamports: amount, signer_seeds: Seq::empty() })
    }
}

/// The checks TransferFromPDA makes, given what the derivation of the vault's
/// address found (`None` when no bump seed gives an address, where the program
/// cannot go on): four accounts, an amount above zero, account 0 at the
/// vault's address with the derived bump seed, and a record account that
/// belongs to the program. The transfer asked for is the amount from the vault
/// to account 1, the program signing with the vault's seed and bump.
pub open spec fn transfer_from_pda_plan(
    program_id: Seq<u8>,
    accounts: Seq<AccountModel>,
    amount: u64,
    bump: u8,
    derived: Option<(Seq<u8>, u8)>,
) -> Option<Result<TransferModel, ProgramError>> {
    if accounts.len() < 4 {
        Some(Err(ProgramError::NotEnoughAccountKeys))
    } else if amount == 0 {
        Some(Err(transfer_err(TransferError::InvalidAmount)))
    } else {
        match derived {
            None => None,
            Some((key, expected_bump)) => if accounts[0].key != key || bump != expected_bump {
                Some(Err(ProgramError::InvalidSeeds))
            } else if accounts[2].owner != program_id {
                Some(Err(ProgramError::IncorrectProgramId))
            } else {
                Some(
                    Ok(
                        TransferModel {
                            from: 0,
                            to: 1,
                            lamports: amount,
                            signer_seeds: seq![vault_seed(), seq![bump]],
                        },
                    ),
                )
            },
        }
    }
}

/// The record either instruction writes once the transfer is done: from
/// account 0 to account 1, the amount, and the slot the clock gave.
pub open spec fn new_record(accounts: Seq<AccountModel>, amount: u64, slot: u64) -> TransferRecordModel {
    TransferRecordModel {
        is_initialized: true,
        from: accounts[0].key,
        to: accounts[1].key,
        amount,
        timestamp: slot,
    }
}

/// Writing the record into account 2.
pub open spec fn record_finish(accounts: Seq<AccountModel>, amount: u64, slot: u64) -> Result<
    Seq<AccountModel>,
    ProgramError,
> {
    put_data(accounts, 2, record_bytes(new_record(accounts, amount, slot)))
}

/// TransferWithRecord up to the transfer: makes the checks and returns the
/// transfer to ask the system program for before `finish_transfer`.
pub fn begin_transfer_with_record(
    program_id: &Address,
    accounts: &Vec<AccountView>,
    amount: u64,
) -> (r: Result<TransferRequest, ProgramError>)
    ensures
        match transfer_with_record_plan(program_id@, models(accounts@), amount) {
            Ok(m) => r matches Ok(q) && q@ == m,
            Err(e) => r matches Err(x) && x == e,
        },
{
    if accounts.len() < 4 {
        return Err(ProgramError::NotEnoughAccountKeys);
    }
    if !accounts[0].is_signer {
        return Err(ProgramError::MissingRequiredSignature);
    }
    if amount == 0 {
        return Err(ProgramError::from(TransferError::InvalidAmount));
    }
    if !accounts[2].owner.equals(program_id) {
        return Err(ProgramError::IncorrectProgramId);
    }
    let request = TransferRequest { from: 0, to: 1, lamports: amount, signer_seeds: Vec::new() };
    assert(request@.signer_seeds =~= Seq::<Seq<u8>>::empty());
    Ok(request)
}

/// Makes TransferFromPDA's checks with the derivation result given.
pub fn plan_transfer_from_pda(
    program_id: &Address,
    accounts: &Vec<AccountView>,
    amount: u64,
    bump: u8,
    derived: Option<(Address, u8)>,
) -> (r: Option<Result<TransferRequest, ProgramError>>)
    ensures
        transfer_request_view(r) == transfer_from_pda_plan(
            program_id@,
            models(accounts@),
            amount,
            bump,
            pda_view(derived),
        ),
{
    if accounts.len() < 4 {
        return Some(Err(ProgramError::NotEnoughAccountKeys));
    }
    if amount == 0 {
        return Some(Err(ProgramError::from(TransferError::InvalidAmount)));
    }
    let (expected_pda, expected_bump) = match derived {
        None => return None,
        Some(d) => d,
    };
    if !accounts[0].key.equals(&expected_pda) || bump != expected_bump {
        return Some(Err(ProgramError::InvalidSeeds));
    }
    if !accounts[2].owner.equals(program_id) {
        return Some(Err(ProgramError::IncorrectProgramId));
    }
    let mut signer_seeds: Vec<Vec<u8>> = Vec::new();
    signer_seeds.push(vault_seed_vec());
    let bump_seed: Vec<u8> = vec![bump];
    assert(bump_seed@ =~= seq![bump]);
    signer_seeds.push(bump_seed);
    let request = TransferRequest { from: 0, to: 1, lamports: amount, signer_seeds };
    assert(request@.signer_seeds =~= seq![vault_seed(), seq![bump]]) by {
        assert(signer_seeds@[0]@ == vault_seed());
        assert(signer_seeds@[1]@ == seq![bump]);
    }
    Some(Ok(request))
}

/// TransferFromPDA up to the transfer: derives the vault's address from
/// `["transfer_vault"]` and makes the checks. `None` when the derivation finds
/// no address (where the program cannot go on); otherwise the error to
/// return, or the signed transfer to ask the system program for before
/// `finish_transfer`.
pub fn begin_transfer_from_pda(
    program_id: &Address,
    accounts: &Vec<AccountView>,
    amount: u64,
    bump: u8,
) -> (r: Option<Result<TransferRequest, ProgramError>>)
    ensures
        transfer_request_view(r) == transfer_from_pda_plan(
            program_id@,
            models(accounts@),
            amount,
            bump,
            program_address(vault_seeds(), program_id@),
        ),
{
    let mut seeds: Vec<Vec<u8>> = Vec::new();
    seeds.push(vault_seed_vec());
    let derived = find_program_address(&seeds, program_id);
    proof {
        assert(crate::runtime::seeds_view(seeds@) =~= vault_seeds());
    }
    plan_transfer_from_pda(program_id, accounts, amount, bump, derived)
}

/// Either instruction after the transfer: writes the record (from account 0
/// to account 1, the amount, the slot `slot` the clock gave) into account 2.
pub fn finish_transfer(accounts: &mut Vec<AccountView>, amount: u64, slot: u64) -> (r: Result<
    (),
    ProgramError,
>)
    requires
        old(accounts)@.len() >= 3,
    ensures
        outcome(
            r,
            models(old(accounts)@),
            models(final(accounts)@),
            record_finish(models(old(accounts)@), amount, slot),
        ),
{
    let transfer_record = TransferRecord {
        is_initialized: true,
        from: accounts[0].key,
        to: accounts[1].key,
        amount,
        timestamp: slot,
    };
    let enc = transfer_record.try_to_vec();
    store_account_data(accounts, 2, &enc)
}

// ----- laws ------------------------------------------------------------------

/// After the transfer the record account reads back as the record of it: from
/// account 0 to account 1, the amount and the slot given, whether or not
/// account 0 signed; when the account is a record's size the record fills it.
/// No other account changes.
pub proof fn lemma_record_reads_back(accounts: Seq<AccountModel>, amount: u64, slot: u64)
    requires
        keys_shaped(accounts),
        accounts.len() >= 3,
        record_finish(accounts, amount, slot) is Ok,
    ensures
        ({
            let after = record_finish(accounts, amount, slot)->Ok_0;
            &&& parse_record(after[2].data, 0) == Ok::<(TransferRecordModel, int), WireError>(
                (
                    TransferRecordModel {
                        is_initialized: true,
                        from: accounts[0].key,
                        to: accounts[1].key,
                        amount: amount,
                        timestamp: slot,
                    },
                    81,
                ),
            )
            &&& accounts[2].data.len() == 81 ==> after[2].data == record_bytes(
                new_record(accounts, amount, slot),
            )
            &&& after.len() == accounts.len()
            &&& forall|i: int| 0 <= i < accounts.len() && i != 2 ==> after[i] == accounts[i]
        }),
{
    let rec = new_record(accounts, amount, slot);
    lemma_record_roundtrip(rec, accounts[2].data.skip(81));
    if accounts[2].data.len() == 81 {
        assert(record_bytes(rec) + accounts[2].data.skip(81) =~= record_bytes(rec));
    }
}

/// The program signs only for its vault: whenever TransferFromPDA asks for a
/// transfer, the sender is the account at the address derived from
/// `["transfer_vault"]` with the bump given, the seeds it signs with are that
/// seed and bump, and the amount is the one asked for, above zero. Transfers
/// asked for by TransferWithRecord carry no seeds and come from a signer.
pub proof fn lemma_signs_only_for_vault(
    program_id: Seq<u8>,
    accounts: Seq<AccountModel>,
    amount: u64,
    bump: u8,
    derived: Option<(Seq<u8>, u8)>,
)
    ensures
        transfer_from_pda_plan(program_id, accounts, amount, bump, derived) matches Some(Ok(t))
            ==> derived == Some((accounts[0].key, bump)) && t.signer_seeds == seq![
            vault_seed(),
            seq![bump],
        ] && t.from == 0 && t.to == 1 && t.lamports == amount && amount > 0,
        transfer_with_record_plan(program_id, accounts, amount) matches Ok(t) ==> accounts[0].is_signer
            && t.signer_seeds.len() == 0 && t.from == 0 && t.to == 1 && t.lamports == amount
            && amount > 0,
{
}

} // verus!
