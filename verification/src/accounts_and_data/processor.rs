//! The profile program's instruction processing.
//!
//! There are two owners here. The account's owner (`AccountView::owner`) is
//! the program, which alone may write the account's data; the profile's owner
//! (`UserProfile::owner`) is the user who created it, who alone may update or
//! close it.
use vstd::prelude::*;
use vstd::utf8::{decode_utf8, encode_utf8, valid_utf8};

use crate::address::Address;
use crate::runtime::{
    keys_shaped, models, outcome, put_data, set_lamports, store_account_data, with_data, with_lamports,
    zero_account_data, zeros, AccountModel, AccountView, ProgramError,
};
use crate::wire::{exactly, WireError};

use super::instruction::{
    lemma_profile_instruction_roundtrip, parse_profile_instruction, profile_instruction_bytes,
    profile_instruction_encodable, ProfileInstruction, ProfileInstructionModel,
};
use super::state::{
    email_error, lemma_new_profile_reads_back, lemma_profile_canonical, lemma_profile_roundtrip,
    name_error, new_profile, new_profile_error, parse_profile, profile_bytes, profile_shaped,
    with_email, with_name, UserProfile, UserProfileModel,
};

verus! {

/// What CreateProfile does: accounts 0 (payer) and 1 (profile) must both sign,
/// the profile account must belong to the program, and the fields must be
/// acceptable; then the profile, owned by the payer, is written to account 1.
pub open spec fn create_profile_spec(
    program_id: Seq<u8>,
    accounts: Seq<AccountModel>,
    name: Seq<char>,
    age: u8,
    email: Seq<char>,
) -> Result<Seq<AccountModel>, ProgramError> {
    if accounts.len() < 3 {
        Err(ProgramError::NotEnoughAccountKeys)
    } else if !accounts[0].is_signer {
        Err(ProgramError::MissingRequiredSignature)
    } else if !accounts[1].is_signer {
        Err(ProgramError::MissingRequiredSignature)
    } else if accounts[1].owner != program_id {
        Err(ProgramError::IncorrectProgramId)
    } else if new_profile_error(name, email) is Some {
        Err(ProgramError::InvalidInstructionData)
    } else {
        put_data(accounts, 1, profile_bytes(new_profile(accounts[0].key, name, age, email)))
    }
}

/// The profile in account 1, once account 0 has signed, account 1 holds
/// exactly one initialized profile, and account 0 is that profile's owner.
pub open spec fn owned_profile(accounts: Seq<AccountModel>) -> Result<UserProfileModel, ProgramError> {
    if accounts.len() < 2 {
        Err(ProgramError::NotEnoughAccountKeys)
    } else if !accounts[0].is_signer {
        Err(ProgramError::MissingRequiredSignature)
    } else {
        match exactly(parse_profile(accounts[1].data, 0), accounts[1].data.len() as int) {
            Err(e) => Err(ProgramError::BorshIoError(e)),
            Ok(p) => if !p.is_initialized {
                Err(ProgramError::UninitializedAccount)
            } else if p.owner != accounts[0].key {
                Err(ProgramError::IllegalOwner)
            } else {
                Ok(p)
            },
        }
    }
}

/// The profile with the given fields changed (name, then age, then email); a
/// refused name or email is `InvalidInstructionData`.
pub open spec fn updated_profile(
    p: UserProfileModel,
    name: Option<Seq<char>>,
    age: Option<u8>,
    email: Option<Seq<char>>,
) -> Result<UserProfileModel, ProgramError> {
    let after_name = match name {
        None => Ok(p),
        Some(n) => if name_error(n) is Some {
            Err(ProgramError::InvalidInstructionData)
        } else {
            Ok(with_name(p, n))
        },
    };
    match after_name {
        Err(e) => Err(e),
        Ok(p1) => {
            let p2 = match age {
                None => p1,
                Some(a) => UserProfileModel { age: a, ..p1 },
            };
            match email {
                None => Ok(p2),
                Some(m) => if email_error(m) is Some {
                    Err(ProgramError::InvalidInstructionData)
                } else {
                    Ok(with_email(p2, m))
                },
            }
        },
    }
}

/// What UpdateProfile does.
pub open spec fn update_profile_spec(
    accounts: Seq<AccountModel>,
    name: Option<Seq<char>>,
    age: Option<u8>,
    email: Option<Seq<char>>,
) -> Result<Seq<AccountModel>, ProgramError> {
    match owned_profile(accounts) {
        Err(e) => Err(e),
        Ok(p) => match updated_profile(p, name, age, email) {
            Err(e) => Err(e),
            Ok(q) => put_data(accounts, 1, profile_bytes(q)),
        },
    }
}

/// What CloseProfile does: the profile's lamports move to its owner (account
/// 0) and its data is zeroed.
pub open spec fn close_profile_spec(accounts: Seq<AccountModel>) -> Result<
    Seq<AccountModel>,
    ProgramError,
> {
    match owned_profile(accounts) {
        Err(e) => Err(e),
        Ok(p) => if accounts[0].lamports + accounts[1].lamports > u64::MAX {
            Err(ProgramError::ArithmeticOverflow)
        } else {
            let a1 = accounts.update(
                0,
                with_lamports(accounts[0], (accounts[0].lamports + accounts[1].lamports) as u64),
            );
            let a2 = a1.update(1, with_lamports(a1[1], 0));
            Ok(a2.update(1, with_data(a2[1], zeros(a2[1].data.len()))))
        },
    }
}

/// What the program does with an instruction's data.
pub open spec fn profile_program(
    program_id: Seq<u8>,
    accounts: Seq<AccountModel>,
    data: Seq<u8>,
) -> Result<Seq<AccountModel>, ProgramError> {
    match exactly(parse_profile_instruction(data, 0), data.len() as int) {
        Err(_) => Err(ProgramError::InvalidInstructionData),
        Ok(ix) => match ix {
            ProfileInstructionModel::CreateProfile { name, age, email } => create_profile_spec(
                program_id,
                accounts,
                name,
                age,
                email,
            ),
            ProfileInstructionModel::UpdateProfile { name, age, email } => update_profile_spec(
                accounts,
                name,
                age,
                email,
            ),
            ProfileInstructionModel::CloseProfile => close_profile_spec(accounts),
        },
    }
}

fn process_create_profile(
    program_id: &Address,
    accounts: &mut Vec<AccountView>,
    name: String,
    age: u8,
    email: String,
) -> (r: Result<(), ProgramError>)
    ensures
        outcome(
            r,
            models(old(accounts)@),
            models(final(accounts)@),
            create_profile_spec(program_id@, models(old(accounts)@), name@, age, email@),
        ),
{
    if accounts.len() < 3 {
        return Err(ProgramError::NotEnoughAccountKeys);
    }
    if !accounts[0].is_signer {
        return Err(ProgramError::MissingRequiredSignature);
    }
    if !accounts[1].is_signer {
        return Err(ProgramError::MissingRequiredSignature);
    }
    if !accounts[1].owner.equals(program_id) {
        return Err(ProgramError::IncorrectProgramId);
    }
    let payer = accounts[0].key;
    let profile = match UserProfile::new(payer, name, age, email) {
        Ok(p) => p,
        Err(_) => return Err(ProgramError::InvalidInstructionData),
    };
    let enc = profile.try_to_vec();
    store_account_data(accounts, 1, &enc)
}

fn load_owned_profile(accounts: &Vec<AccountView>) -> (r: Result<UserProfile, ProgramError>)
    ensures
        match owned_profile(models(accounts@)) {
            Ok(m) => r matches Ok(p) && p@ == m,
            Err(e) => r == Err::<UserProfile, ProgramError>(e),
        },
{
    if accounts.len() < 2 {
        return Err(ProgramError::NotEnoughAccountKeys);
    }
    if !accounts[0].is_signer {
        return Err(ProgramError::MissingRequiredSignature);
    }
    let profile = match UserProfile::try_from_slice(accounts[1].data.as_slice()) {
        Ok(p) => p,
        Err(e) => return Err(ProgramError::BorshIoError(e)),
    };
    if !profile.is_initialized {
        return Err(ProgramError::UninitializedAccount);
    }
    if !profile.owner.equals(&accounts[0].key) {
        return Err(ProgramError::IllegalOwner);
    }
    Ok(profile)
}

fn process_update_profile(
    accounts: &mut Vec<AccountView>,
    name: Option<String>,
    age: Option<u8>,
    email: Option<String>,
) -> (r: Result<(), ProgramError>)
    ensures
        outcome(
            r,
            models(old(accounts)@),
            models(final(accounts)@),
            update_profile_spec(
                models(old(accounts)@),
                crate::wire::opt_string_view(name),
                age,
                crate::wire::opt_string_view(email),
            ),
        ),
{
    let mut profile = load_owned_profile(accounts)?;
    if let Some(new_name) = name {
        if profile.set_name(new_name).is_err() {
            return Err(ProgramError::InvalidInstructionData);
        }
    }
    if let Some(new_age) = age {
        profile.age = new_age;
    }
    if let Some(new_email) = email {
        if profile.set_email(new_email).is_err() {
            return Err(ProgramError::InvalidInstructionData);
        }
    }
    let enc = profile.try_to_vec();
    store_account_data(accounts, 1, &enc)
}

fn process_close_profile(accounts: &mut Vec<AccountView>) -> (r: Result<(), ProgramError>)
    ensures
        outcome(
            r,
            models(old(accounts)@),
            models(final(accounts)@),
            close_profile_spec(models(old(accounts)@)),
        ),
{
    let _profile = load_owned_profile(accounts)?;
    let dest_starting_lamports = accounts[0].lamports;
    let total = match dest_starting_lamports.checked_add(accounts[1].lamports) {
        Some(t) => t,
        None => return Err(ProgramError::ArithmeticOverflow),
    };
    set_lamports(accounts, 0, total);
    set_lamports(accounts, 1, 0);
    zero_account_data(accounts, 1);
    Ok(())
}

/// The program's entry: decodes the instruction (any decoding failure is
/// `InvalidInstructionData`) and runs it on the accounts.
pub fn process_instruction(
    program_id: &Address,
    accounts: &mut Vec<AccountView>,
    instruction_data: &[u8],
) -> (r: Result<(), ProgramError>)
    ensures
        outcome(
            r,
            models(old(accounts)@),
            models(final(accounts)@),
            profile_program(program_id@, models(old(accounts)@), instruction_data@),
        ),
{
    let instruction = match ProfileInstruction::try_from_slice(instruction_data) {
        Ok(ix) => ix,
        Err(_) => return Err(ProgramError::InvalidInstructionData),
    };
    match instruction {
        ProfileInstruction::CreateProfile { name, age, email } => {
            process_create_profile(program_id, accounts, name, age, email)
        },
        ProfileInstruction::UpdateProfile { name, age, email } => {
            process_update_profile(accounts, name, age, email)
        },
        ProfileInstruction::CloseProfile => process_close_profile(accounts),
    }
}

// ----- laws ------------------------------------------------------------------

/// After CreateProfile the profile account holds the new profile, owned by the
/// payer, whose name and email read back as the strings given; when the
/// account is exactly a profile's size, the payer can go on to update or close
/// it.
pub proof fn lemma_create_then_read(
    program_id: Seq<u8>,
    accounts: Seq<AccountModel>,
    name: Seq<char>,
    age: u8,
    email: Seq<char>,
)
    requires
        keys_shaped(accounts),
        create_profile_spec(program_id, accounts, name, age, email) is Ok,
    ensures
        ({
            let after = create_profile_spec(program_id, accounts, name, age, email)->Ok_0;
            let p = new_profile(accounts[0].key, name, age, email);
            &&& after.len() == accounts.len()
            &&& after[0] == accounts[0]
            &&& after[1].data.len() == accounts[1].data.len()
            &&& parse_profile(after[1].data, 0) == Ok::<(UserProfileModel, int), WireError>(
                (p, 132),
            )
            &&& p.owner == accounts[0].key
            &&& p.is_initialized
            &&& p.age == age
            &&& p.name_len == encode_utf8(name).len()
            &&& p.email_len == encode_utf8(email).len()
            &&& decode_utf8(p.name.subrange(0, p.name_len as int)) == name
            &&& decode_utf8(p.email.subrange(0, p.email_len as int)) == email
            &&& valid_utf8(p.name.subrange(0, p.name_len as int))
            &&& valid_utf8(p.email.subrange(0, p.email_len as int))
            &&& accounts[1].data.len() == 132 ==> owned_profile(after) == Ok::<
                UserProfileModel,
                ProgramError,
            >(p)
        }),
{
    let p = new_profile(accounts[0].key, name, age, email);
    let after = create_profile_spec(program_id, accounts, name, age, email)->Ok_0;
    let d = accounts[1].data;
    let rest = d.skip(132);
    assert(profile_shaped(p));
    lemma_profile_roundtrip(p, rest);
    assert(after[1].data == profile_bytes(p) + rest);
    super::state::lemma_empty_chars(name);
    super::state::lemma_empty_chars(email);
    lemma_new_profile_reads_back(accounts[0].key, name, age, email);
    if d.len() == 132 {
        assert(rest =~= Seq::<u8>::empty());
        assert(after[1].data =~= profile_bytes(p));
    }
}

/// Only the profile's owner can change it: when account 0 is a signer but not
/// the owner of an initialized profile, UpdateProfile and CloseProfile fail
/// with `IllegalOwner` and change nothing.
pub proof fn lemma_only_owner_changes(
    accounts: Seq<AccountModel>,
    name: Option<Seq<char>>,
    age: Option<u8>,
    email: Option<Seq<char>>,
)
    requires
        accounts.len() >= 2,
        accounts[0].is_signer,
        exactly(parse_profile(accounts[1].data, 0), accounts[1].data.len() as int) is Ok,
        exactly(parse_profile(accounts[1].data, 0), accounts[1].data.len() as int)->Ok_0.is_initialized,
        exactly(parse_profile(accounts[1].data, 0), accounts[1].data.len() as int)->Ok_0.owner
            != accounts[0].key,
    ensures
        update_profile_spec(accounts, name, age, email) == Err::<Seq<AccountModel>, ProgramError>(
            ProgramError::IllegalOwner,
        ),
        close_profile_spec(accounts) == Err::<Seq<AccountModel>, ProgramError>(
            ProgramError::IllegalOwner,
        ),
{
}

/// UpdateProfile is all or nothing. It refuses, in this order: an unsigned
/// owner account (`MissingRequiredSignature`), data that is not one profile,
/// an uninitialized profile (`UninitializedAccount`), a signer who is not the
/// profile's owner (`IllegalOwner`), and then a new name or a new email that
/// is empty or too long (`InvalidInstructionData`), even when the other field
/// given is acceptable. On every refusal `process_instruction` leaves the
/// accounts as they were.
pub proof fn lemma_update_profile_refusals(
    accounts: Seq<AccountModel>,
    name: Option<Seq<char>>,
    age: Option<u8>,
    email: Option<Seq<char>>,
)
    requires
        accounts.len() >= 2,
    ensures
        !accounts[0].is_signer ==> update_profile_spec(accounts, name, age, email) == Err::<
            Seq<AccountModel>,
            ProgramError,
        >(ProgramError::MissingRequiredSignature),
        exactly(parse_profile(accounts[1].data, 0), accounts[1].data.len() as int) matches Ok(p)
            ==> accounts[0].is_signer ==> {
            &&& !p.is_initialized ==> update_profile_spec(accounts, name, age, email) == Err::<
                Seq<AccountModel>,
                ProgramError,
            >(ProgramError::UninitializedAccount)
            &&& p.is_initialized && p.owner != accounts[0].key ==> update_profile_spec(
                accounts,
                name,
                age,
                email,
            ) == Err::<Seq<AccountModel>, ProgramError>(ProgramError::IllegalOwner)
        },
        name matches Some(n) ==> owned_profile(accounts) is Ok && name_error(n) is Some
            ==> update_profile_spec(accounts, name, age, email) == Err::<
            Seq<AccountModel>,
            ProgramError,
        >(ProgramError::InvalidInstructionData),
        email matches Some(m) ==> owned_profile(accounts) is Ok && email_error(m) is Some
            ==> update_profile_spec(accounts, name, age, email) == Err::<
            Seq<AccountModel>,
            ProgramError,
        >(ProgramError::InvalidInstructionData),
{
}

/// An update keeps the profile's owner and initialized flag and stores
/// exactly the updated profile, which its owner can read and change again.
pub proof fn lemma_update_keeps_owner(
    accounts: Seq<AccountModel>,
    name: Option<Seq<char>>,
    age: Option<u8>,
    email: Option<Seq<char>>,
)
    requires
        update_profile_spec(accounts, name, age, email) is Ok,
    ensures
        ({
            let p = owned_profile(accounts)->Ok_0;
            let q = updated_profile(p, name, age, email)->Ok_0;
            let after = update_profile_spec(accounts, name, age, email)->Ok_0;
            &&& q.owner == p.owner
            &&& q.is_initialized
            &&& after[1].data == profile_bytes(q)
            &&& owned_profile(after) == Ok::<UserProfileModel, ProgramError>(q)
            &&& age matches Some(a) ==> q.age == a
            &&& age is None ==> q.age == p.age
        }),
        ({
            let p = owned_profile(accounts)->Ok_0;
            let after = update_profile_spec(accounts, name, age, email)->Ok_0;
            let r = owned_profile(after)->Ok_0;
            &&& owned_profile(after) is Ok
            &&& r.owner == p.owner
            &&& name matches Some(n) ==> {
                &&& r.name_len == encode_utf8(n).len()
                &&& r.name.subrange(0, r.name_len as int) == encode_utf8(n)
                &&& valid_utf8(r.name.subrange(0, r.name_len as int))
                &&& decode_utf8(r.name.subrange(0, r.name_len as int)) == n
            }
            &&& name is None ==> r.name == p.name && r.name_len == p.name_len
            &&& email matches Some(m) ==> {
                &&& r.email_len == encode_utf8(m).len()
                &&& r.email.subrange(0, r.email_len as int) == encode_utf8(m)
                &&& valid_utf8(r.email.subrange(0, r.email_len as int))
                &&& decode_utf8(r.email.subrange(0, r.email_len as int)) == m
            }
            &&& email is None ==> r.email == p.email && r.email_len == p.email_len
        }),
{
    let d = accounts[1].data;
    lemma_profile_canonical(d);
    let p = owned_profile(accounts)->Ok_0;
    let q = updated_profile(p, name, age, email)->Ok_0;
    if name is Some {
        let n = name->Some_0;
        let e = encode_utf8(n);
        assert(q.name.subrange(0, q.name_len as int) =~= e);
        vstd::utf8::encode_utf8_valid_utf8(n);
        vstd::utf8::encode_utf8_decode_utf8(n);
    }
    if email is Some {
        let m = email->Some_0;
        let e = encode_utf8(m);
        assert(q.email.subrange(0, q.email_len as int) =~= e);
        vstd::utf8::encode_utf8_valid_utf8(m);
        vstd::utf8::encode_utf8_decode_utf8(m);
    }
    assert(profile_shaped(q));
    lemma_profile_roundtrip(q, Seq::empty());
    assert(d.skip(132) =~= Seq::<u8>::empty());
    assert(profile_bytes(q) + Seq::<u8>::empty() =~= profile_bytes(q));
}

/// Closing moves every lamport of the profile to its owner (their sum is
/// kept), zeroes the profile's data, and leaves a profile that can no longer
/// be updated or closed.
pub proof fn lemma_close_profile(accounts: Seq<AccountModel>)
    requires
        close_profile_spec(accounts) is Ok,
    ensures
        ({
            let after = close_profile_spec(accounts)->Ok_0;
            &&& after.len() == accounts.len()
            &&& after[0].lamports + after[1].lamports == accounts[0].lamports
                + accounts[1].lamports
            &&& after[1].lamports == 0
            &&& after[0].lamports == accounts[0].lamports + accounts[1].lamports
            &&& after[0].data == accounts[0].data
            &&& after[0].key == accounts[0].key
            &&& after[1].key == accounts[1].key
            &&& after[1].owner == accounts[1].owner
            &&& after[1].data == zeros(accounts[1].data.len())
            &&& owned_profile(after) == Err::<UserProfileModel, ProgramError>(
                ProgramError::UninitializedAccount,
            )
        }),
{
    let d = accounts[1].data;
    lemma_profile_canonical(d);
    let after = close_profile_spec(accounts)->Ok_0;
    let z = after[1].data;
    assert(z.len() == 132);
    assert(z[0] == 0u8);
}

/// The program decodes the encoding of every instruction back to that
/// instruction.
pub proof fn lemma_profile_instruction_dispatch(
    program_id: Seq<u8>,
    accounts: Seq<AccountModel>,
    ix: ProfileInstructionModel,
)
    requires
        profile_instruction_encodable(ix),
    ensures
        profile_program(program_id, accounts, profile_instruction_bytes(ix)) == match ix {
            ProfileInstructionModel::CreateProfile { name, age, email } => create_profile_spec(
                program_id,
                accounts,
                name,
                age,
                email,
            ),
            ProfileInstructionModel::UpdateProfile { name, age, email } => update_profile_spec(
                accounts,
                name,
                age,
                email,
            ),
            ProfileInstructionModel::CloseProfile => close_profile_spec(accounts),
        },
{
    lemma_profile_instruction_roundtrip(ix);
}

} // verus!
