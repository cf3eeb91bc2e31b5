//! The profile program's instructions.
use vstd::prelude::*;

use crate::wire::{exactly, lemma_parse_option_string_at, lemma_parse_option_u8_at, lemma_parse_string_at, lemma_parse_u8_at, opt_string_view, option_string_bytes, option_string_encodable, option_u8_bytes, parse_option_string, parse_option_u8, parse_string, parse_u8, read_option_string, read_option_u8, read_string, read_u8, string_bytes, string_encodable, write_option_string, write_option_u8, write_string, WireError};

verus! {

/// The profile program's instructions.
#[derive(Debug, Clone, PartialEq)]
pub enum ProfileInstruction {
    /// Creates a profile owned by the payer.
    /// Accounts: 0. `[signer, writable]` payer; 1. `[signer, writable]` the
    /// new profile account; 2. `[]` the system program.
    CreateProfile { name: String, age: u8, email: String },
    /// Changes the fields given (`None` leaves a field as it is).
    /// Accounts: 0. `[signer]` the profile's owner; 1. `[writable]` the
    /// profile account.
    UpdateProfile { name: Option<String>, age: Option<u8>, email: Option<String> },
    /// Closes the profile and returns its lamports to the owner.
    /// Accounts: 0. `[signer, writable]` the owner; 1. `[writable]` the
    /// profile account.
    CloseProfile,
}

/// The value of a [`ProfileInstruction`].
pub enum ProfileInstructionModel {
    CreateProfile { name: Seq<char>, age: u8, email: Seq<char> },
    UpdateProfile { name: Option<Seq<char>>, age: Option<u8>, email: Option<Seq<char>> },
    CloseProfile,
}

impl View for ProfileInstruction {
    type V = ProfileInstructionModel;

    open spec fn view(&self) -> ProfileInstructionModel {
        match self {
            ProfileInstruction::CreateProfile { name, age, email } => {
                ProfileInstructionModel::CreateProfile { name: name@, age: *age, email: email@ }
            },
            ProfileInstruction::UpdateProfile { name, age, email } => {
                ProfileInstructionModel::UpdateProfile {
                    name: opt_string_view(*name),
                    age: *age,
                    email: opt_string_view(*email),
                }
            },
            ProfileInstruction::CloseProfile => ProfileInstructionModel::CloseProfile,
        }
    }
}

/// The instruction's strings fit the format.
pub open spec fn profile_instruction_encodable(ix: ProfileInstructionModel) -> bool {
    match ix {
        ProfileInstructionModel::CreateProfile { name, age, email } => string_encodable(name)
            && string_encodable(email),
        ProfileInstructionModel::UpdateProfile { name, age, email } => option_string_encodable(
            name,
        ) && option_string_encodable(email),
        ProfileInstructionModel::CloseProfile => true,
    }
}

pub open spec fn profile_instruction_bytes(ix: ProfileInstructionModel) -> Seq<u8> {
    match ix {
        ProfileInstructionModel::CreateProfile { name, age, email } => seq![0u8] + string_bytes(
            name,
        ) + seq![age] + string_bytes(email),
        ProfileInstructionModel::UpdateProfile { name, age, email } => seq![1u8]
            + option_string_bytes(name) + option_u8_bytes(age) + option_string_bytes(email),
        ProfileInstructionModel::CloseProfile => seq![2u8],
    }
}

pub open spec fn parse_profile_instruction(b: Seq<u8>, p: int) -> Result<
    (ProfileInstructionModel, int),
    WireError,
> {
    match parse_u8(b, p) {
        Err(e) => Err(e),
        Ok((tag, p1)) => if tag == 0 {
            match parse_string(b, p1) {
                Err(e) => Err(e),
                Ok((name, p2)) => match parse_u8(b, p2) {
                    Err(e) => Err(e),
                    Ok((age, p3)) => match parse_string(b, p3) {
                        Err(e) => Err(e),
                        Ok((email, p4)) => Ok(
                            (ProfileInstructionModel::CreateProfile { name, age, email }, p4),
                        ),
                    },
                },
            }
        } else if tag == 1 {
            match parse_option_string(b, p1) {
                Err(e) => Err(e),
                Ok((name, p2)) => match parse_option_u8(b, p2) {
                    Err(e) => Err(e),
                    Ok((age, p3)) => match parse_option_string(b, p3) {
                        Err(e) => Err(e),
                        Ok((email, p4)) => Ok(
                            (ProfileInstructionModel::UpdateProfile { name, age, email }, p4),
                        ),
                    },
                },
            }
        } else if tag == 2 {
            Ok((ProfileInstructionModel::CloseProfile, p1))
        } else {
            Err(WireError::InvalidVariant(tag))
        },
    }
}

impl ProfileInstruction {
    /// Reads an instruction at `pos`.
    pub fn deserialize(buf: &[u8], pos: usize) -> (r: Result<(ProfileInstruction, usize), WireError>)
        ensures
            match r {
                Ok((ix, q)) => parse_profile_instruction(buf@, pos as int) == Ok::<
                    (ProfileInstructionModel, int),
                    WireError,
                >((ix@, q as int)),
                Err(e) => parse_profile_instruction(buf@, pos as int) == Err::<
                    (ProfileInstructionModel, int),
                    WireError,
                >(e),
            },
    {
        let (tag, p1) = read_u8(buf, pos)?;
        if tag == 0 {
            let (name, p2) = read_string(buf, p1)?;
            let (age, p3) = read_u8(buf, p2)?;
            let (email, p4) = read_string(buf, p3)?;
            Ok((ProfileInstruction::CreateProfile { name, age, email }, p4))
        } else if tag == 1 {
            let (name, p2) = read_option_string(buf, p1)?;
            let (age, p3) = read_option_u8(buf, p2)?;
            let (email, p4) = read_option_string(buf, p3)?;
            Ok((ProfileInstruction::UpdateProfile { name, age, email }, p4))
        } else if tag == 2 {
            Ok((ProfileInstruction::CloseProfile, p1))
        } else {
            Err(WireError::InvalidVariant(tag))
        }
    }

    /// Reads an instruction that fills the whole buffer.
    pub fn try_from_slice(buf: &[u8]) -> (r: Result<ProfileInstruction, WireError>)
        ensures
            match exactly(parse_profile_instruction(buf@, 0), buf@.len() as int) {
                Ok(m) => r matches Ok(ix) && ix@ == m,
                Err(e) => r matches Err(x) && x == e,
            },
    {
        let (ix, end) = ProfileInstruction::deserialize(buf, 0)?;
        if end == buf.len() {
            Ok(ix)
        } else {
            Err(WireError::NotAllBytesRead)
        }
    }

    /// The encoding of the instruction, or `LengthOverflow` when a string is
    /// too long for its length prefix.
    pub fn try_to_vec(&self) -> (r: Result<Vec<u8>, WireError>)
        ensures
            r is Ok <==> profile_instruction_encodable(self@),
            r matches Ok(v) ==> v@ == profile_instruction_bytes(self@),
            r is Err ==> r == Err::<Vec<u8>, WireError>(WireError::LengthOverflow),
    {
        let mut out: Vec<u8> = Vec::new();
        match self {
            ProfileInstruction::CreateProfile { name, age, email } => {
                out.push(0u8);
                write_string(&mut out, name)?;
                out.push(*age);
                write_string(&mut out, email)?;
            },
            ProfileInstruction::UpdateProfile { name, age, email } => {
                out.push(1u8);
                write_option_string(&mut out, name)?;
                write_option_u8(&mut out, *age);
                write_option_string(&mut out, email)?;
            },
            ProfileInstruction::CloseProfile => {
                out.push(2u8);
            },
        }
        assert(out@ =~= profile_instruction_bytes(self@));
        Ok(out)
    }
}

/// Every encodable instruction reads back from its encoding.
pub proof fn lemma_profile_instruction_roundtrip(ix: ProfileInstructionModel)
    requires
        profile_instruction_encodable(ix),
    ensures
        exactly(
            parse_profile_instruction(profile_instruction_bytes(ix), 0),
            profile_instruction_bytes(ix).len() as int,
        ) == Ok::<ProfileInstructionModel, WireError>(ix),
{
    let b = profile_instruction_bytes(ix);
    lemma_parse_u8_at(b, 0, b[0]);
    match ix {
        ProfileInstructionModel::CreateProfile { name, age, email } => {
            let n = string_bytes(name);
            let e = string_bytes(email);
            let nl = n.len() as int;
            let el = e.len() as int;
            assert(b.subrange(1, 1 + nl) =~= n);
            lemma_parse_string_at(b, 1, name);
            lemma_parse_u8_at(b, 1 + nl, age);
            assert(b.subrange(2 + nl, 2 + nl + el) =~= e);
            lemma_parse_string_at(b, 2 + nl, email);
        },
        ProfileInstructionModel::UpdateProfile { name, age, email } => {
            let n = option_string_bytes(name);
            let a = option_u8_bytes(age);
            let e = option_string_bytes(email);
            let nl = n.len() as int;
            let al = a.len() as int;
            let el = e.len() as int;
            assert(b.subrange(1, 1 + nl) =~= n);
            lemma_parse_option_string_at(b, 1, name);
            assert(b.subrange(1 + nl, 1 + nl + al) =~= a);
            lemma_parse_option_u8_at(b, 1 + nl, age);
            assert(b.subrange(1 + nl + al, 1 + nl + al + el) =~= e);
            lemma_parse_option_string_at(b, 1 + nl + al, email);
        },
        ProfileInstructionModel::CloseProfile => {},
    }
}

} // verus!
