//! The voting program's instructions.
use vstd::prelude::*;

use crate::wire::{exactly, lemma_parse_string_at, lemma_parse_u8_at, lemma_string_bytes_len, parse_string, parse_u8, read_string, read_u8, string_bytes, string_encodable, write_string, WireError};

verus! {

/// The voting program's instructions. Encoding: `[0, description, bump]`
/// (a length-prefixed string, then one byte) for CreateTopic;
/// `[1, option, bump]` for Vote.
#[derive(Debug, Clone)]
pub enum VoteInstruction {
    /// Creates the creator's topic account at its derived address.
    /// Accounts: 0. `[signer]` the creator; 1. `[writable]` the topic address
    /// derived from `["vote_topic", creator]`; 2. `[]` the system program.
    CreateTopic { description: String, bump: u8 },
    /// Records the voter's vote (0 for A, 1 for B) and counts it.
    /// Accounts: 0. `[signer]` the voter; 1. `[writable]` the topic;
    /// 2. `[writable]` the vote record address derived from
    /// `["user_vote", topic, voter]`; 3. `[]` the system program.
    Vote { option: u8, bump: u8 },
}

/// The value of a [`VoteInstruction`].
pub enum VoteInstructionModel {
    CreateTopic { description: Seq<char>, bump: u8 },
    Vote { option: u8, bump: u8 },
}

impl View for VoteInstruction {
    type V = VoteInstructionModel;

    open spec fn view(&self) -> VoteInstructionModel {
        match self {
            VoteInstruction::CreateTopic { description, bump } => {
                VoteInstructionModel::CreateTopic { description: description@, bump: *bump }
            },
            VoteInstruction::Vote { option, bump } => VoteInstructionModel::Vote {
                option: *option,
                bump: *bump,
            },
        }
    }
}

pub open spec fn vote_instruction_encodable(ix: VoteInstructionModel) -> bool {
    match ix {
        VoteInstructionModel::CreateTopic { description, .. } => string_encodable(description),
        VoteInstructionModel::Vote { .. } => true,
    }
}

pub open spec fn vote_instruction_bytes(ix: VoteInstructionModel) -> Seq<u8> {
    match ix {
        VoteInstructionModel::CreateTopic { description, bump } => seq![0u8] + string_bytes(
            description,
        ) + seq![bump],
        VoteInstructionModel::Vote { option, bump } => seq![1u8, option, bump],
    }
}

pub open spec fn parse_vote_instruction(b: Seq<u8>, p: int) -> Result<
    (VoteInstructionModel, int),
    WireError,
> {
    match parse_u8(b, p) {
        Err(e) => Err(e),
        Ok((tag, p1)) => if tag == 0 {
            match parse_string(b, p1) {
                Err(e) => Err(e),
                Ok((description, p2)) => match parse_u8(b, p2) {
                    Err(e) => Err(e),
                    Ok((bump, p3)) => Ok((VoteInstructionModel::CreateTopic { description, bump }, p3)),
                },
            }
        } else if tag == 1 {
            match parse_u8(b, p1) {
                Err(e) => Err(e),
                Ok((option, p2)) => match parse_u8(b, p2) {
                    Err(e) => Err(e),
                    Ok((bump, p3)) => Ok((VoteInstructionModel::Vote { option, bump }, p3)),
                },
            }
        } else {
            Err(WireError::InvalidVariant(tag))
        },
    }
}

impl VoteInstruction {
    /// Reads an instruction at `pos`.
    pub fn deserialize(buf: &[u8], pos: usize) -> (r: Result<(VoteInstruction, usize), WireError>)
        ensures
            match r {
                Ok((ix, q)) => parse_vote_instruction(buf@, pos as int) == Ok::<
                    (VoteInstructionModel, int),
                    WireError,
                >((ix@, q as int)),
                Err(e) => parse_vote_instruction(buf@, pos as int) == Err::<
                    (VoteInstructionModel, int),
                    WireError,
                >(e),
            },
    {
        let (tag, p1) = read_u8(buf, pos)?;
        if tag == 0 {
            let (description, p2) = read_string(buf, p1)?;
            let (bump, p3) = read_u8(buf, p2)?;
            Ok((VoteInstruction::CreateTopic { description, bump }, p3))
        } else if tag == 1 {
            let (option, p2) = read_u8(buf, p1)?;
            let (bump, p3) = read_u8(buf, p2)?;
            Ok((VoteInstruction::Vote { option, bump }, p3))
        } else {
            Err(WireError::InvalidVariant(tag))
        }
    }

    /// Reads an instruction that fills the whole buffer.
    pub fn try_from_slice(buf: &[u8]) -> (r: Result<VoteInstruction, WireError>)
        ensures
            match exactly(parse_vote_instruction(buf@, 0), buf@.len() as int) {
                Ok(m) => r matches Ok(ix) && ix@ == m,
                Err(e) => r matches Err(x) && x == e,
            },
    {
        let (ix, end) = VoteInstruction::deserialize(buf, 0)?;
        if end == buf.len() {
            Ok(ix)
        } else {
            Err(WireError::NotAllBytesRead)
        }
    }

    /// The encoding of the instruction, or `LengthOverflow` when the
    /// description is too long for its length prefix.
    pub fn try_to_vec(&self) -> (r: Result<Vec<u8>, WireError>)
        ensures
            r is Ok <==> vote_instruction_encodable(self@),
            r matches Ok(v) ==> v@ == vote_instruction_bytes(self@),
            r is Err ==> r == Err::<Vec<u8>, WireError>(WireError::LengthOverflow),
    {
        let mut out: Vec<u8> = Vec::new();
        match self {
            VoteInstruction::CreateTopic { description, bump } => {
                out.push(0u8);
                write_string(&mut out, description)?;
                out.push(*bump);
            },
            VoteInstruction::Vote { option, bump } => {
                out.push(1u8);
                out.push(*option);
                out.push(*bump);
            },
        }
        assert(out@ =~= vote_instruction_bytes(self@));
        Ok(out)
    }
}

/// Every encodable instruction reads back from its encoding.
pub proof fn lemma_vote_instruction_roundtrip(ix: VoteInstructionModel)
    requires
        vote_instruction_encodable(ix),
    ensures
        exactly(
            parse_vote_instruction(vote_instruction_bytes(ix), 0),
            vote_instruction_bytes(ix).len() as int,
        ) == Ok::<VoteInstructionModel, WireError>(ix),
{
    let b = vote_instruction_bytes(ix);
    lemma_parse_u8_at(b, 0, b[0]);
    match ix {
        VoteInstructionModel::CreateTopic { description, bump } => {
            let d = string_bytes(description);
            let dl = d.len() as int;
            lemma_string_bytes_len(description);
            assert(b.subrange(1, 1 + dl) =~= d);
            lemma_parse_string_at(b, 1, description);
            lemma_parse_u8_at(b, 1 + dl, bump);
        },
        VoteInstructionModel::Vote { option, bump } => {
            lemma_parse_u8_at(b, 1, option);
            lemma_parse_u8_at(b, 2, bump);
        },
    }
}

} // verus!
