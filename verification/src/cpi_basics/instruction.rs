//! The transfer program's instructions.
use vstd::prelude::*;

use crate::wire::{exactly, lemma_parse_u64_at, lemma_parse_u8_at, lemma_u64_value, parse_u64, parse_u8, read_u64, read_u8, u64_bytes, write_u64, WireError};

verus! {

/// The transfer program's instructions. Encoding: `[0, amount (8 bytes)]` for
/// TransferWithRecord; `[1, amount (8 bytes), bump]` for TransferFromPDA.
#[derive(Debug, Clone, Copy, PartialEq, Eq, Structural)]
pub enum TransferInstruction {
    /// Moves lamports from the signing sender through the system program and
    /// records the transfer.
    /// Accounts: 0. `[signer, writable]` the sender; 1. `[writable]` the
    /// receiver; 2. `[writable]` the record account; 3. `[]` the system
    /// program.
    TransferWithRecord { amount: u64 },
    /// Moves lamports from the program's vault (derived from
    /// `["transfer_vault"]`), the program signing for it, and records the
    /// transfer.
    /// Accounts: 0. `[writable]` the vault; 1. `[writable]` the receiver;
    /// 2. `[writable]` the record account; 3. `[]` the system program.
    TransferFromPDA { amount: u64, bump: u8 },
}

impl View for TransferInstruction {
    type V = TransferInstruction;

    open spec fn view(&self) -> TransferInstruction {
        *self
    }
}

pub open spec fn transfer_instruction_bytes(ix: TransferInstruction) -> Seq<u8> {
    match ix {
        TransferInstruction::TransferWithRecord { amount } => seq![0u8] + u64_bytes(amount),
        TransferInstruction::TransferFromPDA { amount, bump } => seq![1u8] + u64_bytes(amount)
            + seq![bump],
    }
}

pub open spec fn parse_transfer_instruction(b: Seq<u8>, p: int) -> Result<
    (TransferInstruction, int),
    WireError,
> {
    match parse_u8(b, p) {
        Err(e) => Err(e),
        Ok((tag, p1)) => if tag == 0 {
            match parse_u64(b, p1) {
                Err(e) => Err(e),
                Ok((amount, p2)) => Ok((TransferInstruction::TransferWithRecord { amount }, p2)),
            }
        } else if tag == 1 {
            match parse_u64(b, p1) {
                Err(e) => Err(e),
                Ok((amount, p2)) => match parse_u8(b, p2) {
                    Err(e) => Err(e),
                    Ok((bump, p3)) => Ok((TransferInstruction::TransferFromPDA { amount, bump }, p3)),
                },
            }
        } else {
            Err(WireError::InvalidVariant(tag))
        },
    }
}

impl TransferInstruction {
    /// Reads an instruction at `pos`.
    pub fn deserialize(buf: &[u8], pos: usize) -> (r: Result<(TransferInstruction, usize), WireError>)
        ensures
            match r {
                Ok((ix, q)) => parse_transfer_instruction(buf@, pos as int) == Ok::<
                    (TransferInstruction, int),
                    WireError,
                >((ix, q as int)),
                Err(e) => parse_transfer_instruction(buf@, pos as int) == Err::<
                    (TransferInstruction, int),
                    WireError,
                >(e),
            },
    {
        let (tag, p1) = read_u8(buf, pos)?;
        if tag == 0 {
            let (amount, p2) = read_u64(buf, p1)?;
            Ok((TransferInstruction::TransferWithRecord { amount }, p2))
        } else if tag == 1 {
            let (amount, p2) = read_u64(buf, p1)?;
            let (bump, p3) = read_u8(buf, p2)?;
            Ok((TransferInstruction::TransferFromPDA { amount, bump }, p3))
        } else {
            Err(WireError::InvalidVariant(tag))
        }
    }

    /// Reads an instruction that fills the whole buffer.
    pub fn try_from_slice(buf: &[u8]) -> (r: Result<TransferInstruction, WireError>)
        ensures
            r == exactly(parse_transfer_instruction(buf@, 0), buf@.len() as int),
    {
        let (ix, end) = TransferInstruction::deserialize(buf, 0)?;
        if end == buf.len() {
            Ok(ix)
        } else {
            Err(WireError::NotAllBytesRead)
        }
    }

    /// The encoding of the instruction.
    pub fn try_to_vec(&self) -> (r: Vec<u8>)
        ensures
            r@ == transfer_instruction_bytes(*self),
    {
        let mut out: Vec<u8> = Vec::new();
        match *self {
            TransferInstruction::TransferWithRecord { amount } => {
                out.push(0u8);
                write_u64(&mut out, amount);
            },
            TransferInstruction::TransferFromPDA { amount, bump } => {
                out.push(1u8);
                write_u64(&mut out, amount);
                out.push(bump);
            },
        }
        assert(out@ =~= transfer_instruction_bytes(*self));
        out
    }
}

/// Every instruction reads back from its encoding.
pub proof fn lemma_transfer_instruction_roundtrip(ix: TransferInstruction)
    ensures
        exactly(
            parse_transfer_instruction(transfer_instruction_bytes(ix), 0),
            transfer_instruction_bytes(ix).len() as int,
        ) == Ok::<TransferInstruction, WireError>(ix),
{
    let b = transfer_instruction_bytes(ix);
    lemma_parse_u8_at(b, 0, b[0]);
    match ix {
        TransferInstruction::TransferWithRecord { amount } => {
            lemma_u64_value(amount);
            assert(b.subrange(1, 9) =~= u64_bytes(amount));
            lemma_parse_u64_at(b, 1, amount);
        },
        TransferInstruction::TransferFromPDA { amount, bump } => {
            lemma_u64_value(amount);
            assert(b.subrange(1, 9) =~= u64_bytes(amount));
            lemma_parse_u64_at(b, 1, amount);
            lemma_parse_u8_at(b, 9, bump);
        },
    }
}

} // verus!
