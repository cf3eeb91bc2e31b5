//! The calculator's instructions.
use vstd::prelude::*;

use crate::wire::{exactly, i64_bytes, lemma_parse_i64_at, lemma_parse_u8_at, lemma_u64_value, parse_i64, parse_u8, read_i64, read_u8, write_i64, WireError};

verus! {

/// The calculator's instructions: one operation on two signed 64-bit
/// operands. Encoding: the variant's index (Add = 0, Subtract = 1,
/// Multiply = 2, Divide = 3), then `a` and `b`, 8 bytes each, little endian.
/// Accounts: 0. `[writable]` the result account, owned by the program.
#[derive(Debug, Clone, Copy, PartialEq, Eq, Structural)]
pub enum CalculatorInstruction {
    /// `a + b`.
    Add { a: i64, b: i64 },
    /// `a - b`.
    Subtract { a: i64, b: i64 },
    /// `a * b`.
    Multiply { a: i64, b: i64 },
    /// `a / b`, rounded toward zero.
    Divide { a: i64, b: i64 },
}

impl View for CalculatorInstruction {
    type V = CalculatorInstruction;

    open spec fn view(&self) -> CalculatorInstruction {
        *self
    }
}

pub open spec fn calculator_instruction_bytes(ix: CalculatorInstruction) -> Seq<u8> {
    match ix {
        CalculatorInstruction::Add { a, b } => seq![0u8] + i64_bytes(a) + i64_bytes(b),
        CalculatorInstruction::Subtract { a, b } => seq![1u8] + i64_bytes(a) + i64_bytes(b),
        CalculatorInstruction::Multiply { a, b } => seq![2u8] + i64_bytes(a) + i64_bytes(b),
        CalculatorInstruction::Divide { a, b } => seq![3u8] + i64_bytes(a) + i64_bytes(b),
    }
}

pub open spec fn parse_calculator_instruction(b: Seq<u8>, p: int) -> Result<
    (CalculatorInstruction, int),
    WireError,
> {
    match parse_u8(b, p) {
        Err(e) => Err(e),
        Ok((tag, p1)) => if tag > 3 {
            Err(WireError::InvalidVariant(tag))
        } else {
            match parse_i64(b, p1) {
                Err(e) => Err(e),
                Ok((x, p2)) => match parse_i64(b, p2) {
                    Err(e) => Err(e),
                    Ok((y, p3)) => Ok(
                        (
                            if tag == 0 {
                                CalculatorInstruction::Add { a: x, b: y }
                            } else if tag == 1 {
                                CalculatorInstruction::Subtract { a: x, b: y }
                            } else if tag == 2 {
                                CalculatorInstruction::Multiply { a: x, b: y }
                            } else {
                                CalculatorInstruction::Divide { a: x, b: y }
                            },
                            p3,
                        ),
                    ),
                },
            }
        },
    }
}

impl CalculatorInstruction {
    /// Reads an instruction at `pos`.
    pub fn deserialize(buf: &[u8], pos: usize) -> (r: Result<(CalculatorInstruction, usize), WireError>)
        ensures
            match r {
                Ok((ix, q)) => parse_calculator_instruction(buf@, pos as int) == Ok::<
                    (CalculatorInstruction, int),
                    WireError,
                >((ix, q as int)),
                Err(e) => parse_calculator_instruction(buf@, pos as int) == Err::<
                    (CalculatorInstruction, int),
                    WireError,
                >(e),
            },
    {
        let (tag, p1) = read_u8(buf, pos)?;
        if tag > 3 {
            return Err(WireError::InvalidVariant(tag));
        }
        let (a, p2) = read_i64(buf, p1)?;
        let (b, p3) = read_i64(buf, p2)?;
        let ix = if tag == 0 {
            CalculatorInstruction::Add { a, b }
        } else if tag == 1 {
            CalculatorInstruction::Subtract { a, b }
        } else if tag == 2 {
            CalculatorInstruction::Multiply { a, b }
        } else {
            CalculatorInstruction::Divide { a, b }
        };
        Ok((ix, p3))
    }

    /// Reads an instruction that fills the whole buffer.
    pub fn try_from_slice(buf: &[u8]) -> (r: Result<CalculatorInstruction, WireError>)
        ensures
            r == exactly(parse_calculator_instruction(buf@, 0), buf@.len() as int),
    {
        let (ix, end) = CalculatorInstruction::deserialize(buf, 0)?;
        if end == buf.len() {
            Ok(ix)
        } else {
            Err(WireError::NotAllBytesRead)
        }
    }

    /// The encoding of the instruction.
    pub fn try_to_vec(&self) -> (r: Vec<u8>)
        ensures
            r@ == calculator_instruction_bytes(*self),
    {
        let mut out: Vec<u8> = Vec::new();
        let (tag, a, b): (u8, i64, i64) = match *self {
            CalculatorInstruction::Add { a, b } => (0u8, a, b),
            CalculatorInstruction::Subtract { a, b } => (1u8, a, b),
            CalculatorInstruction::Multiply { a, b } => (2u8, a, b),
            CalculatorInstruction::Divide { a, b } => (3u8, a, b),
        };
        out.push(tag);
        write_i64(&mut out, a);
        write_i64(&mut out, b);
        assert(out@ =~= calculator_instruction_bytes(*self));
        out
    }
}

/// Every instruction reads back from its encoding.
pub proof fn lemma_calculator_instruction_roundtrip(ix: CalculatorInstruction)
    ensures
        calculator_instruction_bytes(ix).len() == 17,
        exactly(parse_calculator_instruction(calculator_instruction_bytes(ix), 0), 17) == Ok::<
            CalculatorInstruction,
            WireError,
        >(ix),
{
    let b = calculator_instruction_bytes(ix);
    let (x, y): (i64, i64) = match ix {
        CalculatorInstruction::Add { a, b } => (a, b),
        CalculatorInstruction::Subtract { a, b } => (a, b),
        CalculatorInstruction::Multiply { a, b } => (a, b),
        CalculatorInstruction::Divide { a, b } => (a, b),
    };
    lemma_u64_value(x as u64);
    lemma_u64_value(y as u64);
    assert(b.len() == 17);
    lemma_parse_u8_at(b, 0, b[0]);
    assert(b.subrange(1, 9) =~= i64_bytes(x));
    lemma_parse_i64_at(b, 1, x);
    assert(b.subrange(9, 17) =~= i64_bytes(y));
    lemma_parse_i64_at(b, 9, y);
}

} // verus!
