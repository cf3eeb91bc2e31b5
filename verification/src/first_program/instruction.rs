//! The counter program's instructions.
use vstd::prelude::*;

use crate::wire::{agrees, exactly, parse_u8, read_u8, WireError};

verus! {

/// The counter program's instructions; each is encoded as its one-byte index
/// (Initialize = 0, Increment = 1, Decrement = 2, Reset = 3).
#[derive(Debug, Clone, Copy, PartialEq, Eq, Structural)]
pub enum CounterInstruction {
    /// Sets the count to 0 and marks the counter initialized.
    /// Accounts: 0. `[writable]` the counter.
    Initialize,
    /// Adds one to the count (fails rather than overflow).
    /// Accounts: 0. `[writable]` the counter, initialized.
    Increment,
    /// Takes one from the count (fails rather than go below zero).
    /// Accounts: 0. `[writable]` the counter, initialized.
    Decrement,
    /// Sets the count to 0.
    /// Accounts: 0. `[writable]` the counter, initialized.
    Reset,
}

impl View for CounterInstruction {
    type V = CounterInstruction;

    open spec fn view(&self) -> CounterInstruction {
        *self
    }
}

pub open spec fn counter_instruction_bytes(ix: CounterInstruction) -> Seq<u8> {
    match ix {
        CounterInstruction::Initialize => seq![0u8],
        CounterInstruction::Increment => seq![1u8],
        CounterInstruction::Decrement => seq![2u8],
        CounterInstruction::Reset => seq![3u8],
    }
}

pub open spec fn parse_counter_instruction(b: Seq<u8>, p: int) -> Result<
    (CounterInstruction, int),
    WireError,
> {
    match parse_u8(b, p) {
        Err(e) => Err(e),
        Ok((tag, q)) => if tag == 0 {
            Ok((CounterInstruction::Initialize, q))
        } else if tag == 1 {
            Ok((CounterInstruction::Increment, q))
        } else if tag == 2 {
            Ok((CounterInstruction::Decrement, q))
        } else if tag == 3 {
            Ok((CounterInstruction::Reset, q))
        } else {
            Err(WireError::InvalidVariant(tag))
        },
    }
}

impl CounterInstruction {
    /// Reads an instruction at `pos`.
    pub fn deserialize(buf: &[u8], pos: usize) -> (r: Result<(CounterInstruction, usize), WireError>)
        ensures
            agrees(r, parse_counter_instruction(buf@, pos as int)),
    {
        let (tag, q) = read_u8(buf, pos)?;
        if tag == 0 {
            Ok((CounterInstruction::Initialize, q))
        } else if tag == 1 {
            Ok((CounterInstruction::Increment, q))
        } else if tag == 2 {
            Ok((CounterInstruction::Decrement, q))
        } else if tag == 3 {
            Ok((CounterInstruction::Reset, q))
        } else {
            Err(WireError::InvalidVariant(tag))
        }
    }

    /// Reads an instruction that fills the whole buffer.
    pub fn try_from_slice(buf: &[u8]) -> (r: Result<CounterInstruction, WireError>)
        ensures
            r == exactly(parse_counter_instruction(buf@, 0), buf@.len() as int),
    {
        let (ix, end) = CounterInstruction::deserialize(buf, 0)?;
        if end == buf.len() {
            Ok(ix)
        } else {
            Err(WireError::NotAllBytesRead)
        }
    }

    /// The encoding of the instruction.
    pub fn try_to_vec(&self) -> (r: Vec<u8>)
        ensures
            r@ == counter_instruction_bytes(*self),
    {
        let mut out: Vec<u8> = Vec::new();
        match self {
            CounterInstruction::Initialize => out.push(0u8),
            CounterInstruction::Increment => out.push(1u8),
            CounterInstruction::Decrement => out.push(2u8),
            CounterInstruction::Reset => out.push(3u8),
        }
        assert(out@ =~= counter_instruction_bytes(*self));
        out
    }
}

/// Every instruction reads back from its encoding.
pub proof fn lemma_counter_instruction_roundtrip(ix: CounterInstruction)
    ensures
        exactly(parse_counter_instruction(counter_instruction_bytes(ix), 0), 1) == Ok::<
            CounterInstruction,
            WireError,
        >(ix),
        counter_instruction_bytes(ix).len() == 1,
{
}

} // verus!
