//! The calculator's result account.
use vstd::prelude::*;

use crate::wire::{
    agrees, exactly, i64_bytes, lemma_parse_i64_at, lemma_parse_u64_at, lemma_u64_value,
    parse_i64, parse_u64, read_i64, read_u64, u64_bytes, write_i64, write_u64, WireError,
};

verus! {

/// The last result and how many operations produced one: the result (8 bytes)
/// then the count (8 bytes), little endian.
#[derive(Debug, Clone, Copy, PartialEq, Eq, Structural)]
pub struct CalculatorResult {
    pub result: i64,
    pub operation_count: u64,
}

impl View for CalculatorResult {
    type V = CalculatorResult;

    open spec fn view(&self) -> CalculatorResult {
        *self
    }
}

pub open spec fn result_bytes(r: CalculatorResult) -> Seq<u8> {
    i64_bytes(r.result) + u64_bytes(r.operation_count)
}

pub open spec fn parse_result(b: Seq<u8>, p: int) -> Result<(CalculatorResult, int), WireError> {
    match parse_i64(b, p) {
        Err(e) => Err(e),
        Ok((result, q)) => match parse_u64(b, q) {
            Err(e) => Err(e),
            Ok((operation_count, end)) => Ok((CalculatorResult { result, operation_count }, end)),
        },
    }
}

impl CalculatorResult {
    /// The size of the account data: 16 bytes.
    pub fn space() -> (r: usize)
        ensures
            r == 16,
    {
        8 + 8
    }

    /// Reads a result at `pos`.
    pub fn deserialize(buf: &[u8], pos: usize) -> (r: Result<(CalculatorResult, usize), WireError>)
        ensures
            agrees(r, parse_result(buf@, pos as int)),
    {
        let (result, q) = read_i64(buf, pos)?;
        let (operation_count, end) = read_u64(buf, q)?;
        Ok((CalculatorResult { result, operation_count }, end))
    }

    /// Reads a result that fills the whole buffer.
    pub fn try_from_slice(buf: &[u8]) -> (r: Result<CalculatorResult, WireError>)
        ensures
            r == exactly(parse_result(buf@, 0), buf@.len() as int),
    {
        let (v, end) = CalculatorResult::deserialize(buf, 0)?;
        if end == buf.len() {
            Ok(v)
        } else {
            Err(WireError::NotAllBytesRead)
        }
    }

    /// The encoding of the result.
    pub fn try_to_vec(&self) -> (r: Vec<u8>)
        ensures
            r@ == result_bytes(*self),
    {
        let mut out: Vec<u8> = Vec::new();
        write_i64(&mut out, self.result);
        write_u64(&mut out, self.operation_count);
        assert(out@ =~= result_bytes(*self));
        out
    }
}

/// An encoded result is 16 bytes long and reads back, followed by anything,
/// as the same result.
pub proof fn lemma_result_roundtrip(r: CalculatorResult, rest: Seq<u8>)
    ensures
        result_bytes(r).len() == 16,
        parse_result(result_bytes(r) + rest, 0) == Ok::<(CalculatorResult, int), WireError>((r, 16)),
        exactly(parse_result(result_bytes(r), 0), 16) == Ok::<CalculatorResult, WireError>(r),
{
    lemma_u64_value(r.result as u64);
    lemma_u64_value(r.operation_count);
    let b = result_bytes(r) + rest;
    assert(b.subrange(0, 8) =~= i64_bytes(r.result));
    lemma_parse_i64_at(b, 0, r.result);
    assert(b.subrange(8, 16) =~= u64_bytes(r.operation_count));
    lemma_parse_u64_at(b, 8, r.operation_count);
    let e = result_bytes(r);
    assert(e.subrange(0, 8) =~= i64_bytes(r.result));
    lemma_parse_i64_at(e, 0, r.result);
    assert(e.subrange(8, 16) =~= u64_bytes(r.operation_count));
    lemma_parse_u64_at(e, 8, r.operation_count);
}

} // verus!
