//! The counter's account state.
use vstd::prelude::*;

use crate::wire::{
    agrees, bool_bytes, exactly, lemma_parse_bool_at, lemma_parse_u64_at, lemma_u64_bytes,
    lemma_u64_value, parse_bool, parse_u64, read_bool, read_u64, u64_bytes, write_bool, write_u64,
    WireError,
};

verus! {

/// The counter stored in an account's data: the count (8 bytes, little
/// endian) then the initialized flag (1 byte).
#[derive(Debug, Clone, Copy, PartialEq, Eq, Structural)]
pub struct Counter {
    pub count: u64,
    pub is_initialized: bool,
}

impl View for Counter {
    type V = Counter;

    open spec fn view(&self) -> Counter {
        *self
    }
}

pub open spec fn counter_bytes(c: Counter) -> Seq<u8> {
    u64_bytes(c.count) + bool_bytes(c.is_initialized)
}

pub open spec fn parse_counter(b: Seq<u8>, p: int) -> Result<(Counter, int), WireError> {
    match parse_u64(b, p) {
        Err(e) => Err(e),
        Ok((count, q)) => match parse_bool(b, q) {
            Err(e) => Err(e),
            Ok((is_initialized, r)) => Ok((Counter { count, is_initialized }, r)),
        },
    }
}

impl Counter {
    /// The size of an encoded counter.
    pub const LEN: usize = 9;

    /// Reads a counter at `pos`.
    pub fn deserialize(buf: &[u8], pos: usize) -> (r: Result<(Counter, usize), WireError>)
        ensures
            agrees(r, parse_counter(buf@, pos as int)),
    {
        let (count, q) = read_u64(buf, pos)?;
        let (is_initialized, end) = read_bool(buf, q)?;
        Ok((Counter { count, is_initialized }, end))
    }

    /// Reads a counter that fills the whole buffer.
    pub fn try_from_slice(buf: &[u8]) -> (r: Result<Counter, WireError>)
        ensures
            r == exactly(parse_counter(buf@, 0), buf@.len() as int),
    {
        let (c, end) = Counter::deserialize(buf, 0)?;
        if end == buf.len() {
            Ok(c)
        } else {
            Err(WireError::NotAllBytesRead)
        }
    }

    /// The encoding of the counter.
    pub fn try_to_vec(&self) -> (r: Vec<u8>)
        ensures
            r@ == counter_bytes(*self),
    {
        let mut out: Vec<u8> = Vec::new();
        write_u64(&mut out, self.count);
        write_bool(&mut out, self.is_initialized);
        assert(out@ =~= counter_bytes(*self));
        out
    }
}

/// An encoded counter is `Counter::LEN` bytes long and reads back as the same
/// counter.
pub proof fn lemma_counter_roundtrip(c: Counter, rest: Seq<u8>)
    ensures
        counter_bytes(c).len() == Counter::LEN,
        parse_counter(counter_bytes(c) + rest, 0) == Ok::<(Counter, int), WireError>((c, 9)),
        exactly(parse_counter(counter_bytes(c), 0), 9) == Ok::<Counter, WireError>(c),
{
    lemma_u64_value(c.count);
    let b = counter_bytes(c) + rest;
    assert(b.subrange(0, 8) =~= u64_bytes(c.count));
    lemma_parse_u64_at(b, 0, c.count);
    assert(b.subrange(8, 9) =~= bool_bytes(c.is_initialized));
    lemma_parse_bool_at(b, 8, c.is_initialized);
    let e = counter_bytes(c);
    assert(e.subrange(0, 8) =~= u64_bytes(c.count));
    lemma_parse_u64_at(e, 0, c.count);
    assert(e.subrange(8, 9) =~= bool_bytes(c.is_initialized));
    lemma_parse_bool_at(e, 8, c.is_initialized);
}

/// A buffer that reads as a whole counter is that counter's encoding.
pub proof fn lemma_counter_canonical(b: Seq<u8>)
    requires
        exactly(parse_counter(b, 0), b.len() as int) is Ok,
    ensures
        b == counter_bytes(exactly(parse_counter(b, 0), b.len() as int)->Ok_0),
{
    lemma_u64_bytes(b, 0);
    let c = exactly(parse_counter(b, 0), b.len() as int)->Ok_0;
    assert(b =~= b.subrange(0, 8) + b.subrange(8, 9));
    assert(b.subrange(8, 9) =~= bool_bytes(c.is_initialized));
}

} // verus!
