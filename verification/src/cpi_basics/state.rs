//! The record the transfer program keeps of a transfer.
use vstd::prelude::*;

use crate::address::Address;
use crate::wire::{
    agrees, bool_bytes, exactly, lemma_parse_bool_at, lemma_parse_bytes_at, lemma_parse_u64_at,
    lemma_u64_value, parse_bool, parse_bytes, parse_u64, read_address, read_bool, read_u64,
    u64_bytes, write_address, write_bool, write_u64, WireError,
};

verus! {

/// A transfer's record: who sent, who received, how much, and the slot it
/// happened in.
#[derive(Debug, Clone, Copy)]
pub struct TransferRecord {
    pub is_initialized: bool,
    pub from: Address,
    pub to: Address,
    pub amount: u64,
    /// The slot of the transfer.
    pub timestamp: u64,
}

/// The value of a [`TransferRecord`].
pub struct TransferRecordModel {
    pub is_initialized: bool,
    pub from: Seq<u8>,
    pub to: Seq<u8>,
    pub amount: u64,
    pub timestamp: u64,
}

impl View for TransferRecord {
    type V = TransferRecordModel;

    open spec fn view(&self) -> TransferRecordModel {
        TransferRecordModel {
            is_initialized: self.is_initialized,
            from: self.from@,
            to: self.to@,
            amount: self.amount,
            timestamp: self.timestamp,
        }
    }
}

pub open spec fn record_bytes(r: TransferRecordModel) -> Seq<u8> {
    bool_bytes(r.is_initialized) + r.from + r.to + u64_bytes(r.amount) + u64_bytes(r.timestamp)
}

pub open spec fn parse_record(b: Seq<u8>, p: int) -> Result<(TransferRecordModel, int), WireError> {
    match parse_bool(b, p) {
        Err(e) => Err(e),
        Ok((is_initialized, p1)) => match parse_bytes(b, p1, 32) {
            Err(e) => Err(e),
            Ok((from, p2)) => match parse_bytes(b, p2, 32) {
                Err(e) => Err(e),
                Ok((to, p3)) => match parse_u64(b, p3) {
                    Err(e) => Err(e),
                    Ok((amount, p4)) => match parse_u64(b, p4) {
                        Err(e) => Err(e),
                        Ok((timestamp, p5)) => Ok(
                            (TransferRecordModel { is_initialized, from, to, amount, timestamp }, p5),
                        ),
                    },
                },
            },
        },
    }
}

impl TransferRecord {
    /// The size of a record account: 81 bytes.
    pub fn space() -> (r: usize)
        ensures
            r == 81,
    {
        81
    }

    /// Reads a record at `pos`.
    pub fn deserialize(buf: &[u8], pos: usize) -> (r: Result<(TransferRecord, usize), WireError>)
        ensures
            agrees(r, parse_record(buf@, pos as int)),
    {
        let (is_initialized, p1) = read_bool(buf, pos)?;
        let (from, p2) = read_address(buf, p1)?;
        let (to, p3) = read_address(buf, p2)?;
        let (amount, p4) = read_u64(buf, p3)?;
        let (timestamp, p5) = read_u64(buf, p4)?;
        Ok((TransferRecord { is_initialized, from, to, amount, timestamp }, p5))
    }

    /// Reads a record that fills the whole buffer.
    pub fn try_from_slice(buf: &[u8]) -> (r: Result<TransferRecord, WireError>)
        ensures
            match exactly(parse_record(buf@, 0), buf@.len() as int) {
                Ok(m) => r matches Ok(v) && v@ == m,
                Err(e) => r matches Err(x) && x == e,
            },
    {
        let (v, end) = TransferRecord::deserialize(buf, 0)?;
        if end == buf.len() {
            Ok(v)
        } else {
            Err(WireError::NotAllBytesRead)
        }
    }

    /// The encoding of the record.
    pub fn try_to_vec(&self) -> (r: Vec<u8>)
        ensures
            r@ == record_bytes(self@),
    {
        let mut out: Vec<u8> = Vec::new();
        write_bool(&mut out, self.is_initialized);
        write_address(&mut out, &self.from);
        write_address(&mut out, &self.to);
        write_u64(&mut out, self.amount);
        write_u64(&mut out, self.timestamp);
        assert(out@ =~= record_bytes(self@));
        out
    }
}

/// A record with 32-byte keys is `TransferRecord::space` bytes long and reads
/// back, followed by anything, as the same record.
pub proof fn lemma_record_roundtrip(r: TransferRecordModel, rest: Seq<u8>)
    requires
        r.from.len() == 32,
        r.to.len() == 32,
    ensures
        record_bytes(r).len() == 81,
        parse_record(record_bytes(r) + rest, 0) == Ok::<(TransferRecordModel, int), WireError>(
            (r, 81),
        ),
{
    lemma_u64_value(r.amount);
    lemma_u64_value(r.timestamp);
    let b = record_bytes(r) + rest;
    assert(b.subrange(0, 1) =~= bool_bytes(r.is_initialized));
    lemma_parse_bool_at(b, 0, r.is_initialized);
    assert(b.subrange(1, 33) =~= r.from);
    lemma_parse_bytes_at(b, 1, r.from);
    assert(b.subrange(33, 65) =~= r.to);
    lemma_parse_bytes_at(b, 33, r.to);
    assert(b.subrange(65, 73) =~= u64_bytes(r.amount));
    lemma_parse_u64_at(b, 65, r.amount);
    assert(b.subrange(73, 81) =~= u64_bytes(r.timestamp));
    lemma_parse_u64_at(b, 73, r.timestamp);
}

} // verus!
