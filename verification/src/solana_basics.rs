//! The basic notions of the account model: lamports, accounts and transfer
//! transactions (1 SOL = 1,000,000,000 lamports).
use vstd::prelude::*;

use crate::address::{Address, zero_key};
use crate::runtime::system_program_id;
use crate::wire::{u64_bytes, write_u64};

verus! {

/// Errors of the basic operations.
#[derive(Debug, Clone)]
pub enum SolanaError {
    /// Not enough lamports: `required` were asked for, `available` are held.
    InsufficientFunds { required: u64, available: u64 },
    /// An operation that is not allowed, with its description.
    InvalidOperation(String),
}

/// An amount of lamports, the smallest unit of SOL.
#[derive(Debug, Clone, Copy, PartialEq, Eq, Structural)]
pub struct Lamports(u64);

impl View for Lamports {
    type V = u64;

    closed spec fn view(&self) -> u64 {
        self.0
    }
}

impl Lamports {
    /// An amount given in lamports.
    pub fn new(lamports: u64) -> (r: Self)
        ensures
            r@ == lamports,
    {
        Lamports(lamports)
    }

    /// The amount in lamports.
    pub fn as_lamports(&self) -> (r: u64)
        ensures
            r == self@,
    {
        self.0
    }

    /// The sum of two amounts.
    pub fn add(&self, other: Self) -> (r: Self)
        requires
            self@ + other@ <= u64::MAX,
        ensures
            r@ == self@ + other@,
    {
        Lamports(self.0 + other.0)
    }

    /// The difference of two amounts, or `InsufficientFunds` when `other` is
    /// the larger.
    pub fn sub(&self, other: Self) -> (r: Result<Self, SolanaError>)
        ensures
            self@ < other@ ==> (r matches Err(SolanaError::InsufficientFunds { required, available })
                && required == other@ && available == self@),
            self@ >= other@ ==> (r matches Ok(d) && d@ == self@ - other@),
    {
        if self.0 < other.0 {
            return Err(SolanaError::InsufficientFunds { required: other.0, available: self.0 });
        }
        Ok(Lamports(self.0 - other.0))
    }
}

/// Taking away an amount that was just added gives back the first amount (the
/// subtraction succeeds), and adding is commutative.
pub proof fn lemma_lamports_add_sub(a: Lamports, b: Lamports)
    requires
        a@ + b@ <= u64::MAX,
    ensures
        a@ + b@ >= b@,
        (a@ + b@) - b@ == a@,
        a@ + b@ == b@ + a@,
{
}

/// An account: an owner program, a balance, data and an executable flag.
#[derive(Debug, Clone)]
pub struct Account {
    owner: Address,
    lamports: u64,
    data: Vec<u8>,
    executable: bool,
}

/// The value of an [`Account`].
pub struct AccountSnapshot {
    pub owner: Seq<u8>,
    pub lamports: u64,
    pub data: Seq<u8>,
    pub executable: bool,
}

impl View for Account {
    type V = AccountSnapshot;

    closed spec fn view(&self) -> AccountSnapshot {
        AccountSnapshot {
            owner: self.owner@,
            lamports: self.lamports,
            data: self.data@,
            executable: self.executable,
        }
    }
}

impl Account {
    /// A new account of `owner` holding `lamports`, with no data, not
    /// executable.
    pub fn new(owner: Address, lamports: u64) -> (r: Self)
        ensures
            r@.owner == owner@,
            r@.lamports == lamports,
            r@.data == Seq::<u8>::empty(),
            !r@.executable,
    {
        Account { owner, lamports, data: Vec::new(), executable: false }
    }

    pub fn owner(&self) -> (r: &Address)
        ensures
            r@ == self@.owner,
    {
        &self.owner
    }

    pub fn lamports(&self) -> (r: u64)
        ensures
            r == self@.lamports,
    {
        self.lamports
    }

    pub fn data(&self) -> (r: &[u8])
        ensures
            r@ == self@.data,
    {
        self.data.as_slice()
    }

    /// Replaces the data; nothing else changes.
    pub fn set_data(&mut self, data: Vec<u8>)
        ensures
            final(self)@.data == data@,
            final(self)@.owner == old(self)@.owner,
            final(self)@.lamports == old(self)@.lamports,
            final(self)@.executable == old(self)@.executable,
    {
        self.data = data;
    }

    pub fn is_executable(&self) -> (r: bool)
        ensures
            r == self@.executable,
    {
        self.executable
    }
}

/// One instruction of a transaction: the program to run, the accounts it
/// names, and its data.
#[derive(Debug, Clone)]
pub struct Instruction {
    program_id: Address,
    accounts: Vec<Address>,
    data: Vec<u8>,
}

/// The value of an [`Instruction`].
pub struct InstructionSnapshot {
    pub program_id: Seq<u8>,
    pub accounts: Seq<Seq<u8>>,
    pub data: Seq<u8>,
}

impl View for Instruction {
    type V = InstructionSnapshot;

    closed spec fn view(&self) -> InstructionSnapshot {
        InstructionSnapshot {
            program_id: self.program_id@,
            accounts: self.accounts@.map_values(|a: Address| a@),
            data: self.data@,
        }
    }
}

impl Instruction {
    pub fn program_id(&self) -> (r: &Address)
        ensures
            r@ == self@.program_id,
    {
        &self.program_id
    }

    pub fn accounts(&self) -> (r: &[Address])
        ensures
            r@.map_values(|a: Address| a@) == self@.accounts,
    {
        self.accounts.as_slice()
    }

    pub fn data(&self) -> (r: &[u8])
        ensures
            r@ == self@.data,
    {
        self.data.as_slice()
    }
}

/// A transaction: a payer, its instructions, and whether it is signed.
#[derive(Debug, Clone)]
pub struct Transaction {
    payer: Address,
    instructions: Vec<Instruction>,
    signed: bool,
}

/// The value of a [`Transaction`].
pub struct TransactionSnapshot {
    pub payer: Seq<u8>,
    pub instructions: Seq<InstructionSnapshot>,
    pub signed: bool,
}

impl View for Transaction {
    type V = TransactionSnapshot;

    closed spec fn view(&self) -> TransactionSnapshot {
        TransactionSnapshot {
            payer: self.payer@,
            instructions: self.instructions@.map_values(|i: Instruction| i@),
            signed: self.signed,
        }
    }
}

/// The instruction that moves `lamports` from `from` to `to`: a call of the
/// system program naming both accounts, whose data is the amount in
/// little-endian bytes.
pub open spec fn transfer_instruction(from: Seq<u8>, to: Seq<u8>, lamports: u64) -> InstructionSnapshot {
    InstructionSnapshot { program_id: zero_key(), accounts: seq![from, to], data: u64_bytes(lamports) }
}

impl Transaction {
    /// An unsigned transaction, paid by `from`, holding one transfer
    /// instruction.
    pub fn new_transfer(from: Address, to: Address, lamports: u64) -> (r: Self)
        ensures
            r@.payer == from@,
            r@.instructions == seq![transfer_instruction(from@, to@, lamports)],
            !r@.signed,
    {
        let mut data: Vec<u8> = Vec::new();
        write_u64(&mut data, lamports);
        let mut accounts: Vec<Address> = Vec::new();
        accounts.push(from);
        accounts.push(to);
        let instruction = Instruction { program_id: system_program_id(), accounts, data };
        let mut instructions: Vec<Instruction> = Vec::new();
        instructions.push(instruction);
        let r = Transaction { payer: from, instructions, signed: false };
        proof {
            assert(instruction@.accounts =~= seq![from@, to@]);
            assert(r@.instructions =~= seq![transfer_instruction(from@, to@, lamports)]);
        }
        r
    }

    pub fn payer(&self) -> (r: &Address)
        ensures
            r@ == self@.payer,
    {
        &self.payer
    }

    pub fn instructions(&self) -> (r: &[Instruction])
        ensures
            r@.map_values(|i: Instruction| i@) == self@.instructions,
    {
        self.instructions.as_slice()
    }

    pub fn is_signed(&self) -> (r: bool)
        ensures
            r == self@.signed,
    {
        self.signed
    }

    /// Marks the transaction signed; payer and instructions stay.
    pub fn sign(&mut self)
        ensures
            final(self)@.signed,
            final(self)@.payer == old(self)@.payer,
            final(self)@.instructions == old(self)@.instructions,
    {
        self.signed = true;
    }
}

} // verus!
