//! A counter program: one account holds a count that the instructions set,
//! raise, lower and reset.
pub mod instruction;
pub mod state;

use vstd::prelude::*;

use crate::address::Address;
use crate::runtime::{
    models, outcome, put_data, store_account_data, AccountModel, AccountView, ProgramError,
};
use crate::wire::exactly;
use instruction::{counter_instruction_bytes, parse_counter_instruction, CounterInstruction};
use state::{counter_bytes, lemma_counter_canonical, lemma_counter_roundtrip, parse_counter, Counter};

verus! {

/// The counter held by the first account, once the account is found to belong
/// to the program and its data to be exactly one counter.
pub open spec fn loaded_counter(program_id: Seq<u8>, accounts: Seq<AccountModel>) -> Result<
    Counter,
    ProgramError,
> {
    if accounts.len() < 1 {
        Err(ProgramError::NotEnoughAccountKeys)
    } else if accounts[0].owner != program_id {
        Err(ProgramError::IncorrectProgramId)
    } else {
        match exactly(parse_counter(accounts[0].data, 0), accounts[0].data.len() as int) {
            Err(e) => Err(ProgramError::BorshIoError(e)),
            Ok(c) => Ok(c),
        }
    }
}

/// The counter an instruction leaves, from the counter it found.
pub open spec fn next_counter(ix: CounterInstruction, c: Counter) -> Result<Counter, ProgramError> {
    match ix {
        CounterInstruction::Initialize => if c.is_initialized {
            Err(ProgramError::AccountAlreadyInitialized)
        } else {
            Ok(Counter { count: 0, is_initialized: true })
        },
        CounterInstruction::Increment => if !c.is_initialized {
            Err(ProgramError::UninitializedAccount)
        } else if c.count == u64::MAX {
            Err(ProgramError::InvalidAccountData)
        } else {
            Ok(Counter { count: (c.count + 1) as u64, is_initialized: true })
        },
        CounterInstruction::Decrement => if !c.is_initialized {
            Err(ProgramError::UninitializedAccount)
        } else if c.count == 0 {
            Err(ProgramError::InvalidAccountData)
        } else {
            Ok(Counter { count: (c.count - 1) as u64, is_initialized: true })
        },
        CounterInstruction::Reset => if !c.is_initialized {
            Err(ProgramError::UninitializedAccount)
        } else {
            Ok(Counter { count: 0, is_initialized: true })
        },
    }
}

/// What one counter instruction does to the accounts.
pub open spec fn counter_step(
    program_id: Seq<u8>,
    accounts: Seq<AccountModel>,
    ix: CounterInstruction,
) -> Result<Seq<AccountModel>, ProgramError> {
    match loaded_counter(program_id, accounts) {
        Err(e) => Err(e),
        Ok(c) => match next_counter(ix, c) {
            Err(e) => Err(e),
            Ok(n) => put_data(accounts, 0, counter_bytes(n)),
        },
    }
}

/// What the program does with an instruction's data.
pub open spec fn counter_program(
    program_id: Seq<u8>,
    accounts: Seq<AccountModel>,
    data: Seq<u8>,
) -> Result<Seq<AccountModel>, ProgramError> {
    match exactly(parse_counter_instruction(data, 0), data.len() as int) {
        Err(_) => Err(ProgramError::InvalidInstructionData),
        Ok(ix) => counter_step(program_id, accounts, ix),
    }
}

fn load_counter(program_id: &Address, accounts: &Vec<AccountView>) -> (r: Result<
    Counter,
    ProgramError,
>)
    ensures
        r == loaded_counter(program_id@, models(accounts@)),
{
    if accounts.len() < 1 {
        return Err(ProgramError::NotEnoughAccountKeys);
    }
    let counter_account = &accounts[0];
    if !counter_account.owner.equals(program_id) {
        return Err(ProgramError::IncorrectProgramId);
    }
    match Counter::try_from_slice(counter_account.data.as_slice()) {
        Err(e) => Err(ProgramError::BorshIoError(e)),
        Ok(c) => Ok(c),
    }
}

fn apply_counter_instruction(c: Counter, ix: CounterInstruction) -> (r: Result<Counter, ProgramError>)
    ensures
        r == next_counter(ix, c),
{
    match ix {
        CounterInstruction::Initialize => {
            if c.is_initialized {
                return Err(ProgramError::AccountAlreadyInitialized);
            }
            Ok(Counter { count: 0, is_initialized: true })
        },
        CounterInstruction::Increment => {
            if !c.is_initialized {
                return Err(ProgramError::UninitializedAccount);
            }
            match c.count.checked_add(1) {
                None => Err(ProgramError::InvalidAccountData),
                Some(n) => Ok(Counter { count: n, is_initialized: true }),
            }
        },
        CounterInstruction::Decrement => {
            if !c.is_initialized {
                return Err(ProgramError::UninitializedAccount);
            }
            match c.count.checked_sub(1) {
                None => Err(ProgramError::InvalidAccountData),
                Some(n) => Ok(Counter { count: n, is_initialized: true }),
            }
        },
        CounterInstruction::Reset => {
            if !c.is_initialized {
                return Err(ProgramError::UninitializedAccount);
            }
            Ok(Counter { count: 0, is_initialized: true })
        },
    }
}

/// Runs one decoded counter instruction.
pub fn process_counter_instruction(
    program_id: &Address,
    accounts: &mut Vec<AccountView>,
    ix: CounterInstruction,
) -> (r: Result<(), ProgramError>)
    ensures
        outcome(
            r,
            models(old(accounts)@),
            models(final(accounts)@),
            counter_step(program_id@, models(old(accounts)@), ix),
        ),
{
    let c = load_counter(program_id, accounts)?;
    let n = apply_counter_instruction(c, ix)?;
    let enc = n.try_to_vec();
    store_account_data(accounts, 0, &enc)
}

/// The program's entry: decodes the instruction (any decoding failure is
/// `InvalidInstructionData`) and runs it on the accounts.
pub fn process_instruction(
    program_id: &Address,
    accounts: &mut Vec<AccountView>,
    instruction_data: &[u8],
) -> (r: Result<(), ProgramError>)
    ensures
        outcome(
            r,
            models(old(accounts)@),
            models(final(accounts)@),
            counter_program(program_id@, models(old(accounts)@), instruction_data@),
        ),
{
    let ix = match CounterInstruction::try_from_slice(instruction_data) {
        Ok(ix) => ix,
        Err(_) => return Err(ProgramError::InvalidInstructionData),
    };
    process_counter_instruction(program_id, accounts, ix)
}

// ----- laws ------------------------------------------------------------------

/// After a successful step the first account holds exactly the new counter.
proof fn lemma_step_stores(
    program_id: Seq<u8>,
    accounts: Seq<AccountModel>,
    ix: CounterInstruction,
)
    requires
        counter_step(program_id, accounts, ix) is Ok,
    ensures
        ({
            let after = counter_step(program_id, accounts, ix)->Ok_0;
            let c = loaded_counter(program_id, accounts)->Ok_0;
            let n = next_counter(ix, c)->Ok_0;
            &&& after.len() == accounts.len()
            &&& after[0].data == counter_bytes(n)
            &&& after[0].key == accounts[0].key
            &&& after[0].owner == accounts[0].owner
            &&& after[0].lamports == accounts[0].lamports
            &&& forall|i: int| 0 < i < accounts.len() ==> after[i] == accounts[i]
            &&& loaded_counter(program_id, after) == Ok::<Counter, ProgramError>(n)
        }),
{
    let c = loaded_counter(program_id, accounts)->Ok_0;
    let n = next_counter(ix, c)->Ok_0;
    let d = accounts[0].data;
    lemma_counter_roundtrip(n, Seq::empty());
    lemma_counter_roundtrip(c, Seq::empty());
    lemma_counter_canonical(d);
    assert(d.len() == 9);
    assert(d.skip(9) =~= Seq::<u8>::empty());
    assert(counter_bytes(n) + d.skip(9) =~= counter_bytes(n));
}

/// Raising the counter and then lowering it gives back the accounts as they
/// were.
pub proof fn lemma_increment_then_decrement(program_id: Seq<u8>, accounts: Seq<AccountModel>)
    requires
        counter_step(program_id, accounts, CounterInstruction::Increment) is Ok,
    ensures
        counter_step(
            program_id,
            counter_step(program_id, accounts, CounterInstruction::Increment)->Ok_0,
            CounterInstruction::Decrement,
        ) == Ok::<Seq<AccountModel>, ProgramError>(accounts),
{
    let a1 = counter_step(program_id, accounts, CounterInstruction::Increment)->Ok_0;
    lemma_step_stores(program_id, accounts, CounterInstruction::Increment);
    let c = loaded_counter(program_id, accounts)->Ok_0;
    lemma_counter_canonical(accounts[0].data);
    lemma_counter_roundtrip(c, Seq::empty());
    let d1 = a1[0].data;
    assert(d1.skip(9) =~= Seq::<u8>::empty());
    assert(counter_bytes(c) + d1.skip(9) =~= accounts[0].data);
    let a2 = counter_step(program_id, a1, CounterInstruction::Decrement)->Ok_0;
    assert(a2 =~= accounts);
}

/// Lowering the counter and then raising it gives back the accounts as they
/// were.
pub proof fn lemma_decrement_then_increment(program_id: Seq<u8>, accounts: Seq<AccountModel>)
    requires
        counter_step(program_id, accounts, CounterInstruction::Decrement) is Ok,
    ensures
        counter_step(
            program_id,
            counter_step(program_id, accounts, CounterInstruction::Decrement)->Ok_0,
            CounterInstruction::Increment,
        ) == Ok::<Seq<AccountModel>, ProgramError>(accounts),
{
    let a1 = counter_step(program_id, accounts, CounterInstruction::Decrement)->Ok_0;
    lemma_step_stores(program_id, accounts, CounterInstruction::Decrement);
    let c = loaded_counter(program_id, accounts)->Ok_0;
    lemma_counter_canonical(accounts[0].data);
    lemma_counter_roundtrip(c, Seq::empty());
    let d1 = a1[0].data;
    assert(d1.skip(9) =~= Seq::<u8>::empty());
    assert(counter_bytes(c) + d1.skip(9) =~= accounts[0].data);
    let a2 = counter_step(program_id, a1, CounterInstruction::Increment)->Ok_0;
    assert(a2 =~= accounts);
}

/// A counter can be initialized only once: initializing an initialized
/// counter fails with `AccountAlreadyInitialized`.
pub proof fn lemma_initialize_once(program_id: Seq<u8>, accounts: Seq<AccountModel>)
    requires
        counter_step(program_id, accounts, CounterInstruction::Initialize) is Ok,
    ensures
        counter_step(
            program_id,
            counter_step(program_id, accounts, CounterInstruction::Initialize)->Ok_0,
            CounterInstruction::Initialize,
        ) == Err::<Seq<AccountModel>, ProgramError>(ProgramError::AccountAlreadyInitialized),
{
    lemma_step_stores(program_id, accounts, CounterInstruction::Initialize);
}

/// Initialize and Reset leave a counter of 0 that is initialized; Increment
/// and Decrement move the count by exactly one.
pub proof fn lemma_step_result(
    program_id: Seq<u8>,
    accounts: Seq<AccountModel>,
    ix: CounterInstruction,
)
    requires
        counter_step(program_id, accounts, ix) is Ok,
    ensures
        ({
            let c = loaded_counter(program_id, accounts)->Ok_0;
            let after = loaded_counter(
                program_id,
                counter_step(program_id, accounts, ix)->Ok_0,
            )->Ok_0;
            &&& after.is_initialized
            &&& (ix == CounterInstruction::Initialize || ix == CounterInstruction::Reset)
                ==> after.count == 0
            &&& ix == CounterInstruction::Increment ==> after.count == c.count + 1
            &&& ix == CounterInstruction::Decrement ==> after.count == c.count - 1
        }),
{
    lemma_step_stores(program_id, accounts, ix);
}

/// Every instruction's encoding is decoded back to the same instruction by
/// the program's entry.
pub proof fn lemma_instruction_data_roundtrip(
    program_id: Seq<u8>,
    accounts: Seq<AccountModel>,
    ix: CounterInstruction,
)
    ensures
        counter_program(program_id, accounts, counter_instruction_bytes(ix)) == counter_step(
            program_id,
            accounts,
            ix,
        ),
{
    instruction::lemma_counter_instruction_roundtrip(ix);
}


/// Only Initialize works on a counter that is not initialized: Increment,
/// Decrement and Reset on a program-owned account holding exactly one counter
/// whose flag is off fail with `UninitializedAccount` (and `process_instruction`
/// then leaves the accounts as they were).
pub proof fn lemma_uninitialized_refused(
    program_id: Seq<u8>,
    accounts: Seq<AccountModel>,
    ix: CounterInstruction,
)
    requires
        accounts.len() >= 1,
        accounts[0].owner == program_id,
        exactly(parse_counter(accounts[0].data, 0), accounts[0].data.len() as int) is Ok,
        !exactly(parse_counter(accounts[0].data, 0), accounts[0].data.len() as int)->Ok_0.is_initialized,
        ix != CounterInstruction::Initialize,
    ensures
        counter_step(program_id, accounts, ix) == Err::<Seq<AccountModel>, ProgramError>(
            ProgramError::UninitializedAccount,
        ),
{
}

} // verus!
