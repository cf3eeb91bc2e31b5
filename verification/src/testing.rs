//! A calculator program: each instruction computes one checked operation on
//! two `i64` operands and records the result, and how many operations have
//! produced one, in the result account.
pub mod error;
pub mod instruction;
pub mod state;

use vstd::prelude::*;

use crate::address::Address;
use crate::runtime::{
    models, outcome, put_data, store_account_data, AccountModel, AccountView, ProgramError,
};
use crate::wire::exactly;
use error::{calculator_err, CalculatorError};
use instruction::{
    calculator_instruction_bytes, lemma_calculator_instruction_roundtrip,
    parse_calculator_instruction, CalculatorInstruction,
};
use state::{lemma_result_roundtrip, parse_result, result_bytes, CalculatorResult};

verus! {

/// Integer division as Rust does it: the quotient of the magnitudes, negated
/// when exactly one operand is negative (that is, rounded toward zero).
pub open spec fn quotient_toward_zero(a: int, b: int) -> int {
    let q = (if a < 0 {
        -a
    } else {
        a
    }) / (if b < 0 {
        -b
    } else {
        b
    });
    if (a < 0) != (b < 0) {
        -q
    } else {
        q
    }
}

/// The exact value of the operation, as an unbounded integer.
pub open spec fn exact_value(ix: CalculatorInstruction) -> int {
    match ix {
        CalculatorInstruction::Add { a, b } => a + b,
        CalculatorInstruction::Subtract { a, b } => a - b,
        CalculatorInstruction::Multiply { a, b } => a * b,
        CalculatorInstruction::Divide { a, b } => quotient_toward_zero(a as int, b as int),
    }
}

/// The operation's result: `DivisionByZero` for a zero divisor, `Overflow`
/// when the exact value does not fit in an `i64`, else the exact value.
pub open spec fn operation_value(ix: CalculatorInstruction) -> Result<i64, ProgramError> {
    if ix matches CalculatorInstruction::Divide { b, .. } && b == 0 {
        Err(calculator_err(CalculatorError::DivisionByZero))
    } else if i64::MIN <= exact_value(ix) <= i64::MAX {
        Ok(exact_value(ix) as i64)
    } else {
        Err(calculator_err(CalculatorError::Overflow))
    }
}

/// The result the account holds: read from the front of its data when it has
/// any (`InvalidAccountData` if that fails), else a zero result.
pub open spec fn loaded_result(data: Seq<u8>) -> Result<CalculatorResult, ProgramError> {
    if data.len() > 0 {
        match parse_result(data, 0) {
            Ok((r, _)) => Ok(r),
            Err(_) => Err(ProgramError::InvalidAccountData),
        }
    } else {
        Ok(CalculatorResult { result: 0, operation_count: 0 })
    }
}

/// `n + 1`, wrapping to 0 past `u64::MAX` as the program's release build
/// does.
pub open spec fn count_after(n: u64) -> u64 {
    if n == u64::MAX {
        0
    } else {
        (n + 1) as u64
    }
}

/// What one instruction does: the result account must belong to the program;
/// the operation's value and one more operation are written over the front of
/// its data.
pub open spec fn calculator_step(
    program_id: Seq<u8>,
    accounts: Seq<AccountModel>,
    ix: CalculatorInstruction,
) -> Result<Seq<AccountModel>, ProgramError> {
    if accounts.len() < 1 {
        Err(ProgramError::NotEnoughAccountKeys)
    } else if accounts[0].owner != program_id {
        Err(ProgramError::IncorrectProgramId)
    } else {
        match operation_value(ix) {
            Err(e) => Err(e),
            Ok(v) => match loaded_result(accounts[0].data) {
                Err(e) => Err(e),
                Ok(r) => put_data(
                    accounts,
                    0,
                    result_bytes(
                        CalculatorResult {
                            result: v,
                            operation_count: count_after(r.operation_count),
                        },
                    ),
                ),
            },
        }
    }
}

/// What the program does with an instruction's data.
pub open spec fn calculator_program(
    program_id: Seq<u8>,
    accounts: Seq<AccountModel>,
    data: Seq<u8>,
) -> Result<Seq<AccountModel>, ProgramError> {
    match exactly(parse_calculator_instruction(data, 0), data.len() as int) {
        Err(_) => Err(ProgramError::InvalidInstructionData),
        Ok(ix) => calculator_step(program_id, accounts, ix),
    }
}

/// The result the account holds, or a zero result when its data is empty.
fn get_or_create_result(account: &AccountView) -> (r: Result<CalculatorResult, ProgramError>)
    ensures
        r == loaded_result(account.data@),
{
    if account.data.len() > 0 {
        match CalculatorResult::deserialize(account.data.as_slice(), 0) {
            Ok((v, _)) => Ok(v),
            Err(_) => Err(ProgramError::InvalidAccountData),
        }
    } else {
        Ok(CalculatorResult { result: 0, operation_count: 0 })
    }
}

/// Checks that the result account belongs to the program.
fn check_result_account(program_id: &Address, accounts: &Vec<AccountView>) -> (r: Result<
    (),
    ProgramError,
>)
    ensures
        accounts@.len() < 1 ==> r == Err::<(), ProgramError>(ProgramError::NotEnoughAccountKeys),
        accounts@.len() >= 1 && accounts@[0].owner@ != program_id@ ==> r == Err::<
            (),
            ProgramError,
        >(ProgramError::IncorrectProgramId),
        accounts@.len() >= 1 && accounts@[0].owner@ == program_id@ ==> r is Ok,
{
    if accounts.len() < 1 {
        return Err(ProgramError::NotEnoughAccountKeys);
    }
    if !accounts[0].owner.equals(program_id) {
        return Err(ProgramError::IncorrectProgramId);
    }
    Ok(())
}

/// Writes `value` and one more operation into the result account.
fn record_result(accounts: &mut Vec<AccountView>, value: i64) -> (r: Result<(), ProgramError>)
    requires
        old(accounts)@.len() >= 1,
    ensures
        outcome(
            r,
            models(old(accounts)@),
            models(final(accounts)@),
            match loaded_result(old(accounts)@[0].data@) {
                Err(e) => Err(e),
                Ok(c) => put_data(
                    models(old(accounts)@),
                    0,
                    result_bytes(
                        CalculatorResult {
                            result: value,
                            operation_count: count_after(c.operation_count),
                        },
                    ),
                ),
            },
        ),
{
    let mut calculator_result = get_or_create_result(&accounts[0])?;
    calculator_result.result = value;
    calculator_result.operation_count = if calculator_result.operation_count == u64::MAX {
        0
    } else {
        calculator_result.operation_count + 1
    };
    let enc = calculator_result.try_to_vec();
    store_account_data(accounts, 0, &enc)
}

fn process_add(program_id: &Address, accounts: &mut Vec<AccountView>, a: i64, b: i64) -> (r: Result<
    (),
    ProgramError,
>)
    ensures
        outcome(
            r,
            models(old(accounts)@),
            models(final(accounts)@),
            calculator_step(program_id@, models(old(accounts)@), CalculatorInstruction::Add { a, b }),
        ),
{
    check_result_account(program_id, accounts)?;
    let result = match a.checked_add(b) {
        None => return Err(ProgramError::from(CalculatorError::Overflow)),
        Some(v) => v,
    };
    record_result(accounts, result)
}

fn process_subtract(
    program_id: &Address,
    accounts: &mut Vec<AccountView>,
    a: i64,
    b: i64,
) -> (r: Result<(), ProgramError>)
    ensures
        outcome(
            r,
            models(old(accounts)@),
            models(final(accounts)@),
            calculator_step(
                program_id@,
                models(old(accounts)@),
                CalculatorInstruction::Subtract { a, b },
            ),
        ),
{
    check_result_account(program_id, accounts)?;
    let result = match a.checked_sub(b) {
        None => return Err(ProgramError::from(CalculatorError::Overflow)),
        Some(v) => v,
    };
    record_result(accounts, result)
}

fn process_multiply(
    program_id: &Address,
    accounts: &mut Vec<AccountView>,
    a: i64,
    b: i64,
) -> (r: Result<(), ProgramError>)
    ensures
        outcome(
            r,
            models(old(accounts)@),
            models(final(accounts)@),
            calculator_step(
                program_id@,
                models(old(accounts)@),
                CalculatorInstruction::Multiply { a, b },
            ),
        ),
{
    check_result_account(program_id, accounts)?;
    let result = match a.checked_mul(b) {
        None => return Err(ProgramError::from(CalculatorError::Overflow)),
        Some(v) => v,
    };
    record_result(accounts, result)
}

fn process_divide(
    program_id: &Address,
    accounts: &mut Vec<AccountView>,
    a: i64,
    b: i64,
) -> (r: Result<(), ProgramError>)
    ensures
        outcome(
            r,
            models(old(accounts)@),
            models(final(accounts)@),
            calculator_step(
                program_id@,
                models(old(accounts)@),
                CalculatorInstruction::Divide { a, b },
            ),
        ),
{
    check_result_account(program_id, accounts)?;
    if b == 0 {
        return Err(ProgramError::from(CalculatorError::DivisionByZero));
    }
    let result = match a.checked_div(b) {
        None => return Err(ProgramError::from(CalculatorError::Overflow)),
        Some(v) => v,
    };
    record_result(accounts, result)
}

/// The program's entry: decodes the instruction (any decoding failure is
/// `InvalidInstructionData`) and runs it on the accounts.
pub fn process_instruction(
    program_id: &Address,
    accounts: &mut Vec<AccountView>,
    instruction_data: &[u8],
) -> (r: Result<(), ProgramError>)
    ensures
        outcome(
            r,
            models(old(accounts)@),
            models(final(accounts)@),
            calculator_program(program_id@, models(old(accounts)@), instruction_data@),
        ),
{
    let instruction = match CalculatorInstruction::try_from_slice(instruction_data) {
        Ok(ix) => ix,
        Err(_) => return Err(ProgramError::InvalidInstructionData),
    };
    match instruction {
        CalculatorInstruction::Add { a, b } => process_add(program_id, accounts, a, b),
        CalculatorInstruction::Subtract { a, b } => process_subtract(program_id, accounts, a, b),
        CalculatorInstruction::Multiply { a, b } => process_multiply(program_id, accounts, a, b),
        CalculatorInstruction::Divide { a, b } => process_divide(program_id, accounts, a, b),
    }
}

// ----- laws ------------------------------------------------------------------

/// After a successful operation the result account reads back the exact
/// value of the operation (which fit in an `i64`) and a count one higher than
/// before (wrapping only past `u64::MAX`); the account's other fields and
/// every other account are unchanged.
pub proof fn lemma_operation_reads_back(
    program_id: Seq<u8>,
    accounts: Seq<AccountModel>,
    ix: CalculatorInstruction,
)
    requires
        calculator_step(program_id, accounts, ix) is Ok,
    ensures
        ({
            let after = calculator_step(program_id, accounts, ix)->Ok_0;
            let before = loaded_result(accounts[0].data)->Ok_0;
            let q = loaded_result(after[0].data)->Ok_0.result;
            &&& i64::MIN <= exact_value(ix) <= i64::MAX
            &&& ix matches CalculatorInstruction::Add { a, b } ==> q == a + b
            &&& ix matches CalculatorInstruction::Subtract { a, b } ==> q == a - b
            &&& ix matches CalculatorInstruction::Multiply { a, b } ==> q == a * b
            &&& ix matches CalculatorInstruction::Divide { a, b } ==> {
                &&& b != 0
                &&& a >= 0 ==> 0 <= a - q * b < (if b < 0 { -(b as int) } else { b as int })
                &&& a < 0 ==> -(if b < 0 { -(b as int) } else { b as int }) < a - q * b <= 0
            }
            &&& loaded_result(after[0].data) == Ok::<CalculatorResult, ProgramError>(
                CalculatorResult {
                    result: exact_value(ix) as i64,
                    operation_count: count_after(before.operation_count),
                },
            )
            &&& before.operation_count < u64::MAX ==> loaded_result(after[0].data)->Ok_0.operation_count
                == before.operation_count + 1
            &&& after.len() == accounts.len()
            &&& after[0].key == accounts[0].key
            &&& after[0].owner == accounts[0].owner
            &&& after[0].lamports == accounts[0].lamports
            &&& after[0].data.len() == accounts[0].data.len()
            &&& forall|i: int| 0 < i < accounts.len() ==> after[i] == accounts[i]
        }),
{
    let before = loaded_result(accounts[0].data)->Ok_0;
    let n = CalculatorResult {
        result: exact_value(ix) as i64,
        operation_count: count_after(before.operation_count),
    };
    lemma_result_roundtrip(n, accounts[0].data.skip(16));
    match ix {
        CalculatorInstruction::Divide { a, b } => {
            lemma_quotient_toward_zero(a as int, b as int);
        },
        _ => {},
    }
}

/// The quotient rounded toward zero leaves a remainder smaller than the
/// divisor, with the dividend's sign.
proof fn lemma_quotient_toward_zero(a: int, b: int)
    requires
        b != 0,
    ensures
        a >= 0 ==> 0 <= a - quotient_toward_zero(a, b) * b < (if b < 0 { -b } else { b }),
        a < 0 ==> -(if b < 0 { -b } else { b }) < a - quotient_toward_zero(a, b) * b <= 0,
{
    let x = if a < 0 { -a } else { a };
    let d = if b < 0 { -b } else { b };
    let q = x / d;
    vstd::arithmetic::div_mod::lemma_fundamental_div_mod(x, d);
    vstd::arithmetic::div_mod::lemma_mod_bound(x, d);
    assert(x == d * q + x % d);
    assert(quotient_toward_zero(a, b) * b == if a < 0 { -(q * d) } else { q * d }) by (nonlinear_arith)
        requires
            x == (if a < 0 { -a } else { a }),
            d == (if b < 0 { -b } else { b }),
            quotient_toward_zero(a, b) == (if (a < 0) != (b < 0) { -q } else { q }),
    ;
    assert(q * d == d * q) by (nonlinear_arith);
}

/// The calculator refuses, whatever the result account holds, a zero divisor
/// with `DivisionByZero` and a value outside the `i64` range with `Overflow`.
pub proof fn lemma_refusals(program_id: Seq<u8>, accounts: Seq<AccountModel>, ix: CalculatorInstruction)
    requires
        accounts.len() >= 1,
        accounts[0].owner == program_id,
    ensures
        ix matches CalculatorInstruction::Divide { b, .. } && b == 0 ==> calculator_step(
            program_id,
            accounts,
            ix,
        ) == Err::<Seq<AccountModel>, ProgramError>(
            calculator_err(CalculatorError::DivisionByZero),
        ),
        !(ix matches CalculatorInstruction::Divide { b, .. } && b == 0) && !(i64::MIN
            <= exact_value(ix) <= i64::MAX) ==> calculator_step(program_id, accounts, ix) == Err::<
            Seq<AccountModel>,
            ProgramError,
        >(calculator_err(CalculatorError::Overflow)),
{
}

/// The program decodes the encoding of every instruction back to that
/// instruction.
pub proof fn lemma_calculator_instruction_dispatch(
    program_id: Seq<u8>,
    accounts: Seq<AccountModel>,
    ix: CalculatorInstruction,
)
    ensures
        calculator_program(program_id, accounts, calculator_instruction_bytes(ix))
            == calculator_step(program_id, accounts, ix),
{
    lemma_calculator_instruction_roundtrip(ix);
}

} // verus!
