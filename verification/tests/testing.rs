use borsh::BorshDeserialize;
use solana_program::pubkey::Pubkey;
use solana_tutorial::address::Address;
use solana_tutorial::runtime::{AccountView, ProgramError};
use solana_tutorial::testing::error::CalculatorError;
use solana_tutorial::testing::instruction::CalculatorInstruction;
use solana_tutorial::testing::process_instruction;
use solana_tutorial::testing::state::CalculatorResult;
use solana_tutorial::wire::WireError;

fn addr(k: &Pubkey) -> Address {
    Address::new(k.to_bytes())
}

fn result_account(owner: Address) -> AccountView {
    AccountView {
        key: addr(&Pubkey::new_unique()),
        owner,
        is_signer: false,
        is_writable: true,
        lamports: 10_000_000,
        data: vec![0; CalculatorResult::space()],
    }
}

fn run(program_id: &Address, accounts: &mut Vec<AccountView>, ix: CalculatorInstruction) -> Result<(), ProgramError> {
    process_instruction(program_id, accounts, &ix.try_to_vec())
}

fn read(account: &AccountView) -> CalculatorResult {
    CalculatorResult::try_from_slice(&account.data).unwrap()
}

#[test]
fn test_add() {
    let program_id = addr(&Pubkey::new_unique());
    let mut accounts = vec![result_account(program_id)];
    run(&program_id, &mut accounts, CalculatorInstruction::Add { a: 10, b: 20 }).unwrap();
    let result = read(&accounts[0]);
    assert_eq!(result.result, 30);
    assert_eq!(result.operation_count, 1);
}

#[test]
fn test_multiple_operations() {
    let program_id = addr(&Pubkey::new_unique());
    let mut accounts = vec![result_account(program_id)];
    let operations = vec![
        CalculatorInstruction::Add { a: 10, b: 5 },
        CalculatorInstruction::Multiply { a: 15, b: 2 },
        CalculatorInstruction::Subtract { a: 30, b: 5 },
        CalculatorInstruction::Divide { a: 25, b: 5 },
    ];
    for op in operations {
        run(&program_id, &mut accounts, op).unwrap();
    }
    let result = read(&accounts[0]);
    assert_eq!(result.result, 5);
    assert_eq!(result.operation_count, 4);
}

#[test]
fn test_division_by_zero() {
    let program_id = addr(&Pubkey::new_unique());
    let mut accounts = vec![result_account(program_id)];
    let result = run(&program_id, &mut accounts, CalculatorInstruction::Divide { a: 10, b: 0 });
    assert!(result.is_err());
    assert_eq!(result, Err(ProgramError::from(CalculatorError::DivisionByZero)));
    assert_eq!(result, Err(ProgramError::Custom(0)));
}

#[test]
fn test_overflow() {
    let program_id = addr(&Pubkey::new_unique());
    let mut accounts = vec![result_account(program_id)];
    let result = run(&program_id, &mut accounts, CalculatorInstruction::Add { a: i64::MAX, b: 1 });
    assert!(result.is_err());
    assert_eq!(result, Err(ProgramError::from(CalculatorError::Overflow)));
    assert_eq!(result, Err(ProgramError::Custom(1)));
    assert_eq!(read(&accounts[0]), CalculatorResult { result: 0, operation_count: 0 });
}

#[test]
fn division_rounds_toward_zero() {
    let program_id = addr(&Pubkey::new_unique());
    let mut accounts = vec![result_account(program_id)];
    for (a, b, q) in [(7i64, 2i64, 3i64), (-7, 2, -3), (7, -2, -3), (-7, -2, 3), (0, -5, 0), (i64::MIN, 1, i64::MIN)] {
        run(&program_id, &mut accounts, CalculatorInstruction::Divide { a, b }).unwrap();
        assert_eq!(read(&accounts[0]).result, q);
    }
    assert_eq!(read(&accounts[0]).operation_count, 6);
    assert_eq!(
        run(&program_id, &mut accounts, CalculatorInstruction::Divide { a: i64::MIN, b: -1 }),
        Err(ProgramError::Custom(1))
    );
}

#[test]
fn overflow_in_each_operation() {
    let program_id = addr(&Pubkey::new_unique());
    let mut accounts = vec![result_account(program_id)];
    for ix in [
        CalculatorInstruction::Add { a: i64::MIN, b: -1 },
        CalculatorInstruction::Subtract { a: i64::MIN, b: 1 },
        CalculatorInstruction::Subtract { a: i64::MAX, b: -1 },
        CalculatorInstruction::Multiply { a: i64::MAX, b: 2 },
        CalculatorInstruction::Multiply { a: i64::MIN, b: -1 },
    ] {
        assert_eq!(run(&program_id, &mut accounts, ix), Err(ProgramError::Custom(1)));
    }
    run(&program_id, &mut accounts, CalculatorInstruction::Multiply { a: -3_037_000_499, b: 3_037_000_499 }).unwrap();
    assert_eq!(read(&accounts[0]).result, -9_223_372_030_926_249_001);
    run(&program_id, &mut accounts, CalculatorInstruction::Subtract { a: -5, b: 7 }).unwrap();
    assert_eq!(read(&accounts[0]), CalculatorResult { result: -12, operation_count: 2 });
}

#[test]
fn result_account_checks() {
    let program_id = addr(&Pubkey::new_unique());
    let mut foreign = vec![result_account(addr(&Pubkey::new_unique()))];
    assert_eq!(
        run(&program_id, &mut foreign, CalculatorInstruction::Add { a: 1, b: 1 }),
        Err(ProgramError::IncorrectProgramId)
    );
    let mut none: Vec<AccountView> = Vec::new();
    assert_eq!(
        run(&program_id, &mut none, CalculatorInstruction::Add { a: 1, b: 1 }),
        Err(ProgramError::NotEnoughAccountKeys)
    );
    // Too short to read a result from.
    let mut short = vec![result_account(program_id)];
    short[0].data = vec![0; 15];
    assert_eq!(
        run(&program_id, &mut short, CalculatorInstruction::Add { a: 1, b: 1 }),
        Err(ProgramError::InvalidAccountData)
    );
    // No data: a zero result is used, but there is no room to write it.
    let mut empty = vec![result_account(program_id)];
    empty[0].data = Vec::new();
    assert_eq!(
        run(&program_id, &mut empty, CalculatorInstruction::Add { a: 1, b: 1 }),
        Err(ProgramError::BorshIoError(WireError::WriteZero))
    );
    // More room than needed: the result is written at the front.
    let mut long = vec![result_account(program_id)];
    long[0].data = vec![7; 20];
    long[0].data[..16].copy_from_slice(&CalculatorResult { result: 1, operation_count: 9 }.try_to_vec());
    run(&program_id, &mut long, CalculatorInstruction::Add { a: 1, b: 1 }).unwrap();
    assert_eq!(&long[0].data[16..], &[7u8; 4][..]);
    assert_eq!(
        CalculatorResult::deserialize(&long[0].data, 0).unwrap().0,
        CalculatorResult { result: 2, operation_count: 10 }
    );
    assert_eq!(process_instruction(&program_id, &mut long, &[4]), Err(ProgramError::InvalidInstructionData));
}

#[test]
fn calculator_encodings_match_borsh() {
    let ix = CalculatorInstruction::Multiply { a: -2, b: 300 };
    let bytes = ix.try_to_vec();
    let (tag, a, b) = <(u8, i64, i64)>::try_from_slice(&bytes).unwrap();
    assert_eq!((tag, a, b), (2, -2, 300));
    assert_eq!(CalculatorInstruction::try_from_slice(&bytes).unwrap(), ix);
    let r = CalculatorResult { result: -1, operation_count: 3 };
    let enc = r.try_to_vec();
    assert_eq!(enc.len(), CalculatorResult::space());
    assert_eq!(<(i64, u64)>::try_from_slice(&enc).unwrap(), (-1, 3));
    assert_eq!(CalculatorInstruction::try_from_slice(&[4; 17]), Err(WireError::InvalidVariant(4)));
}
