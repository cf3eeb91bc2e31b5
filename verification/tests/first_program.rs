use borsh::BorshDeserialize;
use solana_program::pubkey::Pubkey;
use solana_tutorial::address::Address;
use solana_tutorial::first_program::instruction::CounterInstruction;
use solana_tutorial::first_program::process_instruction;
use solana_tutorial::first_program::state::Counter;
use solana_tutorial::runtime::{AccountView, ProgramError};
use solana_tutorial::wire::WireError;

fn unique_address() -> Address {
    Address::new(Pubkey::new_unique().to_bytes())
}

fn counter_account(owner: Address) -> AccountView {
    AccountView {
        key: unique_address(),
        owner,
        is_signer: false,
        is_writable: true,
        lamports: 1_000_000,
        data: vec![0; 9],
    }
}

fn run(program_id: &Address, accounts: &mut Vec<AccountView>, ix: CounterInstruction) -> Result<(), ProgramError> {
    process_instruction(program_id, accounts, &ix.try_to_vec())
}

fn read_counter(account: &AccountView) -> Counter {
    Counter::try_from_slice(&account.data).unwrap()
}

#[test]
fn test_initialize_counter() {
    let program_id = unique_address();
    let mut accounts = vec![counter_account(program_id)];
    run(&program_id, &mut accounts, CounterInstruction::Initialize).unwrap();
    let counter = read_counter(&accounts[0]);
    assert_eq!(counter.count, 0);
    assert!(counter.is_initialized);
}

#[test]
fn test_increment_counter() {
    let program_id = unique_address();
    let mut accounts = vec![counter_account(program_id)];
    run(&program_id, &mut accounts, CounterInstruction::Initialize).unwrap();
    run(&program_id, &mut accounts, CounterInstruction::Increment).unwrap();
    assert_eq!(read_counter(&accounts[0]).count, 1);
}

#[test]
fn test_decrement_counter() {
    let program_id = unique_address();
    let mut accounts = vec![counter_account(program_id)];
    run(&program_id, &mut accounts, CounterInstruction::Initialize).unwrap();
    for _ in 0..5 {
        run(&program_id, &mut accounts, CounterInstruction::Increment).unwrap();
    }
    run(&program_id, &mut accounts, CounterInstruction::Decrement).unwrap();
    assert_eq!(read_counter(&accounts[0]).count, 4);
}

#[test]
fn test_reset_counter() {
    let program_id = unique_address();
    let mut accounts = vec![counter_account(program_id)];
    run(&program_id, &mut accounts, CounterInstruction::Initialize).unwrap();
    for _ in 0..3 {
        run(&program_id, &mut accounts, CounterInstruction::Increment).unwrap();
    }
    run(&program_id, &mut accounts, CounterInstruction::Reset).unwrap();
    let counter = read_counter(&accounts[0]);
    assert_eq!(counter.count, 0);
    assert!(counter.is_initialized);
}

#[test]
fn test_uninitialized_account_error() {
    let program_id = unique_address();
    let mut accounts = vec![counter_account(program_id)];
    let result = run(&program_id, &mut accounts, CounterInstruction::Increment);
    assert!(result.is_err());
    assert_eq!(result, Err(ProgramError::UninitializedAccount));
    assert_eq!(accounts[0].data, vec![0u8; 9]);
}

#[test]
fn test_ownership_check() {
    let program_id = unique_address();
    let wrong_owner = unique_address();
    let mut accounts = vec![counter_account(wrong_owner)];
    let result = run(&program_id, &mut accounts, CounterInstruction::Initialize);
    assert!(result.is_err());
    assert_eq!(result, Err(ProgramError::IncorrectProgramId));
}

#[test]
fn initializing_twice_is_refused() {
    let program_id = unique_address();
    let mut accounts = vec![counter_account(program_id)];
    run(&program_id, &mut accounts, CounterInstruction::Initialize).unwrap();
    assert_eq!(
        run(&program_id, &mut accounts, CounterInstruction::Initialize),
        Err(ProgramError::AccountAlreadyInitialized)
    );
}

#[test]
fn decrement_below_zero_is_refused() {
    let program_id = unique_address();
    let mut accounts = vec![counter_account(program_id)];
    run(&program_id, &mut accounts, CounterInstruction::Initialize).unwrap();
    assert_eq!(
        run(&program_id, &mut accounts, CounterInstruction::Decrement),
        Err(ProgramError::InvalidAccountData)
    );
    assert_eq!(read_counter(&accounts[0]).count, 0);
}

#[test]
fn increment_past_max_is_refused() {
    let program_id = unique_address();
    let mut accounts = vec![counter_account(program_id)];
    accounts[0].data = Counter { count: u64::MAX, is_initialized: true }.try_to_vec();
    assert_eq!(
        run(&program_id, &mut accounts, CounterInstruction::Increment),
        Err(ProgramError::InvalidAccountData)
    );
}

#[test]
fn increment_then_decrement_restores_the_account() {
    let program_id = unique_address();
    let mut accounts = vec![counter_account(program_id)];
    accounts[0].data = Counter { count: 17, is_initialized: true }.try_to_vec();
    let before = accounts[0].data.clone();
    run(&program_id, &mut accounts, CounterInstruction::Increment).unwrap();
    assert_eq!(read_counter(&accounts[0]).count, 18);
    run(&program_id, &mut accounts, CounterInstruction::Decrement).unwrap();
    assert_eq!(accounts[0].data, before);
}

#[test]
fn counter_data_of_the_wrong_size_is_refused() {
    let program_id = unique_address();
    let mut accounts = vec![counter_account(program_id)];
    accounts[0].data = vec![0; 10];
    assert_eq!(
        run(&program_id, &mut accounts, CounterInstruction::Initialize),
        Err(ProgramError::BorshIoError(WireError::NotAllBytesRead))
    );
    accounts[0].data = vec![0; 8];
    assert_eq!(
        run(&program_id, &mut accounts, CounterInstruction::Initialize),
        Err(ProgramError::BorshIoError(WireError::UnexpectedLength))
    );
}

#[test]
fn bad_instruction_data_is_refused() {
    let program_id = unique_address();
    let mut accounts = vec![counter_account(program_id)];
    assert_eq!(process_instruction(&program_id, &mut accounts, &[4]), Err(ProgramError::InvalidInstructionData));
    assert_eq!(process_instruction(&program_id, &mut accounts, &[]), Err(ProgramError::InvalidInstructionData));
    assert_eq!(process_instruction(&program_id, &mut accounts, &[1, 0]), Err(ProgramError::InvalidInstructionData));
    let mut none: Vec<AccountView> = Vec::new();
    assert_eq!(process_instruction(&program_id, &mut none, &[0]), Err(ProgramError::NotEnoughAccountKeys));
}

#[test]
fn counter_encoding_matches_borsh() {
    let c = Counter { count: 0x0102_0304_0506_0708, is_initialized: true };
    let bytes = c.try_to_vec();
    assert_eq!(bytes, vec![8, 7, 6, 5, 4, 3, 2, 1, 1]);
    let (count, init) = <(u64, bool)>::try_from_slice(&bytes).unwrap();
    assert_eq!(count, c.count);
    assert!(init);
    assert_eq!(Counter::try_from_slice(&bytes).unwrap(), c);
    assert_eq!(CounterInstruction::Reset.try_to_vec(), vec![3]);
    assert_eq!(CounterInstruction::try_from_slice(&[2]).unwrap(), CounterInstruction::Decrement);
    assert_eq!(Counter::try_from_slice(&[0, 0, 0, 0, 0, 0, 0, 0, 2]), Err(WireError::InvalidBool(2)));
}
