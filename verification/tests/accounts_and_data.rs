use solana_program::pubkey::Pubkey;
use solana_tutorial::accounts_and_data::instruction::ProfileInstruction;
use solana_tutorial::accounts_and_data::processor::process_instruction;
use solana_tutorial::accounts_and_data::state::UserProfile;
use solana_tutorial::address::Address;
use solana_tutorial::runtime::{system_program_id, AccountView, ProgramError};

fn unique_address() -> Address {
    Address::new(Pubkey::new_unique().to_bytes())
}

fn account(key: Address, owner: Address, is_signer: bool, lamports: u64, data: Vec<u8>) -> AccountView {
    AccountView { key, owner, is_signer, is_writable: true, lamports, data }
}

/// The payer, a fresh profile-sized account of the program (as the system
/// program leaves it), and the system program.
fn setup(program_id: Address) -> Vec<AccountView> {
    vec![
        account(unique_address(), system_program_id(), true, 1_000_000_000, Vec::new()),
        account(unique_address(), program_id, true, 1_814_880, vec![0; UserProfile::space()]),
        account(system_program_id(), unique_address(), false, 1, Vec::new()),
    ]
}

fn run(program_id: &Address, accounts: &mut Vec<AccountView>, ix: &ProfileInstruction) -> Result<(), ProgramError> {
    process_instruction(program_id, accounts, &ix.try_to_vec().unwrap())
}

fn create(program_id: &Address, accounts: &mut Vec<AccountView>, name: &str, age: u8, email: &str) -> Result<(), ProgramError> {
    run(
        program_id,
        accounts,
        &ProfileInstruction::CreateProfile { name: name.to_string(), age, email: email.to_string() },
    )
}

fn read_profile(account: &AccountView) -> UserProfile {
    UserProfile::try_from_slice(&account.data).unwrap()
}

#[test]
fn test_create_profile() {
    let program_id = unique_address();
    let mut accounts = setup(program_id);
    let name = "张三".to_string();
    let age = 25u8;
    let email = "zhangsan@example.com".to_string();
    create(&program_id, &mut accounts, &name, age, &email).unwrap();

    let profile = read_profile(&accounts[1]);
    assert!(profile.is_initialized);
    assert_eq!(profile.owner, accounts[0].key);
    assert_eq!(profile.get_name(), name);
    assert_eq!(profile.age, age);
    assert_eq!(profile.get_email(), email);
}

#[test]
fn test_update_profile() {
    let program_id = unique_address();
    let mut accounts = setup(program_id);
    create(&program_id, &mut accounts, "李四", 30, "lisi@example.com").unwrap();
    run(
        &program_id,
        &mut accounts,
        &ProfileInstruction::UpdateProfile { name: Some("李四更新".to_string()), age: Some(31), email: None },
    )
    .unwrap();

    let profile = read_profile(&accounts[1]);
    assert_eq!(profile.get_name(), "李四更新");
    assert_eq!(profile.age, 31);
    assert_eq!(profile.get_email(), "lisi@example.com");
}

#[test]
fn test_close_profile() {
    let program_id = unique_address();
    let mut accounts = setup(program_id);
    create(&program_id, &mut accounts, "王五", 28, "wangwu@example.com").unwrap();
    let payer_balance_before = accounts[0].lamports;
    let profile_lamports = accounts[1].lamports;
    run(&program_id, &mut accounts, &ProfileInstruction::CloseProfile).unwrap();

    assert_eq!(accounts[1].lamports, 0);
    assert!(accounts[1].data.iter().all(|b| *b == 0));
    assert!(accounts[0].lamports > payer_balance_before);
    assert_eq!(accounts[0].lamports, payer_balance_before + profile_lamports);
}

#[test]
fn integration_test_ownership_check() {
    let program_id = unique_address();
    let mut accounts = setup(program_id);
    create(&program_id, &mut accounts, "赵六", 35, "zhaoliu@example.com").unwrap();
    let before = accounts[1].data.clone();

    let mut other = accounts.clone();
    other[0] = account(unique_address(), system_program_id(), true, 1_000_000_000, Vec::new());
    let result = run(
        &program_id,
        &mut other,
        &ProfileInstruction::UpdateProfile { name: Some("未授权更新".to_string()), age: None, email: None },
    );
    assert!(result.is_err());
    assert_eq!(result, Err(ProgramError::IllegalOwner));
    assert_eq!(other[1].data, before);
}

#[test]
fn test_data_validation() {
    let program_id = unique_address();
    let mut accounts = setup(program_id);
    let long_name = "a".repeat(UserProfile::MAX_NAME_LEN + 1);
    let result = create(&program_id, &mut accounts, &long_name, 25, "test@example.com");
    assert!(result.is_err());
    assert_eq!(result, Err(ProgramError::InvalidInstructionData));
    assert_eq!(accounts[1].data, vec![0u8; UserProfile::space()]);
}

#[test]
fn profile_field_limits() {
    let owner = unique_address();
    assert!(UserProfile::new(owner, "a".repeat(32), 1, "b".repeat(64)).is_ok());
    assert_eq!(UserProfile::new(owner, "a".repeat(33), 1, "b".to_string()).unwrap_err(), "名字长度超过限制");
    assert_eq!(UserProfile::new(owner, "a".to_string(), 1, "b".repeat(65)).unwrap_err(), "邮箱长度超过限制");
    assert!(UserProfile::new(owner, String::new(), 1, "b".to_string()).is_err());
    assert!(UserProfile::new(owner, "a".to_string(), 1, String::new()).is_err());
    let mut p = UserProfile::new(owner, "名字".to_string(), 7, "x@y".to_string()).unwrap();
    assert_eq!(p.get_name(), "名字");
    assert!(p.set_name("新".to_string()).is_ok());
    assert_eq!(p.get_name(), "新");
    assert!(p.set_email("c".repeat(65)).is_err());
    assert_eq!(p.get_email(), "x@y");
    assert_eq!(UserProfile::space(), 132);
    assert_eq!(p.try_to_vec().len(), 132);
}

#[test]
fn create_profile_checks() {
    let program_id = unique_address();

    let mut accounts = setup(program_id);
    accounts[1].is_signer = false;
    assert_eq!(create(&program_id, &mut accounts, "a", 1, "b"), Err(ProgramError::MissingRequiredSignature));

    let mut accounts = setup(program_id);
    accounts[1].owner = unique_address();
    assert_eq!(create(&program_id, &mut accounts, "a", 1, "b"), Err(ProgramError::IncorrectProgramId));

    let mut accounts = setup(program_id);
    accounts.truncate(2);
    assert_eq!(create(&program_id, &mut accounts, "a", 1, "b"), Err(ProgramError::NotEnoughAccountKeys));

    let mut accounts = setup(program_id);
    accounts[1].data = vec![0; 10];
    assert!(create(&program_id, &mut accounts, "a", 1, "b").is_err());
}

#[test]
fn update_before_create_is_refused() {
    let program_id = unique_address();
    let mut accounts = setup(program_id);
    let result = run(
        &program_id,
        &mut accounts,
        &ProfileInstruction::UpdateProfile { name: None, age: Some(3), email: None },
    );
    assert_eq!(result, Err(ProgramError::UninitializedAccount));
}

#[test]
fn update_is_all_or_nothing() {
    let program_id = unique_address();
    let mut accounts = setup(program_id);
    create(&program_id, &mut accounts, "孙七", 40, "sunqi@example.com").unwrap();
    let before = accounts[1].data.clone();
    let result = run(
        &program_id,
        &mut accounts,
        &ProfileInstruction::UpdateProfile {
            name: Some("新名字".to_string()),
            age: Some(41),
            email: Some("e".repeat(65)),
        },
    );
    assert_eq!(result, Err(ProgramError::InvalidInstructionData));
    assert_eq!(accounts[1].data, before);
    let result = run(
        &program_id,
        &mut accounts,
        &ProfileInstruction::UpdateProfile { name: Some(String::new()), age: None, email: None },
    );
    assert_eq!(result, Err(ProgramError::InvalidInstructionData));
    assert_eq!(read_profile(&accounts[1]).get_name(), "孙七");
    let mut unsigned = accounts.clone();
    unsigned[0].is_signer = false;
    assert_eq!(
        run(&program_id, &mut unsigned, &ProfileInstruction::UpdateProfile { name: None, age: Some(1), email: None }),
        Err(ProgramError::MissingRequiredSignature)
    );
}
