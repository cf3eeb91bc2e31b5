use solana_program::pubkey::Pubkey;
use solana_tutorial::address::Address;
use solana_tutorial::instructions::error::TodoError;
use solana_tutorial::instructions::instruction::TodoInstruction;
use solana_tutorial::instructions::process_instruction;
use solana_tutorial::instructions::state::{TodoList, MAX_TODOS};
use solana_tutorial::runtime::{system_program_id, AccountView, ProgramError};

fn unique_address() -> Address {
    Address::new(Pubkey::new_unique().to_bytes())
}

fn account(key: Address, owner: Address, is_signer: bool, data: Vec<u8>) -> AccountView {
    AccountView { key, owner, is_signer, is_writable: true, lamports: 10_000_000, data }
}

/// The owner (signing) and a list account of the program with room for a
/// full list.
fn setup(program_id: Address) -> Vec<AccountView> {
    vec![
        account(unique_address(), system_program_id(), true, Vec::new()),
        account(unique_address(), program_id, false, vec![0; TodoList::max_space()]),
    ]
}

fn run(program_id: &Address, accounts: &mut Vec<AccountView>, ix: TodoInstruction) -> Result<(), ProgramError> {
    process_instruction(program_id, accounts, &ix.try_to_vec().unwrap())
}

fn create(program_id: &Address, accounts: &mut Vec<AccountView>, title: &str, description: &str) -> Result<(), ProgramError> {
    run(
        program_id,
        accounts,
        TodoInstruction::CreateTodo { title: title.to_string(), description: description.to_string() },
    )
}

fn read_list(account: &AccountView) -> TodoList {
    TodoList::deserialize(&account.data, 0).unwrap().0
}

#[test]
fn test_initialize_todo_list() {
    let program_id = unique_address();
    let mut accounts = setup(program_id);
    run(&program_id, &mut accounts, TodoInstruction::Initialize).unwrap();
    let todo_list = read_list(&accounts[1]);
    assert!(todo_list.is_initialized);
    assert_eq!(todo_list.owner, accounts[0].key);
    assert_eq!(todo_list.todos.len(), 0);
    assert_eq!(todo_list.next_id, 0);
}

#[test]
fn test_create_todo() {
    let program_id = unique_address();
    let mut accounts = setup(program_id);
    run(&program_id, &mut accounts, TodoInstruction::Initialize).unwrap();
    create(&program_id, &mut accounts, "学习Solana", "完成第05节教程").unwrap();
    let todo_list = read_list(&accounts[1]);
    assert_eq!(todo_list.todos.len(), 1);
    assert_eq!(todo_list.todos[0].id, 0);
    assert_eq!(todo_list.todos[0].title, "学习Solana");
    assert_eq!(todo_list.todos[0].description, "完成第05节教程");
    assert!(!todo_list.todos[0].completed);
    assert_eq!(todo_list.next_id, 1);
}

#[test]
fn test_update_todo() {
    let program_id = unique_address();
    let mut accounts = setup(program_id);
    run(&program_id, &mut accounts, TodoInstruction::Initialize).unwrap();
    create(&program_id, &mut accounts, "测试Todo", "测试更新功能").unwrap();
    run(&program_id, &mut accounts, TodoInstruction::UpdateTodo { id: 0, completed: true }).unwrap();
    let todo_list = read_list(&accounts[1]);
    assert_eq!(todo_list.todos.len(), 1);
    assert!(todo_list.todos[0].completed);
}

#[test]
fn test_delete_todo() {
    let program_id = unique_address();
    let mut accounts = setup(program_id);
    run(&program_id, &mut accounts, TodoInstruction::Initialize).unwrap();
    create(&program_id, &mut accounts, "Todo 1", "第一个Todo").unwrap();
    create(&program_id, &mut accounts, "Todo 2", "第二个Todo").unwrap();
    run(&program_id, &mut accounts, TodoInstruction::DeleteTodo { id: 0 }).unwrap();
    let todo_list = read_list(&accounts[1]);
    assert_eq!(todo_list.todos.len(), 1);
    assert_eq!(todo_list.todos[0].id, 1);
    assert_eq!(todo_list.todos[0].title, "Todo 2");
}

#[test]
fn test_unauthorized_access() {
    let program_id = unique_address();
    let mut accounts = setup(program_id);
    run(&program_id, &mut accounts, TodoInstruction::Initialize).unwrap();
    accounts[0] = account(unique_address(), system_program_id(), true, Vec::new());
    let result = create(&program_id, &mut accounts, "未授权Todo", "这应该失败");
    assert!(result.is_err());
    assert_eq!(result, Err(ProgramError::from(TodoError::Unauthorized)));
    assert_eq!(result, Err(ProgramError::Custom(3)));
}

#[test]
fn todo_error_codes() {
    let all = [
        TodoError::InvalidInstruction,
        TodoError::UninitializedAccount,
        TodoError::AlreadyInitialized,
        TodoError::Unauthorized,
        TodoError::TodoNotFound,
        TodoError::TodoListFull,
        TodoError::TitleTooLong,
        TodoError::DescriptionTooLong,
    ];
    for (code, e) in all.iter().enumerate() {
        assert_eq!(ProgramError::from(*e), ProgramError::Custom(code as u32));
    }
}

#[test]
fn todo_limits_and_errors() {
    let program_id = unique_address();
    let mut accounts = setup(program_id);
    assert_eq!(
        create(&program_id, &mut accounts, "t", "d"),
        Err(ProgramError::Custom(1))
    );
    run(&program_id, &mut accounts, TodoInstruction::Initialize).unwrap();
    assert_eq!(run(&program_id, &mut accounts, TodoInstruction::Initialize), Err(ProgramError::Custom(2)));
    assert_eq!(create(&program_id, &mut accounts, &"t".repeat(51), "d"), Err(ProgramError::Custom(6)));
    assert_eq!(create(&program_id, &mut accounts, "t", &"d".repeat(201)), Err(ProgramError::Custom(7)));
    assert_eq!(
        run(&program_id, &mut accounts, TodoInstruction::UpdateTodo { id: 9, completed: true }),
        Err(ProgramError::Custom(4))
    );
    assert_eq!(run(&program_id, &mut accounts, TodoInstruction::DeleteTodo { id: 9 }), Err(ProgramError::Custom(4)));
    for i in 0..MAX_TODOS {
        create(&program_id, &mut accounts, &"t".repeat(50), &"d".repeat(200)).unwrap();
        assert_eq!(read_list(&accounts[1]).next_id as usize, i + 1);
    }
    assert_eq!(create(&program_id, &mut accounts, "t", "d"), Err(ProgramError::Custom(5)));
    let list = read_list(&accounts[1]);
    assert_eq!(list.todos.len(), MAX_TODOS);
    let ids: Vec<u32> = list.todos.iter().map(|t| t.id).collect();
    assert_eq!(ids, (0..10).collect::<Vec<u32>>());
}

#[test]
fn todo_sizes() {
    assert_eq!(TodoList::space(), 41);
    assert!(TodoList::max_space() >= TodoList::space());
    let mut list = TodoList::empty();
    list.is_initialized = true;
    assert_eq!(list.try_to_vec().unwrap().len(), TodoList::space());
}

#[test]
fn signer_and_owner_checks() {
    let program_id = unique_address();
    let mut accounts = setup(program_id);
    accounts[0].is_signer = false;
    assert_eq!(run(&program_id, &mut accounts, TodoInstruction::Initialize), Err(ProgramError::MissingRequiredSignature));
    let mut accounts = setup(program_id);
    accounts[1].owner = unique_address();
    assert_eq!(run(&program_id, &mut accounts, TodoInstruction::Initialize), Err(ProgramError::IncorrectProgramId));
    let mut accounts = setup(program_id);
    accounts.truncate(1);
    assert_eq!(run(&program_id, &mut accounts, TodoInstruction::Initialize), Err(ProgramError::NotEnoughAccountKeys));
    let mut accounts = setup(program_id);
    assert_eq!(process_instruction(&program_id, &mut accounts, &[9]), Err(ProgramError::InvalidInstructionData));
}

#[test]
fn deleted_ids_are_never_given_again() {
    let program_id = unique_address();
    let mut accounts = setup(program_id);
    run(&program_id, &mut accounts, TodoInstruction::Initialize).unwrap();
    for t in ["a", "b", "c"] {
        create(&program_id, &mut accounts, t, "d").unwrap();
    }
    run(&program_id, &mut accounts, TodoInstruction::DeleteTodo { id: 2 }).unwrap();
    run(&program_id, &mut accounts, TodoInstruction::DeleteTodo { id: 1 }).unwrap();
    create(&program_id, &mut accounts, "e", "d").unwrap();
    run(&program_id, &mut accounts, TodoInstruction::UpdateTodo { id: 3, completed: true }).unwrap();
    let list = read_list(&accounts[1]);
    let ids: Vec<u32> = list.todos.iter().map(|t| t.id).collect();
    assert_eq!(ids, vec![0, 3]);
    assert_eq!(list.next_id, 4);
    assert!(list.todos[1].completed);
    assert_eq!(list.todos[1].title, "e");
}
