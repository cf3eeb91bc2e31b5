//! A todo-list program: one account holds an owner's list of todos, which the
//! instructions create, mark and delete.
pub mod error;
pub mod instruction;
pub mod state;

use vstd::prelude::*;
use vstd::utf8::encode_utf8;

use crate::address::Address;
use crate::runtime::{
    models, outcome, put_data, store_account_data, AccountModel, AccountView, ProgramError,
};
use crate::wire::{exactly, WireError};
use error::{todo_err, TodoError};
use instruction::{
    lemma_todo_instruction_roundtrip, parse_todo_instruction, todo_instruction_bytes,
    todo_instruction_encodable, TodoInstruction, TodoInstructionModel,
};
use state::{
    empty_list, item_encodable, items_model, lemma_list_roundtrip, lemma_parse_list_encodable,
    list_bytes, list_encodable, list_encoding, parse_list, TodoItem, TodoItemModel, TodoList,
    TodoListModel, MAX_DESCRIPTION_LEN, MAX_TITLE_LEN, MAX_TODOS,
};

verus! {

/// The checks every instruction starts with: two accounts, the first a
/// signer, the second belonging to the program.
pub open spec fn account_checks(program_id: Seq<u8>, accounts: Seq<AccountModel>) -> Option<
    ProgramError,
> {
    if accounts.len() < 2 {
        Some(ProgramError::NotEnoughAccountKeys)
    } else if !accounts[0].is_signer {
        Some(ProgramError::MissingRequiredSignature)
    } else if accounts[1].owner != program_id {
        Some(ProgramError::IncorrectProgramId)
    } else {
        None
    }
}

/// Writing a list into account 1.
pub open spec fn store_list(accounts: Seq<AccountModel>, l: TodoListModel) -> Result<
    Seq<AccountModel>,
    ProgramError,
> {
    match list_encoding(l) {
        Err(e) => Err(ProgramError::BorshIoError(e)),
        Ok(b) => put_data(accounts, 1, b),
    }
}

/// What Initialize does: a list the account does not yet hold initialized
/// (an unreadable one counts as empty) becomes an empty list owned by the
/// signer.
pub open spec fn initialize_spec(program_id: Seq<u8>, accounts: Seq<AccountModel>) -> Result<
    Seq<AccountModel>,
    ProgramError,
> {
    match account_checks(program_id, accounts) {
        Some(e) => Err(e),
        None => {
            let current = match parse_list(accounts[1].data, 0) {
                Ok((l, _)) => l,
                Err(_) => empty_list(),
            };
            if current.is_initialized {
                Err(todo_err(TodoError::AlreadyInitialized))
            } else {
                store_list(
                    accounts,
                    TodoListModel {
                        is_initialized: true,
                        owner: accounts[0].key,
                        todos: Seq::empty(),
                        next_id: 0,
                    },
                )
            }
        },
    }
}

/// The list in account 1, once it reads, is initialized and is owned by the
/// signer.
pub open spec fn owned_list(program_id: Seq<u8>, accounts: Seq<AccountModel>) -> Result<
    TodoListModel,
    ProgramError,
> {
    match account_checks(program_id, accounts) {
        Some(e) => Err(e),
        None => match parse_list(accounts[1].data, 0) {
            Err(e) => Err(ProgramError::BorshIoError(e)),
            Ok((l, _)) => if !l.is_initialized {
                Err(todo_err(TodoError::UninitializedAccount))
            } else if l.owner != accounts[0].key {
                Err(todo_err(TodoError::Unauthorized))
            } else {
                Ok(l)
            },
        },
    }
}

/// `n + 1`, wrapping to 0 past `u32::MAX` as the program's release build
/// does.
pub open spec fn next_id_after(n: u32) -> u32 {
    if n == u32::MAX {
        0
    } else {
        (n + 1) as u32
    }
}

/// The list with a new todo at its end, numbered with the list's next id.
pub open spec fn add_todo(l: TodoListModel, title: Seq<char>, description: Seq<char>) -> TodoListModel {
    TodoListModel {
        todos: l.todos.push(TodoItemModel { id: l.next_id, title, description, completed: false }),
        next_id: next_id_after(l.next_id),
        ..l
    }
}

/// What CreateTodo does.
pub open spec fn create_todo_spec(
    program_id: Seq<u8>,
    accounts: Seq<AccountModel>,
    title: Seq<char>,
    description: Seq<char>,
) -> Result<Seq<AccountModel>, ProgramError> {
    match owned_list(program_id, accounts) {
        Err(e) => Err(e),
        Ok(l) => if encode_utf8(title).len() > MAX_TITLE_LEN {
            Err(todo_err(TodoError::TitleTooLong))
        } else if encode_utf8(description).len() > MAX_DESCRIPTION_LEN {
            Err(todo_err(TodoError::DescriptionTooLong))
        } else if l.todos.len() >= MAX_TODOS {
            Err(todo_err(TodoError::TodoListFull))
        } else {
            store_list(accounts, add_todo(l, title, description))
        },
    }
}

/// `k` is the first position of a todo with this id.
pub open spec fn first_with_id(todos: Seq<TodoItemModel>, id: u32, k: int) -> bool {
    &&& 0 <= k < todos.len()
    &&& todos[k].id == id
    &&& forall|j: int| 0 <= j < k ==> todos[j].id != id
}

/// The position of the first todo with this id, if there is one.
pub open spec fn todo_position(todos: Seq<TodoItemModel>, id: u32) -> Option<int> {
    if exists|k: int| first_with_id(todos, id, k) {
        Some(choose|k: int| first_with_id(todos, id, k))
    } else {
        None
    }
}

/// What UpdateTodo does: the first todo with the id gets the flag.
pub open spec fn update_todo_spec(
    program_id: Seq<u8>,
    accounts: Seq<AccountModel>,
    id: u32,
    completed: bool,
) -> Result<Seq<AccountModel>, ProgramError> {
    match owned_list(program_id, accounts) {
        Err(e) => Err(e),
        Ok(l) => match todo_position(l.todos, id) {
            None => Err(todo_err(TodoError::TodoNotFound)),
            Some(k) => store_list(
                accounts,
                TodoListModel {
                    todos: l.todos.update(k, TodoItemModel { completed, ..l.todos[k] }),
                    ..l
                },
            ),
        },
    }
}

/// What DeleteTodo does: the first todo with the id is removed.
pub open spec fn delete_todo_spec(program_id: Seq<u8>, accounts: Seq<AccountModel>, id: u32) -> Result<
    Seq<AccountModel>,
    ProgramError,
> {
    match owned_list(program_id, accounts) {
        Err(e) => Err(e),
        Ok(l) => match todo_position(l.todos, id) {
            None => Err(todo_err(TodoError::TodoNotFound)),
            Some(k) => store_list(accounts, TodoListModel { todos: l.todos.remove(k), ..l }),
        },
    }
}

/// What one decoded instruction does.
pub open spec fn todo_step(
    program_id: Seq<u8>,
    accounts: Seq<AccountModel>,
    ix: TodoInstructionModel,
) -> Result<Seq<AccountModel>, ProgramError> {
    match ix {
        TodoInstructionModel::Initialize => initialize_spec(program_id, accounts),
        TodoInstructionModel::CreateTodo { title, description } => create_todo_spec(
            program_id,
            accounts,
            title,
            description,
        ),
        TodoInstructionModel::UpdateTodo { id, completed } => update_todo_spec(
            program_id,
            accounts,
            id,
            completed,
        ),
        TodoInstructionModel::DeleteTodo { id } => delete_todo_spec(program_id, accounts, id),
    }
}

/// What the program does with an instruction's data.
pub open spec fn todo_program(program_id: Seq<u8>, accounts: Seq<AccountModel>, data: Seq<u8>) -> Result<
    Seq<AccountModel>,
    ProgramError,
> {
    match exactly(parse_todo_instruction(data, 0), data.len() as int) {
        Err(_) => Err(ProgramError::InvalidInstructionData),
        Ok(ix) => todo_step(program_id, accounts, ix),
    }
}

fn check_accounts(program_id: &Address, accounts: &Vec<AccountView>) -> (r: Result<(), ProgramError>)
    ensures
        match account_checks(program_id@, models(accounts@)) {
            Some(e) => r == Err::<(), ProgramError>(e),
            None => r is Ok,
        },
{
    if accounts.len() < 2 {
        return Err(ProgramError::NotEnoughAccountKeys);
    }
    if !accounts[0].is_signer {
        return Err(ProgramError::MissingRequiredSignature);
    }
    if !accounts[1].owner.equals(program_id) {
        return Err(ProgramError::IncorrectProgramId);
    }
    Ok(())
}

fn save_list(accounts: &mut Vec<AccountView>, list: &TodoList) -> (r: Result<(), ProgramError>)
    requires
        old(accounts)@.len() >= 2,
    ensures
        outcome(
            r,
            models(old(accounts)@),
            models(final(accounts)@),
            store_list(models(old(accounts)@), list@),
        ),
{
    match list.try_to_vec() {
        Err(e) => Err(ProgramError::BorshIoError(e)),
        Ok(enc) => store_account_data(accounts, 1, &enc),
    }
}

fn process_initialize(program_id: &Address, accounts: &mut Vec<AccountView>) -> (r: Result<
    (),
    ProgramError,
>)
    ensures
        outcome(
            r,
            models(old(accounts)@),
            models(final(accounts)@),
            initialize_spec(program_id@, models(old(accounts)@)),
        ),
{
    check_accounts(program_id, accounts)?;
    let current = match TodoList::deserialize(accounts[1].data.as_slice(), 0) {
        Ok((l, _)) => l,
        Err(_) => TodoList::empty(),
    };
    if current.is_initialized {
        return Err(ProgramError::from(TodoError::AlreadyInitialized));
    }
    let list = TodoList {
        is_initialized: true,
        owner: accounts[0].key,
        todos: Vec::new(),
        next_id: 0,
    };
    assert(list@.todos =~= Seq::<TodoItemModel>::empty());
    save_list(accounts, &list)
}

fn load_owned_list(program_id: &Address, accounts: &Vec<AccountView>) -> (r: Result<
    TodoList,
    ProgramError,
>)
    ensures
        match owned_list(program_id@, models(accounts@)) {
            Ok(m) => r matches Ok(l) && l@ == m,
            Err(e) => r matches Err(x) && x == e,
        },
{
    check_accounts(program_id, accounts)?;
    let list = match TodoList::deserialize(accounts[1].data.as_slice(), 0) {
        Ok((l, _)) => l,
        Err(e) => return Err(ProgramError::BorshIoError(e)),
    };
    if !list.is_initialized {
        return Err(ProgramError::from(TodoError::UninitializedAccount));
    }
    if !list.owner.equals(&accounts[0].key) {
        return Err(ProgramError::from(TodoError::Unauthorized));
    }
    Ok(list)
}

fn process_create_todo(
    program_id: &Address,
    accounts: &mut Vec<AccountView>,
    title: String,
    description: String,
) -> (r: Result<(), ProgramError>)
    ensures
        outcome(
            r,
            models(old(accounts)@),
            models(final(accounts)@),
            create_todo_spec(program_id@, models(old(accounts)@), title@, description@),
        ),
{
    let mut list = load_owned_list(program_id, accounts)?;
    if title.as_str().as_bytes().len() > MAX_TITLE_LEN {
        return Err(ProgramError::from(TodoError::TitleTooLong));
    }
    if description.as_str().as_bytes().len() > MAX_DESCRIPTION_LEN {
        return Err(ProgramError::from(TodoError::DescriptionTooLong));
    }
    if list.todos.len() >= MAX_TODOS {
        return Err(ProgramError::from(TodoError::TodoListFull));
    }
    let ghost before = list@;
    let new_todo = TodoItem { id: list.next_id, title, description, completed: false };
    list.todos.push(new_todo);
    list.next_id = if list.next_id == u32::MAX {
        0
    } else {
        list.next_id + 1
    };
    assert(list@.todos =~= before.todos.push(new_todo@));
    save_list(accounts, &list)
}

fn find_todo(todos: &Vec<TodoItem>, id: u32) -> (r: Option<usize>)
    ensures
        match todo_position(items_model(todos@), id) {
            None => r is None,
            Some(k) => r == Some(k as usize),
        },
{
    let ghost s = items_model(todos@);
    let mut i: usize = 0;
    while i < todos.len()
        invariant
            i <= todos@.len(),
            s == items_model(todos@),
            forall|j: int| 0 <= j < i ==> s[j].id != id,
        decreases todos@.len() - i,
    {
        if todos[i].id == id {
            assert(s[i as int].id == id);
            assert(first_with_id(s, id, i as int));
            let ghost k = choose|k: int| first_with_id(s, id, k);
            assert(k == i) by {
                if k < i {
                    assert(s[k].id != id);
                }
                if k > i {
                    assert(s[i as int].id != id);
                }
            }
            return Some(i);
        }
        i = i + 1;
    }
    assert(!exists|k: int| first_with_id(s, id, k)) by {
        if exists|k: int| first_with_id(s, id, k) {
            let k = choose|k: int| first_with_id(s, id, k);
            assert(s[k].id != id);
        }
    }
    None
}

fn process_update_todo(
    program_id: &Address,
    accounts: &mut Vec<AccountView>,
    id: u32,
    completed: bool,
) -> (r: Result<(), ProgramError>)
    ensures
        outcome(
            r,
            models(old(accounts)@),
            models(final(accounts)@),
            update_todo_spec(program_id@, models(old(accounts)@), id, completed),
        ),
{
    let mut list = load_owned_list(program_id, accounts)?;
    let k = match find_todo(&list.todos, id) {
        None => return Err(ProgramError::from(TodoError::TodoNotFound)),
        Some(k) => k,
    };
    let ghost before = list@;
    let mut todo = list.todos.remove(k);
    todo.completed = completed;
    list.todos.insert(k, todo);
    assert(list@.todos =~= before.todos.update(
        k as int,
        TodoItemModel { completed, ..before.todos[k as int] },
    ));
    save_list(accounts, &list)
}

fn process_delete_todo(program_id: &Address, accounts: &mut Vec<AccountView>, id: u32) -> (r: Result<
    (),
    ProgramError,
>)
    ensures
        outcome(
            r,
            models(old(accounts)@),
            models(final(accounts)@),
            delete_todo_spec(program_id@, models(old(accounts)@), id),
        ),
{
    let mut list = load_owned_list(program_id, accounts)?;
    let k = match find_todo(&list.todos, id) {
        None => return Err(ProgramError::from(TodoError::TodoNotFound)),
        Some(k) => k,
    };
    let ghost before = list@;
    list.todos.remove(k);
    assert(list@.todos =~= before.todos.remove(k as int));
    save_list(accounts, &list)
}

/// The program's entry: decodes the instruction (any decoding failure is
/// `InvalidInstructionData`) and runs it on the accounts.
pub fn process_instruction(
    program_id: &Address,
    accounts: &mut Vec<AccountView>,
    instruction_data: &[u8],
) -> (r: Result<(), ProgramError>)
    ensures
        outcome(
            r,
            models(old(accounts)@),
            models(final(accounts)@),
            todo_program(program_id@, models(old(accounts)@), instruction_data@),
        ),
{
    let instruction = match TodoInstruction::try_from_slice(instruction_data) {
        Ok(ix) => ix,
        Err(_) => return Err(ProgramError::InvalidInstructionData),
    };
    match instruction {
        TodoInstruction::Initialize => process_initialize(program_id, accounts),
        TodoInstruction::CreateTodo { title, description } => {
            process_create_todo(program_id, accounts, title, description)
        },
        TodoInstruction::UpdateTodo { id, completed } => {
            process_update_todo(program_id, accounts, id, completed)
        },
        TodoInstruction::DeleteTodo { id } => process_delete_todo(program_id, accounts, id),
    }
}

// ----- laws ------------------------------------------------------------------

/// Writing a list into account 1 keeps the account checks passing and the
/// list reads back from the account.
proof fn lemma_store_list_reads_back(
    program_id: Seq<u8>,
    accounts: Seq<AccountModel>,
    l: TodoListModel,
)
    requires
        account_checks(program_id, accounts) is None,
        list_encodable(l),
        l.owner.len() == 32,
        store_list(accounts, l) is Ok,
    ensures
        ({
            let after = store_list(accounts, l)->Ok_0;
            &&& after.len() == accounts.len()
            &&& after[0] == accounts[0]
            &&& account_checks(program_id, after) is None
            &&& parse_list(after[1].data, 0) == Ok::<(TodoListModel, int), WireError>(
                (l, list_bytes(l).len() as int),
            )
            &&& owned_list(program_id, after) == if !l.is_initialized {
                Err(todo_err(TodoError::UninitializedAccount))
            } else if l.owner != accounts[0].key {
                Err(todo_err(TodoError::Unauthorized))
            } else {
                Ok::<TodoListModel, ProgramError>(l)
            }
        }),
{
    let d = accounts[1].data;
    lemma_list_roundtrip(l, d.skip(list_bytes(l).len() as int));
}

/// After Initialize the signer owns an empty list with next id 0, and a
/// second Initialize fails with `AlreadyInitialized`.
pub proof fn lemma_initialize_once(program_id: Seq<u8>, accounts: Seq<AccountModel>)
    requires
        accounts.len() >= 1 ==> accounts[0].key.len() == 32,
        initialize_spec(program_id, accounts) is Ok,
    ensures
        ({
            let after = initialize_spec(program_id, accounts)->Ok_0;
            &&& owned_list(program_id, after) == Ok::<TodoListModel, ProgramError>(
                TodoListModel {
                    is_initialized: true,
                    owner: accounts[0].key,
                    todos: Seq::empty(),
                    next_id: 0,
                },
            )
            &&& initialize_spec(program_id, after) == Err::<Seq<AccountModel>, ProgramError>(
                todo_err(TodoError::AlreadyInitialized),
            )
        }),
{
    let l = TodoListModel {
        is_initialized: true,
        owner: accounts[0].key,
        todos: Seq::empty(),
        next_id: 0,
    };
    lemma_store_list_reads_back(program_id, accounts, l);
}

/// After CreateTodo the owner's list reads back with one more todo at its
/// end: numbered with the old next id, not completed, with the title and
/// description given; the list never holds more than `MAX_TODOS`.
pub proof fn lemma_create_then_read(
    program_id: Seq<u8>,
    accounts: Seq<AccountModel>,
    title: Seq<char>,
    description: Seq<char>,
)
    requires
        create_todo_spec(program_id, accounts, title, description) is Ok,
    ensures
        ({
            let l = owned_list(program_id, accounts)->Ok_0;
            let after = create_todo_spec(program_id, accounts, title, description)->Ok_0;
            let m = add_todo(l, title, description);
            &&& owned_list(program_id, after) == Ok::<TodoListModel, ProgramError>(m)
            &&& m.is_initialized && m.owner == l.owner
            &&& l.next_id < u32::MAX ==> m.next_id == l.next_id + 1
            &&& m.todos.len() == l.todos.len() + 1 <= MAX_TODOS
            &&& m.todos.last() == TodoItemModel {
                id: l.next_id,
                title,
                description,
                completed: false,
            }
            &&& forall|i: int| 0 <= i < l.todos.len() ==> m.todos[i] == l.todos[i]
        }),
{
    let l = owned_list(program_id, accounts)->Ok_0;
    lemma_parse_list_encodable(accounts[1].data, 0);
    let m = add_todo(l, title, description);
    let t = m.todos.last();
    assert(item_encodable(t));
    assert forall|i: int| 0 <= i < m.todos.len() implies item_encodable(#[trigger] m.todos[i]) by {
        if i < l.todos.len() {
            assert(m.todos[i] == l.todos[i]);
        }
    }
    lemma_store_list_reads_back(program_id, accounts, m);
}

/// After UpdateTodo the first todo with the id reads back with the new flag
/// and its id, title and description as they were; every other todo is as it
/// was.
pub proof fn lemma_update_then_read(
    program_id: Seq<u8>,
    accounts: Seq<AccountModel>,
    id: u32,
    completed: bool,
)
    requires
        update_todo_spec(program_id, accounts, id, completed) is Ok,
    ensures
        ({
            let l = owned_list(program_id, accounts)->Ok_0;
            let k = todo_position(l.todos, id)->Some_0;
            let after = update_todo_spec(program_id, accounts, id, completed)->Ok_0;
            let m = owned_list(program_id, after)->Ok_0;
            &&& owned_list(program_id, after) is Ok
            &&& m.todos.len() == l.todos.len()
            &&& m.todos[k].id == id
            &&& m.todos[k].id == l.todos[k].id
            &&& m.todos[k].title == l.todos[k].title
            &&& m.todos[k].description == l.todos[k].description
            &&& m.todos[k].completed == completed
            &&& m.next_id == l.next_id
            &&& forall|i: int| 0 <= i < l.todos.len() && i != k ==> m.todos[i] == l.todos[i]
        }),
{
    let l = owned_list(program_id, accounts)->Ok_0;
    lemma_parse_list_encodable(accounts[1].data, 0);
    let k = todo_position(l.todos, id)->Some_0;
    let m = TodoListModel {
        todos: l.todos.update(k, TodoItemModel { completed, ..l.todos[k] }),
        ..l
    };
    assert forall|i: int| 0 <= i < m.todos.len() implies item_encodable(#[trigger] m.todos[i]) by {
        assert(item_encodable(l.todos[i]));
    }
    lemma_store_list_reads_back(program_id, accounts, m);
}

/// After DeleteTodo the list reads back without the first todo with the id,
/// the others in their order.
pub proof fn lemma_delete_then_read(program_id: Seq<u8>, accounts: Seq<AccountModel>, id: u32)
    requires
        delete_todo_spec(program_id, accounts, id) is Ok,
    ensures
        ({
            let l = owned_list(program_id, accounts)->Ok_0;
            let k = todo_position(l.todos, id)->Some_0;
            let after = delete_todo_spec(program_id, accounts, id)->Ok_0;
            &&& owned_list(program_id, after) == Ok::<TodoListModel, ProgramError>(
                TodoListModel { todos: l.todos.remove(k), ..l },
            )
            &&& l.todos[k].id == id
        }),
{
    let l = owned_list(program_id, accounts)->Ok_0;
    lemma_parse_list_encodable(accounts[1].data, 0);
    let k = todo_position(l.todos, id)->Some_0;
    let m = TodoListModel { todos: l.todos.remove(k), ..l };
    assert forall|i: int| 0 <= i < m.todos.len() implies item_encodable(#[trigger] m.todos[i]) by {
        if i < k {
            assert(m.todos[i] == l.todos[i]);
        } else {
            assert(m.todos[i] == l.todos[i + 1]);
        }
    }
    lemma_store_list_reads_back(program_id, accounts, m);
}

/// The todos' ids increase strictly along the list (so no two are the same)
/// and are all below the next id.
pub open spec fn ids_fresh(l: TodoListModel) -> bool {
    &&& forall|i: int| 0 <= i < l.todos.len() ==> #[trigger] l.todos[i].id < l.next_id
    &&& forall|i: int, j: int|
        0 <= i < j < l.todos.len() ==> #[trigger] l.todos[i].id < #[trigger] l.todos[j].id
}

/// Increasing ids below the next id are kept by adding a todo (while the next
/// id has not reached `u32::MAX`, past which it wraps), by updating one, and
/// by deleting one; with such ids, deleting removes every todo with the id.
pub proof fn lemma_ids_stay_fresh(l: TodoListModel, title: Seq<char>, description: Seq<char>, id: u32, completed: bool)
    requires
        ids_fresh(l),
    ensures
        l.next_id < u32::MAX ==> ids_fresh(add_todo(l, title, description)),
        todo_position(l.todos, id) matches Some(k) ==> ids_fresh(
            TodoListModel { todos: l.todos.update(k, TodoItemModel { completed, ..l.todos[k] }), ..l },
        ),
        todo_position(l.todos, id) matches Some(k) ==> ids_fresh(
            TodoListModel { todos: l.todos.remove(k), ..l },
        ),
        todo_position(l.todos, id) matches Some(k) ==> forall|i: int|
            0 <= i < l.todos.remove(k).len() ==> #[trigger] l.todos.remove(k)[i].id != id,
{
    let a = add_todo(l, title, description);
    if l.next_id < u32::MAX {
        assert forall|i: int| 0 <= i < a.todos.len() implies #[trigger] a.todos[i].id < a.next_id by {
            if i < l.todos.len() {
                assert(a.todos[i] == l.todos[i]);
            }
        }
        assert forall|i: int, j: int|
            0 <= i < j < a.todos.len() implies #[trigger] a.todos[i].id < #[trigger] a.todos[j].id by {
            assert(a.todos[i] == l.todos[i]);
            if j < l.todos.len() {
                assert(a.todos[j] == l.todos[j]);
            }
        }
    }
    if todo_position(l.todos, id) is Some {
        let k = todo_position(l.todos, id)->Some_0;
        assert(first_with_id(l.todos, id, k));
        let u = l.todos.update(k, TodoItemModel { completed, ..l.todos[k] });
        assert forall|i: int| 0 <= i < u.len() implies #[trigger] u[i].id == l.todos[i].id by {}
        let r = l.todos.remove(k);
        assert forall|i: int| 0 <= i < r.len() implies #[trigger] r[i] == if i < k {
            l.todos[i]
        } else {
            l.todos[i + 1]
        } by {}
        assert forall|i: int, j: int| 0 <= i < j < r.len() implies #[trigger] r[i].id < #[trigger] r[j].id by {
            let ii = if i < k { i } else { i + 1 };
            let jj = if j < k { j } else { j + 1 };
            assert(r[i] == l.todos[ii]);
            assert(r[j] == l.todos[jj]);
            assert(l.todos[ii].id < l.todos[jj].id);
        }
        assert forall|i: int| 0 <= i < r.len() implies #[trigger] r[i].id != id by {
            let ii = if i < k { i } else { i + 1 };
            assert(r[i] == l.todos[ii]);
            if ii < k {
            } else {
                assert(l.todos[k].id < l.todos[ii].id);
            }
        }
        assert forall|i: int| 0 <= i < r.len() implies #[trigger] r[i].id < l.next_id by {
            let ii = if i < k { i } else { i + 1 };
            assert(r[i] == l.todos[ii]);
        }
    }
}

/// The instructions run one after another on the same accounts, stopping at
/// the first that fails.
pub open spec fn todo_run(
    program_id: Seq<u8>,
    accounts: Seq<AccountModel>,
    ixs: Seq<TodoInstructionModel>,
) -> Result<Seq<AccountModel>, ProgramError>
    decreases ixs.len(),
{
    if ixs.len() == 0 {
        Ok(accounts)
    } else {
        match todo_run(program_id, accounts, ixs.drop_last()) {
            Err(e) => Err(e),
            Ok(a) => todo_step(program_id, a, ixs.last()),
        }
    }
}

/// How many of the instructions are CreateTodo.
pub open spec fn create_count(ixs: Seq<TodoInstructionModel>) -> nat
    decreases ixs.len(),
{
    if ixs.len() == 0 {
        0
    } else {
        create_count(ixs.drop_last()) + if ixs.last() is CreateTodo {
            1nat
        } else {
            0nat
        }
    }
}

/// A list built from Initialize by any run of successful instructions (with
/// fewer than `u32::MAX` creations) holds at most `MAX_TODOS` todos whose ids
/// increase along the list and are below the next id, and the next id is the
/// number of todos ever created: deleting never rolls it back, so an id is
/// never given twice.
pub proof fn lemma_run_keeps_ids_fresh(
    program_id: Seq<u8>,
    accounts: Seq<AccountModel>,
    ixs: Seq<TodoInstructionModel>,
)
    requires
        ixs.len() >= 1,
        ixs[0] is Initialize,
        accounts.len() >= 1 ==> accounts[0].key.len() == 32,
        create_count(ixs) < u32::MAX,
        todo_run(program_id, accounts, ixs) is Ok,
    ensures
        ({
            let after = todo_run(program_id, accounts, ixs)->Ok_0;
            let l = owned_list(program_id, after)->Ok_0;
            &&& owned_list(program_id, after) is Ok
            &&& l.todos.len() <= MAX_TODOS
            &&& ids_fresh(l)
            &&& l.next_id == create_count(ixs)
        }),
    decreases ixs.len(),
{
    let pre = ixs.drop_last();
    if ixs.len() == 1 {
        assert(todo_run(program_id, accounts, pre) == Ok::<Seq<AccountModel>, ProgramError>(
            accounts,
        ));
        assert(ixs.last() == ixs[0]);
        assert(create_count(pre) == 0);
        assert(create_count(ixs) == 0);
        lemma_initialize_once(program_id, accounts);
    } else {
        assert(pre[0] == ixs[0]);
        assert(todo_run(program_id, accounts, pre) is Ok);
        lemma_run_keeps_ids_fresh(program_id, accounts, pre);
        let b = todo_run(program_id, accounts, pre)->Ok_0;
        let l = owned_list(program_id, b)->Ok_0;
        match ixs.last() {
            TodoInstructionModel::Initialize => {
                assert(initialize_spec(program_id, b) is Err);
            },
            TodoInstructionModel::CreateTodo { title, description } => {
                lemma_create_then_read(program_id, b, title, description);
                lemma_ids_stay_fresh(l, title, description, 0, false);
                assert(create_count(ixs) == create_count(pre) + 1);
            },
            TodoInstructionModel::UpdateTodo { id, completed } => {
                lemma_update_then_read(program_id, b, id, completed);
                assert(create_count(ixs) == create_count(pre));
                let k = todo_position(l.todos, id)->Some_0;
                assert(first_with_id(l.todos, id, k));
                let after = todo_run(program_id, accounts, ixs)->Ok_0;
                let m = owned_list(program_id, after)->Ok_0;
                assert forall|i: int| 0 <= i < m.todos.len() implies #[trigger] m.todos[i].id
                    == l.todos[i].id by {
                    if i != k {
                        assert(m.todos[i] == l.todos[i]);
                    }
                }
                assert forall|i: int, j: int|
                    0 <= i < j < m.todos.len() implies #[trigger] m.todos[i].id
                    < #[trigger] m.todos[j].id by {
                    assert(m.todos[i].id == l.todos[i].id);
                    assert(m.todos[j].id == l.todos[j].id);
                }
                assert forall|i: int| 0 <= i < m.todos.len() implies #[trigger] m.todos[i].id
                    < m.next_id by {
                    assert(m.todos[i].id == l.todos[i].id);
                }
            },
            TodoInstructionModel::DeleteTodo { id } => {
                lemma_delete_then_read(program_id, b, id);
                assert(create_count(ixs) == create_count(pre));
                lemma_ids_stay_fresh(l, Seq::empty(), Seq::empty(), id, false);
            },
        }
    }
}

/// Only the list's owner can change it: when the signer is not the owner of
/// an initialized list, CreateTodo, UpdateTodo and DeleteTodo all fail with
/// `Unauthorized`.
pub proof fn lemma_only_owner_changes(
    program_id: Seq<u8>,
    accounts: Seq<AccountModel>,
    title: Seq<char>,
    description: Seq<char>,
    id: u32,
    completed: bool,
)
    requires
        account_checks(program_id, accounts) is None,
        parse_list(accounts[1].data, 0) is Ok,
        parse_list(accounts[1].data, 0)->Ok_0.0.is_initialized,
        parse_list(accounts[1].data, 0)->Ok_0.0.owner != accounts[0].key,
    ensures
        create_todo_spec(program_id, accounts, title, description) == Err::<
            Seq<AccountModel>,
            ProgramError,
        >(todo_err(TodoError::Unauthorized)),
        update_todo_spec(program_id, accounts, id, completed) == Err::<
            Seq<AccountModel>,
            ProgramError,
        >(todo_err(TodoError::Unauthorized)),
        delete_todo_spec(program_id, accounts, id) == Err::<Seq<AccountModel>, ProgramError>(
            todo_err(TodoError::Unauthorized),
        ),
{
}

/// The program decodes the encoding of every instruction back to that
/// instruction.
pub proof fn lemma_todo_instruction_dispatch(
    program_id: Seq<u8>,
    accounts: Seq<AccountModel>,
    ix: TodoInstructionModel,
)
    requires
        todo_instruction_encodable(ix),
    ensures
        todo_program(program_id, accounts, todo_instruction_bytes(ix)) == todo_step(
            program_id,
            accounts,
            ix,
        ),
{
    lemma_todo_instruction_roundtrip(ix);
}

} // verus!
