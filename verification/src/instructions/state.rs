//! The todo list stored in a list account.
use vstd::prelude::*;


use crate::address::Address;
use crate::wire::{
    agrees, bool_bytes, has, lemma_parse_bool_at, lemma_parse_bytes_at, lemma_parse_string_at,
    lemma_parse_string_encodable,
    lemma_parse_u32_at, lemma_u32_value, parse_bool, parse_bytes, parse_string, parse_u32,
    read_address, read_bool, read_string, read_u32, string_bytes, string_encodable, u32_bytes,
    write_address, write_bool, write_string, write_u32, WireError,
};

verus! {

/// The most todos a list holds.
pub const MAX_TODOS: usize = 10;

/// The longest title, in bytes.
pub const MAX_TITLE_LEN: usize = 50;

/// The longest description, in bytes.
pub const MAX_DESCRIPTION_LEN: usize = 200;

/// One todo.
#[derive(Debug, Clone)]
pub struct TodoItem {
    pub id: u32,
    pub title: String,
    pub description: String,
    pub completed: bool,
}

/// The value of a [`TodoItem`].
pub struct TodoItemModel {
    pub id: u32,
    pub title: Seq<char>,
    pub description: Seq<char>,
    pub completed: bool,
}

impl View for TodoItem {
    type V = TodoItemModel;

    open spec fn view(&self) -> TodoItemModel {
        TodoItemModel {
            id: self.id,
            title: self.title@,
            description: self.description@,
            completed: self.completed,
        }
    }
}

/// A todo list: its owner, its todos, and the id the next todo gets.
#[derive(Debug)]
pub struct TodoList {
    pub is_initialized: bool,
    pub owner: Address,
    pub todos: Vec<TodoItem>,
    pub next_id: u32,
}

/// The value of a [`TodoList`].
pub struct TodoListModel {
    pub is_initialized: bool,
    pub owner: Seq<u8>,
    pub todos: Seq<TodoItemModel>,
    pub next_id: u32,
}

pub open spec fn items_model(todos: Seq<TodoItem>) -> Seq<TodoItemModel> {
    todos.map_values(|t: TodoItem| t@)
}

impl View for TodoList {
    type V = TodoListModel;

    open spec fn view(&self) -> TodoListModel {
        TodoListModel {
            is_initialized: self.is_initialized,
            owner: self.owner@,
            todos: items_model(self.todos@),
            next_id: self.next_id,
        }
    }
}

// ----- encoding --------------------------------------------------------------

pub open spec fn item_encodable(t: TodoItemModel) -> bool {
    string_encodable(t.title) && string_encodable(t.description)
}

pub open spec fn item_bytes(t: TodoItemModel) -> Seq<u8> {
    u32_bytes(t.id) + string_bytes(t.title) + string_bytes(t.description) + bool_bytes(t.completed)
}

/// The todos encoded one after another (without the count).
pub open spec fn items_bytes(s: Seq<TodoItemModel>) -> Seq<u8>
    decreases s.len(),
{
    if s.len() == 0 {
        Seq::empty()
    } else {
        items_bytes(s.drop_last()) + item_bytes(s.last())
    }
}

/// The list's todos and strings fit the format.
pub open spec fn list_encodable(l: TodoListModel) -> bool {
    &&& l.todos.len() <= u32::MAX
    &&& forall|i: int| 0 <= i < l.todos.len() ==> item_encodable(#[trigger] l.todos[i])
}

pub open spec fn list_bytes(l: TodoListModel) -> Seq<u8> {
    bool_bytes(l.is_initialized) + l.owner + u32_bytes(l.todos.len() as u32) + items_bytes(l.todos)
        + u32_bytes(l.next_id)
}

/// The list's encoding, or `LengthOverflow` when it does not fit the format.
pub open spec fn list_encoding(l: TodoListModel) -> Result<Seq<u8>, WireError> {
    if list_encodable(l) {
        Ok(list_bytes(l))
    } else {
        Err(WireError::LengthOverflow)
    }
}

pub open spec fn parse_item(b: Seq<u8>, p: int) -> Result<(TodoItemModel, int), WireError> {
    match parse_u32(b, p) {
        Err(e) => Err(e),
        Ok((id, p1)) => match parse_string(b, p1) {
            Err(e) => Err(e),
            Ok((title, p2)) => match parse_string(b, p2) {
                Err(e) => Err(e),
                Ok((description, p3)) => match parse_bool(b, p3) {
                    Err(e) => Err(e),
                    Ok((completed, p4)) => Ok(
                        (TodoItemModel { id, title, description, completed }, p4),
                    ),
                },
            },
        },
    }
}

/// `n` todos one after another from `p`.
pub open spec fn parse_items(b: Seq<u8>, p: int, n: nat) -> Result<
    (Seq<TodoItemModel>, int),
    WireError,
>
    decreases n,
{
    if n == 0 {
        Ok((Seq::empty(), p))
    } else {
        match parse_items(b, p, (n - 1) as nat) {
            Err(e) => Err(e),
            Ok((s, q)) => match parse_item(b, q) {
                Err(e) => Err(e),
                Ok((t, r)) => Ok((s.push(t), r)),
            },
        }
    }
}

pub open spec fn parse_list(b: Seq<u8>, p: int) -> Result<(TodoListModel, int), WireError> {
    match parse_bool(b, p) {
        Err(e) => Err(e),
        Ok((is_initialized, p1)) => match parse_bytes(b, p1, 32) {
            Err(e) => Err(e),
            Ok((owner, p2)) => match parse_u32(b, p2) {
                Err(e) => Err(e),
                Ok((n, p3)) => match parse_items(b, p3, n as nat) {
                    Err(e) => Err(e),
                    Ok((todos, p4)) => match parse_u32(b, p4) {
                        Err(e) => Err(e),
                        Ok((next_id, p5)) => Ok(
                            (TodoListModel { is_initialized, owner, todos, next_id }, p5),
                        ),
                    },
                },
            },
        },
    }
}

// ----- codec -----------------------------------------------------------------

impl TodoItem {
    /// Reads a todo at `pos`.
    pub fn deserialize(buf: &[u8], pos: usize) -> (r: Result<(TodoItem, usize), WireError>)
        ensures
            agrees(r, parse_item(buf@, pos as int)),
    {
        let (id, p1) = read_u32(buf, pos)?;
        let (title, p2) = read_string(buf, p1)?;
        let (description, p3) = read_string(buf, p2)?;
        let (completed, p4) = read_bool(buf, p3)?;
        Ok((TodoItem { id, title, description, completed }, p4))
    }

    /// Appends the todo's encoding.
    pub fn serialize(&self, out: &mut Vec<u8>) -> (r: Result<(), WireError>)
        ensures
            r is Ok <==> item_encodable(self@),
            r is Ok ==> final(out)@ == old(out)@ + item_bytes(self@),
            r is Err ==> r == Err::<(), WireError>(WireError::LengthOverflow),
    {
        write_u32(out, self.id);
        write_string(out, &self.title)?;
        write_string(out, &self.description)?;
        write_bool(out, self.completed);
        assert(out@ =~= old(out)@ + item_bytes(self@));
        Ok(())
    }
}

impl TodoList {
    /// The size of an empty list's encoding: 1 + 32 + 4 + 4 bytes.
    pub fn space() -> (r: usize)
        ensures
            r == 41,
    {
        1 + 32 + 4 + 4
    }

    /// The size of a full list's encoding, with every title and description
    /// at its longest: 1 + 32 + 4 + 10 * (4 + 4 + 50 + 4 + 200 + 1) + 4 bytes.
    pub fn max_space() -> (r: usize)
        ensures
            r == 1 + 32 + 4 + MAX_TODOS * (4 + 4 + MAX_TITLE_LEN + 4 + MAX_DESCRIPTION_LEN + 1) + 4,
    {
        1 + 32 + 4 + MAX_TODOS * (4 + 4 + MAX_TITLE_LEN + 4 + MAX_DESCRIPTION_LEN + 1) + 4
    }

    /// An empty, uninitialized list owned by the zero key.
    pub fn empty() -> (r: TodoList)
        ensures
            r@ == empty_list(),
    {
        let r = TodoList {
            is_initialized: false,
            owner: Address::zeroed(),
            todos: Vec::new(),
            next_id: 0,
        };
        assert(r@.todos =~= Seq::<TodoItemModel>::empty());
        r
    }

    /// Reads a list at `pos` (bytes after it are left alone).
    pub fn deserialize(buf: &[u8], pos: usize) -> (r: Result<(TodoList, usize), WireError>)
        ensures
            agrees(r, parse_list(buf@, pos as int)),
    {
        let (is_initialized, p1) = read_bool(buf, pos)?;
        let (owner, p2) = read_address(buf, p1)?;
        let (n, p3) = read_u32(buf, p2)?;
        let mut todos: Vec<TodoItem> = Vec::new();
        let mut cur = p3;
        let mut i: u32 = 0;
        assert(items_model(todos@) =~= Seq::<TodoItemModel>::empty());
        while i < n
            invariant
                i <= n,
                parse_bool(buf@, pos as int) == Ok::<(bool, int), WireError>((is_initialized, p1 as int)),
                parse_bytes(buf@, p1 as int, 32) == Ok::<(Seq<u8>, int), WireError>((owner@, p2 as int)),
                parse_u32(buf@, p2 as int) == Ok::<(u32, int), WireError>((n, p3 as int)),
                parse_items(buf@, p3 as int, i as nat) == Ok::<(Seq<TodoItemModel>, int), WireError>(
                    (items_model(todos@), cur as int),
                ),
            decreases n - i,
        {
            match TodoItem::deserialize(buf, cur) {
                Err(e) => {
                    assert(parse_items(buf@, p3 as int, (i + 1) as nat) == Err::<
                        (Seq<TodoItemModel>, int),
                        WireError,
                    >(e));
                    proof {
                        lemma_parse_items_err_same(buf@, p3 as int, (i + 1) as nat, n as nat);
                    }
                    return Err(e);
                },
                Ok((t, q)) => {
                    let ghost prev = todos@;
                    todos.push(t);
                    cur = q;
                    assert(items_model(todos@) =~= items_model(prev).push(t@));
                },
            }
            i = i + 1;
        }
        let (next_id, p5) = read_u32(buf, cur)?;
        Ok((TodoList { is_initialized, owner, todos, next_id }, p5))
    }

    /// The list's encoding, or `LengthOverflow` when it does not fit.
    pub fn try_to_vec(&self) -> (r: Result<Vec<u8>, WireError>)
        ensures
            match list_encoding(self@) {
                Ok(b) => r matches Ok(v) && v@ == b,
                Err(e) => r matches Err(x) && x == e,
            },
    {
        let mut out: Vec<u8> = Vec::new();
        write_bool(&mut out, self.is_initialized);
        write_address(&mut out, &self.owner);
        let n = self.todos.len();
        if n > 0xffff_ffffusize {
            return Err(WireError::LengthOverflow);
        }
        write_u32(&mut out, n as u32);
        let ghost head = out@;
        let ghost items = items_model(self.todos@);
        let mut i: usize = 0;
        assert(items.take(0) =~= Seq::<TodoItemModel>::empty());
        while i < n
            invariant
                i <= n,
                n == self.todos@.len(),
                items == items_model(self.todos@),
                out@ == head + items_bytes(items.take(i as int)),
                forall|j: int| 0 <= j < i ==> item_encodable(#[trigger] items[j]),
            decreases n - i,
        {
            let r = self.todos[i].serialize(&mut out);
            assert(items[i as int] == self.todos@[i as int]@);
            if r.is_err() {
                return Err(WireError::LengthOverflow);
            }
            assert(items.take(i + 1).drop_last() =~= items.take(i as int));
            i = i + 1;
        }
        write_u32(&mut out, self.next_id);
        assert(items.take(n as int) =~= items);
        assert(out@ =~= list_bytes(self@));
        Ok(out)
    }
}

/// The list an Initialize finds when the account holds no readable list.
pub open spec fn empty_list() -> TodoListModel {
    TodoListModel {
        is_initialized: false,
        owner: crate::address::zero_key(),
        todos: Seq::empty(),
        next_id: 0,
    }
}

// ----- lemmas ----------------------------------------------------------------

/// Once reading some todos fails, reading more fails with the same error.
pub proof fn lemma_parse_items_err_same(b: Seq<u8>, p: int, m: nat, n: nat)
    requires
        m <= n,
        parse_items(b, p, m) is Err,
    ensures
        parse_items(b, p, n) == parse_items(b, p, m),
    decreases n - m,
{
    if m < n {
        lemma_parse_items_err_same(b, p, m, (n - 1) as nat);
    }
}

pub proof fn lemma_parse_item_at(b: Seq<u8>, p: int, t: TodoItemModel)
    requires
        item_encodable(t),
        has(b, p, item_bytes(t).len() as int),
        b.subrange(p, p + item_bytes(t).len()) == item_bytes(t),
    ensures
        parse_item(b, p) == Ok::<(TodoItemModel, int), WireError>((t, p + item_bytes(t).len())),
{
    let w = item_bytes(t);
    let tl = string_bytes(t.title).len() as int;
    let dl = string_bytes(t.description).len() as int;
    assert(w.len() == 4 + tl + dl + 1);
    assert(b.subrange(p, p + 4) =~= w.subrange(0, 4));
    assert(w.subrange(0, 4) =~= u32_bytes(t.id));
    lemma_parse_u32_at(b, p, t.id);
    assert(b.subrange(p + 4, p + 4 + tl) =~= w.subrange(4, 4 + tl));
    assert(w.subrange(4, 4 + tl) =~= string_bytes(t.title));
    lemma_parse_string_at(b, p + 4, t.title);
    assert(b.subrange(p + 4 + tl, p + 4 + tl + dl) =~= w.subrange(4 + tl, 4 + tl + dl));
    assert(w.subrange(4 + tl, 4 + tl + dl) =~= string_bytes(t.description));
    lemma_parse_string_at(b, p + 4 + tl, t.description);
    assert(b.subrange(p + 4 + tl + dl, p + 5 + tl + dl) =~= w.subrange(4 + tl + dl, 5 + tl + dl));
    assert(w.subrange(4 + tl + dl, 5 + tl + dl) =~= bool_bytes(t.completed));
    lemma_parse_bool_at(b, p + 4 + tl + dl, t.completed);
}

pub proof fn lemma_parse_items_at(b: Seq<u8>, p: int, s: Seq<TodoItemModel>)
    requires
        forall|i: int| 0 <= i < s.len() ==> item_encodable(#[trigger] s[i]),
        has(b, p, items_bytes(s).len() as int),
        b.subrange(p, p + items_bytes(s).len()) == items_bytes(s),
    ensures
        parse_items(b, p, s.len()) == Ok::<(Seq<TodoItemModel>, int), WireError>(
            (s, p + items_bytes(s).len()),
        ),
    decreases s.len(),
{
    if s.len() > 0 {
        let init = s.drop_last();
        let t = s.last();
        let w = items_bytes(s);
        let il = items_bytes(init).len() as int;
        let tl = item_bytes(t).len() as int;
        assert(w == items_bytes(init) + item_bytes(t));
        assert(b.subrange(p, p + il) =~= w.subrange(0, il));
        assert(w.subrange(0, il) =~= items_bytes(init));
        assert forall|i: int| 0 <= i < init.len() implies item_encodable(#[trigger] init[i]) by {
            assert(init[i] == s[i]);
        }
        lemma_parse_items_at(b, p, init);
        assert(b.subrange(p + il, p + il + tl) =~= w.subrange(il, il + tl));
        assert(w.subrange(il, il + tl) =~= item_bytes(t));
        assert(item_encodable(s[s.len() - 1]));
        lemma_parse_item_at(b, p + il, t);
        assert(init.push(t) =~= s);
    } else {
        assert(s =~= Seq::<TodoItemModel>::empty());
    }
}

/// An encodable list reads back from its encoding, whatever follows it.
#[verifier::rlimit(50)]
pub proof fn lemma_list_roundtrip(l: TodoListModel, rest: Seq<u8>)
    requires
        list_encodable(l),
        l.owner.len() == 32,
    ensures
        parse_list(list_bytes(l) + rest, 0) == Ok::<(TodoListModel, int), WireError>(
            (l, list_bytes(l).len() as int),
        ),
{
    let b = list_bytes(l) + rest;
    let il = items_bytes(l.todos).len() as int;
    lemma_u32_value(l.todos.len() as u32);
    lemma_u32_value(l.next_id);
    assert(b.subrange(0, 1) =~= bool_bytes(l.is_initialized));
    lemma_parse_bool_at(b, 0, l.is_initialized);
    assert(b.subrange(1, 33) =~= l.owner);
    lemma_parse_bytes_at(b, 1, l.owner);
    assert(b.subrange(33, 37) =~= u32_bytes(l.todos.len() as u32));
    lemma_parse_u32_at(b, 33, l.todos.len() as u32);
    assert(b.subrange(37, 37 + il) =~= items_bytes(l.todos));
    lemma_parse_items_at(b, 37, l.todos);
    assert((l.todos.len() as u32) as nat == l.todos.len());
    assert(b.subrange(37 + il, 41 + il) =~= u32_bytes(l.next_id));
    lemma_parse_u32_at(b, 37 + il, l.next_id);
}

/// Todos read from bytes fit the format again, and there are as many as the
/// count said.
pub proof fn lemma_parse_items_encodable(b: Seq<u8>, p: int, n: nat)
    requires
        parse_items(b, p, n) is Ok,
    ensures
        parse_items(b, p, n)->Ok_0.0.len() == n,
        forall|i: int|
            0 <= i < n ==> item_encodable(#[trigger] parse_items(b, p, n)->Ok_0.0[i]),
    decreases n,
{
    if n > 0 {
        lemma_parse_items_encodable(b, p, (n - 1) as nat);
        let (s, q) = parse_items(b, p, (n - 1) as nat)->Ok_0;
        let (id, p1) = parse_u32(b, q)->Ok_0;
        lemma_parse_string_encodable(b, p1);
        let (title, p2) = parse_string(b, p1)->Ok_0;
        lemma_parse_string_encodable(b, p2);
        let t = parse_item(b, q)->Ok_0.0;
        assert(item_encodable(t));
        let all = parse_items(b, p, n)->Ok_0.0;
        assert(all == s.push(t));
        assert forall|i: int| 0 <= i < n implies item_encodable(#[trigger] all[i]) by {
            if i < n - 1 {
                assert(all[i] == s[i]);
            }
        }
    }
}

/// A list read from bytes fits the format again and has a 32-byte owner.
pub proof fn lemma_parse_list_encodable(b: Seq<u8>, p: int)
    requires
        parse_list(b, p) is Ok,
    ensures
        list_encodable(parse_list(b, p)->Ok_0.0),
        parse_list(b, p)->Ok_0.0.owner.len() == 32,
{
    let (_, p1) = parse_bool(b, p)->Ok_0;
    let (_, p2) = parse_bytes(b, p1, 32)->Ok_0;
    let (n, p3) = parse_u32(b, p2)->Ok_0;
    lemma_parse_items_encodable(b, p3, n as nat);
}

} // verus!
