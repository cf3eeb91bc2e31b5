//! The todo program's instructions.
use vstd::prelude::*;

use crate::wire::{bool_bytes, exactly, lemma_parse_bool_at, lemma_parse_string_at, lemma_parse_u32_at, lemma_parse_u8_at, parse_bool, parse_string, parse_u32, parse_u8, read_bool, read_string, read_u32, read_u8, string_bytes, string_encodable, u32_bytes, write_bool, write_string, write_u32, WireError};

verus! {

/// The todo program's instructions. Encoding: `[0]` for Initialize;
/// `[1, title, description]` (each a length-prefixed string) for CreateTodo;
/// `[2, id (4 bytes), completed (1 byte)]` for UpdateTodo; `[3, id (4 bytes)]`
/// for DeleteTodo.
#[derive(Debug, Clone)]
pub enum TodoInstruction {
    /// Makes the signer the owner of an empty list.
    /// Accounts: 0. `[writable, signer]` the owner; 1. `[writable]` the list.
    Initialize,
    /// Adds a todo (title up to 50 bytes, description up to 200).
    /// Accounts: 0. `[signer]` the owner; 1. `[writable]` the list.
    CreateTodo { title: String, description: String },
    /// Marks the todo with this id completed or not.
    /// Accounts: 0. `[signer]` the owner; 1. `[writable]` the list.
    UpdateTodo { id: u32, completed: bool },
    /// Removes the todo with this id.
    /// Accounts: 0. `[signer]` the owner; 1. `[writable]` the list.
    DeleteTodo { id: u32 },
}

/// The value of a [`TodoInstruction`].
pub enum TodoInstructionModel {
    Initialize,
    CreateTodo { title: Seq<char>, description: Seq<char> },
    UpdateTodo { id: u32, completed: bool },
    DeleteTodo { id: u32 },
}

impl View for TodoInstruction {
    type V = TodoInstructionModel;

    open spec fn view(&self) -> TodoInstructionModel {
        match self {
            TodoInstruction::Initialize => TodoInstructionModel::Initialize,
            TodoInstruction::CreateTodo { title, description } => {
                TodoInstructionModel::CreateTodo { title: title@, description: description@ }
            },
            TodoInstruction::UpdateTodo { id, completed } => TodoInstructionModel::UpdateTodo {
                id: *id,
                completed: *completed,
            },
            TodoInstruction::DeleteTodo { id } => TodoInstructionModel::DeleteTodo { id: *id },
        }
    }
}

pub open spec fn todo_instruction_encodable(ix: TodoInstructionModel) -> bool {
    match ix {
        TodoInstructionModel::CreateTodo { title, description } => string_encodable(title)
            && string_encodable(description),
        _ => true,
    }
}

pub open spec fn todo_instruction_bytes(ix: TodoInstructionModel) -> Seq<u8> {
    match ix {
        TodoInstructionModel::Initialize => seq![0u8],
        TodoInstructionModel::CreateTodo { title, description } => seq![1u8] + string_bytes(title)
            + string_bytes(description),
        TodoInstructionModel::UpdateTodo { id, completed } => seq![2u8] + u32_bytes(id)
            + bool_bytes(completed),
        TodoInstructionModel::DeleteTodo { id } => seq![3u8] + u32_bytes(id),
    }
}

pub open spec fn parse_todo_instruction(b: Seq<u8>, p: int) -> Result<
    (TodoInstructionModel, int),
    WireError,
> {
    match parse_u8(b, p) {
        Err(e) => Err(e),
        Ok((tag, p1)) => if tag == 0 {
            Ok((TodoInstructionModel::Initialize, p1))
        } else if tag == 1 {
            match parse_string(b, p1) {
                Err(e) => Err(e),
                Ok((title, p2)) => match parse_string(b, p2) {
                    Err(e) => Err(e),
                    Ok((description, p3)) => Ok(
                        (TodoInstructionModel::CreateTodo { title, description }, p3),
                    ),
                },
            }
        } else if tag == 2 {
            match parse_u32(b, p1) {
                Err(e) => Err(e),
                Ok((id, p2)) => match parse_bool(b, p2) {
                    Err(e) => Err(e),
                    Ok((completed, p3)) => Ok(
                        (TodoInstructionModel::UpdateTodo { id, completed }, p3),
                    ),
                },
            }
        } else if tag == 3 {
            match parse_u32(b, p1) {
                Err(e) => Err(e),
                Ok((id, p2)) => Ok((TodoInstructionModel::DeleteTodo { id }, p2)),
            }
        } else {
            Err(WireError::InvalidVariant(tag))
        },
    }
}

impl TodoInstruction {
    /// Reads an instruction at `pos`.
    pub fn deserialize(buf: &[u8], pos: usize) -> (r: Result<(TodoInstruction, usize), WireError>)
        ensures
            match r {
                Ok((ix, q)) => parse_todo_instruction(buf@, pos as int) == Ok::<
                    (TodoInstructionModel, int),
                    WireError,
                >((ix@, q as int)),
                Err(e) => parse_todo_instruction(buf@, pos as int) == Err::<
                    (TodoInstructionModel, int),
                    WireError,
                >(e),
            },
    {
        let (tag, p1) = read_u8(buf, pos)?;
        if tag == 0 {
            Ok((TodoInstruction::Initialize, p1))
        } else if tag == 1 {
            let (title, p2) = read_string(buf, p1)?;
            let (description, p3) = read_string(buf, p2)?;
            Ok((TodoInstruction::CreateTodo { title, description }, p3))
        } else if tag == 2 {
            let (id, p2) = read_u32(buf, p1)?;
            let (completed, p3) = read_bool(buf, p2)?;
            Ok((TodoInstruction::UpdateTodo { id, completed }, p3))
        } else if tag == 3 {
            let (id, p2) = read_u32(buf, p1)?;
            Ok((TodoInstruction::DeleteTodo { id }, p2))
        } else {
            Err(WireError::InvalidVariant(tag))
        }
    }

    /// Reads an instruction that fills the whole buffer.
    pub fn try_from_slice(buf: &[u8]) -> (r: Result<TodoInstruction, WireError>)
        ensures
            match exactly(parse_todo_instruction(buf@, 0), buf@.len() as int) {
                Ok(m) => r matches Ok(ix) && ix@ == m,
                Err(e) => r matches Err(x) && x == e,
            },
    {
        let (ix, end) = TodoInstruction::deserialize(buf, 0)?;
        if end == buf.len() {
            Ok(ix)
        } else {
            Err(WireError::NotAllBytesRead)
        }
    }

    /// The encoding of the instruction, or `LengthOverflow` when a string is
    /// too long for its length prefix.
    pub fn try_to_vec(&self) -> (r: Result<Vec<u8>, WireError>)
        ensures
            r is Ok <==> todo_instruction_encodable(self@),
            r matches Ok(v) ==> v@ == todo_instruction_bytes(self@),
            r is Err ==> r == Err::<Vec<u8>, WireError>(WireError::LengthOverflow),
    {
        let mut out: Vec<u8> = Vec::new();
        match self {
            TodoInstruction::Initialize => {
                out.push(0u8);
            },
            TodoInstruction::CreateTodo { title, description } => {
                out.push(1u8);
                write_string(&mut out, title)?;
                write_string(&mut out, description)?;
            },
            TodoInstruction::UpdateTodo { id, completed } => {
                out.push(2u8);
                write_u32(&mut out, *id);
                write_bool(&mut out, *completed);
            },
            TodoInstruction::DeleteTodo { id } => {
                out.push(3u8);
                write_u32(&mut out, *id);
            },
        }
        assert(out@ =~= todo_instruction_bytes(self@));
        Ok(out)
    }
}

/// Every encodable instruction reads back from its encoding.
pub proof fn lemma_todo_instruction_roundtrip(ix: TodoInstructionModel)
    requires
        todo_instruction_encodable(ix),
    ensures
        exactly(
            parse_todo_instruction(todo_instruction_bytes(ix), 0),
            todo_instruction_bytes(ix).len() as int,
        ) == Ok::<TodoInstructionModel, WireError>(ix),
{
    let b = todo_instruction_bytes(ix);
    lemma_parse_u8_at(b, 0, b[0]);
    match ix {
        TodoInstructionModel::Initialize => {},
        TodoInstructionModel::CreateTodo { title, description } => {
            let t = string_bytes(title);
            let d = string_bytes(description);
            let tl = t.len() as int;
            let dl = d.len() as int;
            assert(b.subrange(1, 1 + tl) =~= t);
            lemma_parse_string_at(b, 1, title);
            assert(b.subrange(1 + tl, 1 + tl + dl) =~= d);
            lemma_parse_string_at(b, 1 + tl, description);
        },
        TodoInstructionModel::UpdateTodo { id, completed } => {
            assert(b.subrange(1, 5) =~= u32_bytes(id));
            lemma_parse_u32_at(b, 1, id);
            assert(b.subrange(5, 6) =~= bool_bytes(completed));
            lemma_parse_bool_at(b, 5, completed);
        },
        TodoInstructionModel::DeleteTodo { id } => {
            assert(b.subrange(1, 5) =~= u32_bytes(id));
            lemma_parse_u32_at(b, 1, id);
        },
    }
}

} // verus!
