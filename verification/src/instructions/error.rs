//! The todo program's error codes.
use vstd::prelude::*;

use crate::runtime::ProgramError;

verus! {

/// The todo program's errors, returned as custom program errors whose code is
/// the variant's position (0 to 7).
#[derive(Debug, Clone, Copy, PartialEq, Eq, Structural)]
pub enum TodoError {
    InvalidInstruction,
    UninitializedAccount,
    AlreadyInitialized,
    Unauthorized,
    TodoNotFound,
    TodoListFull,
    TitleTooLong,
    DescriptionTooLong,
}

pub open spec fn todo_error_code(e: TodoError) -> u32 {
    match e {
        TodoError::InvalidInstruction => 0,
        TodoError::UninitializedAccount => 1,
        TodoError::AlreadyInitialized => 2,
        TodoError::Unauthorized => 3,
        TodoError::TodoNotFound => 4,
        TodoError::TodoListFull => 5,
        TodoError::TitleTooLong => 6,
        TodoError::DescriptionTooLong => 7,
    }
}

impl vstd::std_specs::convert::FromSpecImpl<TodoError> for ProgramError {
    open spec fn obeys_from_spec() -> bool {
        true
    }

    open spec fn from_spec(e: TodoError) -> ProgramError {
        ProgramError::Custom(todo_error_code(e))
    }
}

impl From<TodoError> for ProgramError {
    fn from(e: TodoError) -> (r: ProgramError) {
        let code: u32 = match e {
            TodoError::InvalidInstruction => 0,
            TodoError::UninitializedAccount => 1,
            TodoError::AlreadyInitialized => 2,
            TodoError::Unauthorized => 3,
            TodoError::TodoNotFound => 4,
            TodoError::TodoListFull => 5,
            TodoError::TitleTooLong => 6,
            TodoError::DescriptionTooLong => 7,
        };
        ProgramError::Custom(code)
    }
}

/// The program error a todo error is returned as.
pub open spec fn todo_err(e: TodoError) -> ProgramError {
    ProgramError::Custom(todo_error_code(e))
}

} // verus!
