//! The transfer program's error codes.
use vstd::prelude::*;

use crate::runtime::ProgramError;

verus! {

/// The transfer program's errors, returned as custom program errors whose code
/// is the variant's position (0 to 2).
#[derive(Debug, Clone, Copy, PartialEq, Eq, Structural)]
pub enum TransferError {
    InvalidInstruction,
    UninitializedAccount,
    /// The amount is zero.
    InvalidAmount,
}

pub open spec fn transfer_error_code(e: TransferError) -> u32 {
    match e {
        TransferError::InvalidInstruction => 0,
        TransferError::UninitializedAccount => 1,
        TransferError::InvalidAmount => 2,
    }
}

impl vstd::std_specs::convert::FromSpecImpl<TransferError> for ProgramError {
    open spec fn obeys_from_spec() -> bool {
        true
    }

    open spec fn from_spec(e: TransferError) -> ProgramError {
        ProgramError::Custom(transfer_error_code(e))
    }
}

impl From<TransferError> for ProgramError {
    fn from(e: TransferError) -> (r: ProgramError) {
        let code: u32 = match e {
            TransferError::InvalidInstruction => 0,
            TransferError::UninitializedAccount => 1,
            TransferError::InvalidAmount => 2,
        };
        ProgramError::Custom(code)
    }
}

/// The program error a transfer error is returned as.
pub open spec fn transfer_err(e: TransferError) -> ProgramError {
    ProgramError::Custom(transfer_error_code(e))
}

} // verus!
