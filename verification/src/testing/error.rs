//! The calculator's error codes.
use vstd::prelude::*;

use crate::runtime::ProgramError;

verus! {

/// The calculator's errors, returned as custom program errors whose code is
/// the variant's position (0 and 1).
#[derive(Debug, Clone, Copy, PartialEq, Eq, Structural)]
pub enum CalculatorError {
    /// The divisor is zero.
    DivisionByZero,
    /// The result does not fit in an `i64`.
    Overflow,
}

pub open spec fn calculator_error_code(e: CalculatorError) -> u32 {
    match e {
        CalculatorError::DivisionByZero => 0,
        CalculatorError::Overflow => 1,
    }
}

impl vstd::std_specs::convert::FromSpecImpl<CalculatorError> for ProgramError {
    open spec fn obeys_from_spec() -> bool {
        true
    }

    open spec fn from_spec(e: CalculatorError) -> ProgramError {
        ProgramError::Custom(calculator_error_code(e))
    }
}

impl From<CalculatorError> for ProgramError {
    fn from(e: CalculatorError) -> (r: ProgramError) {
        let code: u32 = match e {
            CalculatorError::DivisionByZero => 0,
            CalculatorError::Overflow => 1,
        };
        ProgramError::Custom(code)
    }
}

/// The program error a calculator error is returned as.
pub open spec fn calculator_err(e: CalculatorError) -> ProgramError {
    ProgramError::Custom(calculator_error_code(e))
}

} // verus!
