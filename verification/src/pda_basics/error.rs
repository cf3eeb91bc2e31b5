//! The voting program's error codes.
use vstd::prelude::*;

use crate::runtime::ProgramError;

verus! {

/// The voting program's errors, returned as custom program errors whose code
/// is the variant's position (0 to 5).
#[derive(Debug, Clone, Copy, PartialEq, Eq, Structural)]
pub enum VoteError {
    InvalidInstruction,
    UninitializedAccount,
    AlreadyInitialized,
    /// An account is not at the address derived for it, or the bump seed
    /// given is not the one derived.
    InvalidPDA,
    AlreadyVoted,
    InvalidVoteOption,
}

pub open spec fn vote_error_code(e: VoteError) -> u32 {
    match e {
        VoteError::InvalidInstruction => 0,
        VoteError::UninitializedAccount => 1,
        VoteError::AlreadyInitialized => 2,
        VoteError::InvalidPDA => 3,
        VoteError::AlreadyVoted => 4,
        VoteError::InvalidVoteOption => 5,
    }
}

impl vstd::std_specs::convert::FromSpecImpl<VoteError> for ProgramError {
    open spec fn obeys_from_spec() -> bool {
        true
    }

    open spec fn from_spec(e: VoteError) -> ProgramError {
        ProgramError::Custom(vote_error_code(e))
    }
}

impl From<VoteError> for ProgramError {
    fn from(e: VoteError) -> (r: ProgramError) {
        let code: u32 = match e {
            VoteError::InvalidInstruction => 0,
            VoteError::UninitializedAccount => 1,
            VoteError::AlreadyInitialized => 2,
            VoteError::InvalidPDA => 3,
            VoteError::AlreadyVoted => 4,
            VoteError::InvalidVoteOption => 5,
        };
        ProgramError::Custom(code)
    }
}

/// The program error a voting error is returned as.
pub open spec fn vote_err(e: VoteError) -> ProgramError {
    ProgramError::Custom(vote_error_code(e))
}

} // verus!
