//! A profile program: accounts that hold a user's profile, created, updated
//! and closed by their owner.
pub mod instruction;
pub mod processor;
pub mod state;
