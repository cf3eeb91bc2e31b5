//! Verified account logic of a set of small Solana programs: instruction and
//! state encodings, and the checks and state changes each instruction makes.
pub mod address;
pub mod wire;
pub mod runtime;
pub mod solana_basics;
pub mod first_program;
pub mod accounts_and_data;
pub mod instructions;
pub mod pda_basics;
pub mod cpi_basics;
pub mod testing;
