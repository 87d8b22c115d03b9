//! A small account-based token ledger: record layouts, instruction decoding,
//! and the verified state-transition engine that applies instructions to
//! mint and token-account records; and a dry run that lists the log lines
//! of a program's source.

pub mod pubkey;
pub mod state;
pub mod ledger;
pub mod codec;
pub mod instruction;
pub mod processor;
pub mod invariants;
pub mod simulator;
