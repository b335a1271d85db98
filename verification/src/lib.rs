//! Account-data access layer of a ledger-runtime program.
//!
//! An instruction buffer carries a one-byte operation tag and a fixed
//! argument payload; the accounts handed in by the runtime are bound to named
//! roles; the bytes of the data account are read as a fixed-layout record,
//! either into an owned copy or through a borrowed view, and reduced to a few
//! numbers under wrapping arithmetic.
pub mod error;
pub mod endian;
pub mod instruction;
pub mod record;
pub mod accounts;
pub mod compute;
pub mod deposit;
pub mod processor;
