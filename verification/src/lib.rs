//! Token-sale back office: allocation-bounded deposit ledgers for a two-phase
//! sale, a merkle-proof allowlist check, an explicit allowlist registry with
//! swap-delete removal, a stepped linear vesting schedule, and a time-decay
//! early-withdrawal penalty ledger.
//!
//! Every operation works on an explicitly passed state value and returns the
//! outgoing transfer instructions as plain data; the host that persists state,
//! authenticates callers and executes instructions stays outside the library.

pub mod decimal;
pub mod error;
pub mod hexcode;
pub mod instruction;
pub mod lexord;
pub mod locking;
pub mod merkle;
pub mod registry;
pub mod sale;
pub mod table;
pub mod vesting;
