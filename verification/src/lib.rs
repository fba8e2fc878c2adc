//! Custodial stake-position ledger.
//!
//! Deposited tokens sit in escrow in a custody account; a fixed-capacity
//! ledger records how much of that escrow is committed to which
//! (product, publisher) target, and a vesting schedule limits how much may
//! be withdrawn before full maturity. Every operation preserves solvency:
//! the amounts committed to active positions never exceed the custodied
//! balance.

pub mod error;
pub mod positions;
pub mod stake_account;
pub mod vesting;
