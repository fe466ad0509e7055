//! A fixed-deposit bank: time-locked deposits that earn compound interest when
//! held to maturity and pay a penalty when withdrawn early.
//!
//! * [`fixed`]: fixed-point numbers and parts-per-million ratios.
//! * [`interest`]: compound interest, simple interest and the penalty.
//! * [`ledger`]: the account book with free, reserved and locked balances.
//! * [`vault`]: the open deposits and the depositors' latest ids.
//! * [`pallet`]: the bank itself, with its parameters, its treasury and the
//!   operations that open and close deposits.
//! * [`laws`]: what holds of the bank whatever its state.
//! * [`error`]: the reasons for which an operation is refused.
//!
//! The executable code is verified against the contracts written beside it.
//! Every operation either succeeds and changes the state as its contract
//! says, or fails with an error and changes nothing.

pub mod error;
pub mod fixed;
pub mod interest;
pub mod laws;
pub mod ledger;
pub mod pallet;
pub mod vault;
