//! Account ledger over exact fixed-point amounts.
//!
//! A stream of deposits, withdrawals, disputes, resolves and chargebacks is
//! applied, one transaction at a time, to the accounts of a [`Ledger`]. Money
//! is an [`Amount`], an exact count of ten-thousandths. What each function
//! computes is stated over the mathematical model in [`model`] and
//! [`notation`], and proved.

pub mod amount;
pub mod digits;
pub mod holdings;
pub mod ledger;
pub mod model;
pub mod notation;
pub mod record;

pub use amount::Amount;
pub use ledger::{
    Client, Ledger, Transaction, TransactionError, TransactionKind,
    TransactionKindConversionError,
};
