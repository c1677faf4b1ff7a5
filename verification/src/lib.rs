//! A time-locked periodic allowance.
//!
//! A holder grants a beneficiary a yearly entitlement. The beneficiary may
//! draw one installment of fixed size per interval; the funds come from a
//! token ledger on which the holder has approved this schedule as a spender.
//!
//! The crate holds the rules and their proofs. The clock, the proof of who
//! approved a call and the ledger's answer are handed in as plain values.

pub mod account;
pub mod allowance;
pub mod amount;
pub mod error;
pub mod laws;
pub mod ledger;
pub mod schedule;

pub use account::{AccountId, AccountKind, Proof};
pub use allowance::AllowanceContract;
pub use amount::{period_amount, periods_in_year, terms_valid, SECONDS_IN_YEAR};
pub use error::Error;
pub use schedule::{Schedule, StorageKey, Stored, Transfer};
pub use laws::Call;
pub use ledger::{check_nonnegative_amount, DisburseContract, LedgerState};
