//! A staking ledger: participants deposit non-fungible items into a pool and earn
//! fungible rewards that accrue with time, funded by the pool's authority.
//!
//! The ledger's operations work on plain records and take the current time as an
//! argument. What they ask of the external token ledger (transfers, changes of a
//! token account's owner, closing an account) they return as values for the host
//! to carry out; a failed operation changes no record.

pub mod types;
pub mod accrual;
pub mod codec;
pub mod membership;
pub mod pool;
pub mod user;
