//! A fungible-token ledger.
//!
//! The crate tracks per-account balances, a global total supply, and
//! delegated spending allowances, and offers atomic operations (mint, burn,
//! transfer, approve, transfer-on-behalf) that mutate this state while
//! preserving the conservation invariant: the total supply always equals the
//! sum of all account balances.

pub mod allowance;
pub mod ledger;
pub mod token;
