//! A bounded-supply token ledger in two flavours.
//!
//! [`krypt`] is the plain ledger: balances per account and one counter of the
//! supply in circulation, changed by `mint` and `transfer_from`.
//! [`kryptokurrency`] keeps free and locked funds per account, is seeded from a
//! genesis list, and accounts for pending changes of the supply with imbalances.
//!
//! Accounts are identified by a `u64`, and balances are `u128`.
use vstd::prelude::*;

pub mod accounts;
pub mod arithmetic;
pub mod krypt;
pub mod kryptokurrency;
pub mod origin;

verus! {

/// Identifier of an account.
pub type AccountId = u64;

/// An amount of tokens.
pub type Balance = u128;

} // verus!
