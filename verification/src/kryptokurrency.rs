//! The fuller ledger: free and locked funds per account, seeded at genesis.
//!
//! The supply in circulation is not set until genesis, in [`genesis`], or the
//! first imbalance that is settled sets it. Imbalances, in [`imbalance`], stand
//! for changes of the supply that are still to be applied.
use std::collections::HashMap;
use vstd::prelude::*;
use crate::accounts::total_balance;
use crate::arithmetic::{saturating_add, saturating_sum};
use crate::{AccountId, Balance};

pub mod genesis;
pub mod imbalance;

pub use self::genesis::{GenesisConfig, GenesisError};
pub use self::imbalance::{NegativeImbalance, PositiveImbalance, SameOrOther};

verus! {

/// What the ledger is configured with.
#[derive(Clone, Copy, Debug, PartialEq, Eq, Structural)]
pub struct Config {
    /// The most tokens that may ever be in circulation.
    pub max_token_supply: Balance,
}

/// What a successful operation lets observers know.
#[derive(Clone, Copy, Debug, PartialEq, Eq, Structural)]
pub enum Event {
    /// This amount was minted.
    MintedNewSupply(Balance),
}

/// What an account holds.
#[derive(Clone, Copy, Debug, PartialEq, Eq, Structural)]
pub struct AccountData {
    /// Funds that the account can use.
    pub free: Balance,
    /// Funds that are held back. Nothing here changes them.
    pub locked: Balance,
}

impl Default for AccountData {
    /// An account that holds nothing.
    fn default() -> (data: AccountData)
        ensures
            data == (AccountData { free: 0, locked: 0 }),
    {
        AccountData { free: 0, locked: 0 }
    }
}

impl AccountData {
    /// The funds that the account can use.
    pub fn usable(&self) -> (balance: Balance)
        ensures
            balance == self.free,
    {
        self.free
    }

    /// Free and locked funds together, at most the largest balance.
    pub fn total(&self) -> (balance: Balance)
        ensures
            balance == saturating_sum(self.free, self.locked),
    {
        saturating_add(self.free, self.locked)
    }

    /// The funds that are held back.
    pub fn locked(&self) -> (balance: Balance)
        ensures
            balance == self.locked,
    {
        self.locked
    }
}

/// The ledger as contracts see it.
#[verifier::ext_equal]
pub struct Ledger {
    /// The most tokens that may ever be in circulation.
    pub max_token_supply: Balance,
    /// The supply in circulation, once it was set.
    pub total_issuance: Option<Balance>,
    /// What is stored of each account.
    pub accounts: Map<AccountId, AccountData>,
}

impl Ledger {
    /// The free funds of each stored account.
    pub open spec fn free_balances(self) -> Map<AccountId, Balance> {
        Map::new(|who: AccountId| self.accounts.contains_key(who), |who: AccountId| self.accounts[who].free)
    }

    /// The supply in circulation is set, and is the sum of the free funds of
    /// all accounts.
    pub open spec fn conserved(self) -> bool {
        self.total_issuance matches Some(total) && total == total_balance(self.free_balances())
    }
}

/// The ledger with its storage.
pub struct Pallet {
    max_token_supply: Balance,
    total_issuance: Option<Balance>,
    account_store: HashMap<AccountId, AccountData>,
}

impl View for Pallet {
    type V = Ledger;

    closed spec fn view(&self) -> Ledger {
        Ledger {
            max_token_supply: self.max_token_supply,
            total_issuance: self.total_issuance,
            accounts: self.account_store@,
        }
    }
}

impl Pallet {
    /// A ledger that stores no account and whose supply is not set.
    pub fn new(config: &Config) -> (pallet: Pallet)
        ensures
            pallet@ == (Ledger {
                max_token_supply: config.max_token_supply,
                total_issuance: None,
                accounts: Map::empty(),
            }),
    {
        Pallet {
            max_token_supply: config.max_token_supply,
            total_issuance: None,
            account_store: HashMap::new(),
        }
    }

    /// The most tokens that may ever be in circulation.
    pub fn max_token_supply(&self) -> (max: Balance)
        ensures
            max == self@.max_token_supply,
    {
        self.max_token_supply
    }

    /// What is stored of `who`, if anything.
    pub fn account_of(&self, who: &AccountId) -> (data: Option<AccountData>)
        ensures
            data == if self@.accounts.contains_key(*who) {
                Some(self@.accounts[*who])
            } else {
                None
            },
    {
        match self.account_store.get(who) {
            Some(data) => Some(*data),
            None => None,
        }
    }

    /// The supply in circulation, if it was set.
    pub fn total_issuance(&self) -> (total: Option<Balance>)
        ensures
            total == self@.total_issuance,
    {
        self.total_issuance
    }

    /// Sets the supply in circulation.
    pub(crate) fn put_total_issuance(&mut self, total: Balance)
        ensures
            final(self)@ == (Ledger { total_issuance: Some(total), ..old(self)@ }),
    {
        self.total_issuance = Some(total);
    }

    /// Stores `data` for `who`, in place of what was stored for it.
    pub(crate) fn insert_account(&mut self, who: AccountId, data: AccountData)
        ensures
            final(self)@ == (Ledger { accounts: old(self)@.accounts.insert(who, data), ..old(self)@ }),
    {
        self.account_store.insert(who, data);
    }
}

} // verus!
