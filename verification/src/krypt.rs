//! The plain ledger: a balance per account and the supply in circulation.
//!
//! Only the privileged caller may mint, and never beyond the configured
//! maximum supply. Any signed caller may transfer what its account holds. After
//! every operation the supply in circulation equals the sum of all balances.
use std::collections::HashMap;
use vstd::prelude::*;
use crate::accounts::{
    account_ids, balance_in, credited, debited, lemma_balance_within_total, lemma_sum_below_empty,
    lemma_total_balance_insert, lemma_two_balances_within_total, total_balance,
};
use crate::arithmetic::{checked_add, checked_sub, saturating_add};
use crate::origin::{ensure_root, ensure_signed, Origin};
use crate::{AccountId, Balance};

verus! {

/// What the ledger is configured with.
#[derive(Clone, Copy, Debug, PartialEq, Eq, Structural)]
pub struct Config {
    /// The most tokens that may ever be in circulation.
    pub max_token_supply: Balance,
}

/// Why an operation was refused.
#[derive(Clone, Copy, Debug, PartialEq, Eq, Structural)]
pub enum Error {
    /// The caller may not perform the operation.
    NotAuthorized,
    /// Minting would take the supply beyond the configured maximum.
    MintCausingTotalSupplyOverflow,
    /// Minting would take the supply beyond what a balance can represent.
    MintTypeOverflow,
    /// The sender holds less than the amount to transfer.
    InsufficientFunds,
}

/// What a successful operation lets observers know.
#[derive(Clone, Copy, Debug, PartialEq, Eq, Structural)]
pub enum Event {
    /// This amount was minted.
    MintedNewSupply(Balance),
    /// The first account sent the second this amount.
    TransferSuccess(AccountId, AccountId, Balance),
    /// This is the supply in circulation.
    TotalIssued(Balance),
}

/// An operation with its arguments, as contracts speak of it.
pub enum Call {
    /// Mint `amount` for `benefactor`.
    Mint { amount: Balance, benefactor: AccountId },
    /// Send `amount` from the caller's account to `to`.
    TransferFrom { to: AccountId, amount: Balance },
    /// Report the supply in circulation.
    TotalIssuance,
}

/// The ledger as contracts see it.
#[verifier::ext_equal]
pub struct Ledger {
    /// The most tokens that may ever be in circulation.
    pub max_token_supply: Balance,
    /// The supply in circulation.
    pub total_issued: Balance,
    /// The balances that are stored.
    pub balances: Map<AccountId, Balance>,
}

impl Ledger {
    /// The balance of `who`: zero where none is stored.
    pub open spec fn balance_of(self, who: AccountId) -> Balance {
        balance_in(self.balances, who)
    }

    /// The supply in circulation is the sum of all balances.
    pub open spec fn conserved(self) -> bool {
        self.total_issued == total_balance(self.balances)
    }

    /// The supply in circulation is within the configured maximum.
    pub open spec fn capped(self) -> bool {
        self.total_issued <= self.max_token_supply
    }

    /// What holds of the ledger between operations.
    pub open spec fn wf(self) -> bool {
        self.conserved() && self.capped()
    }

    /// Why minting `amount` on behalf of `origin` is refused, if it is.
    pub open spec fn mint_refusal(self, origin: Origin, amount: Balance) -> Option<Error> {
        if !(origin is Root) {
            Some(Error::NotAuthorized)
        } else if self.total_issued + amount > Balance::MAX {
            Some(Error::MintTypeOverflow)
        } else if self.total_issued + amount > self.max_token_supply {
            Some(Error::MintCausingTotalSupplyOverflow)
        } else {
            None
        }
    }

    /// The ledger after `amount` was minted for `benefactor`.
    pub open spec fn minted(self, amount: Balance, benefactor: AccountId) -> Ledger {
        Ledger {
            total_issued: (self.total_issued + amount) as Balance,
            balances: credited(self.balances, benefactor, amount),
            ..self
        }
    }

    /// Why a transfer of `amount` on behalf of `origin` is refused, if it is.
    pub open spec fn transfer_refusal(self, origin: Origin, amount: Balance) -> Option<Error> {
        match origin {
            Origin::Signed(sender) => if self.balance_of(sender) < amount {
                Some(Error::InsufficientFunds)
            } else {
                None
            },
            _ => Some(Error::NotAuthorized),
        }
    }

    /// The ledger after `sender` sent `amount` to `to`.
    pub open spec fn transferred(self, sender: AccountId, to: AccountId, amount: Balance) -> Ledger {
        Ledger { balances: credited(debited(self.balances, sender, amount), to, amount), ..self }
    }

    /// The ledger after `origin` made `call`: as it was where the call is
    /// refused.
    pub open spec fn after(self, origin: Origin, call: Call) -> Ledger {
        match call {
            Call::Mint { amount, benefactor } => if self.mint_refusal(origin, amount) is None {
                self.minted(amount, benefactor)
            } else {
                self
            },
            Call::TransferFrom { to, amount } => match origin {
                Origin::Signed(sender) if self.transfer_refusal(origin, amount) is None =>
                    self.transferred(sender, to, amount),
                _ => self,
            },
            Call::TotalIssuance => self,
        }
    }

    /// The ledger after the calls of `calls` were made one after the other.
    pub open spec fn after_all(self, calls: Seq<(Origin, Call)>) -> Ledger
        decreases calls.len(),
    {
        if calls.len() == 0 {
            self
        } else {
            self.after_all(calls.drop_last()).after(calls.last().0, calls.last().1)
        }
    }

    /// A mint within the configured maximum keeps the supply equal to the sum
    /// of all balances and within the maximum, and the benefactor has exactly
    /// `amount` more than before.
    pub proof fn lemma_minted(self, amount: Balance, benefactor: AccountId)
        requires
            self.wf(),
            self.total_issued + amount <= self.max_token_supply,
        ensures
            self.minted(amount, benefactor).wf(),
            self.minted(amount, benefactor).total_issued == self.total_issued + amount,
            self.minted(amount, benefactor).balance_of(benefactor) == self.balance_of(benefactor)
                + amount,
            forall|who: AccountId|
                who != benefactor ==> self.minted(amount, benefactor).balance_of(who)
                    == self.balance_of(who),
    {
        lemma_balance_within_total(self.balances, benefactor);
        lemma_total_balance_insert(
            self.balances,
            benefactor,
            (self.balance_of(benefactor) + amount) as Balance,
        );
    }

    /// A transfer of no more than the sender holds keeps the supply, which
    /// still equals the sum of all balances. Between two accounts it moves
    /// exactly `amount` and touches no third account.
    pub proof fn lemma_transferred(self, sender: AccountId, to: AccountId, amount: Balance)
        requires
            self.wf(),
            self.balance_of(sender) >= amount,
        ensures
            self.transferred(sender, to, amount).wf(),
            self.transferred(sender, to, amount).total_issued == self.total_issued,
            sender != to ==> self.transferred(sender, to, amount).balance_of(sender)
                == self.balance_of(sender) - amount,
            sender != to ==> self.transferred(sender, to, amount).balance_of(to) == self.balance_of(
                to,
            ) + amount,
            forall|who: AccountId|
                who != sender && who != to ==> self.transferred(sender, to, amount).balance_of(who)
                    == self.balance_of(who),
    {
        let taken = debited(self.balances, sender, amount);
        lemma_total_balance_insert(
            self.balances,
            sender,
            (self.balance_of(sender) - amount) as Balance,
        );
        if sender != to {
            lemma_two_balances_within_total(self.balances, sender, to);
        }
        lemma_total_balance_insert(taken, to, (balance_in(taken, to) + amount) as Balance);
    }

    /// A transfer from an account to itself, of no more than it holds, leaves
    /// every balance as it was.
    pub proof fn lemma_self_transfer(self, who: AccountId, amount: Balance)
        requires
            self.balance_of(who) >= amount,
        ensures
            forall|any: AccountId|
                self.transferred(who, who, amount).balance_of(any) == self.balance_of(any),
            self.transferred(who, who, amount).total_issued == self.total_issued,
    {
    }

    /// A mint by the privileged caller that would take the supply beyond the
    /// configured maximum, to a sum that a balance can still represent, is
    /// refused for that reason and changes nothing.
    pub proof fn lemma_mint_beyond_maximum(self, amount: Balance, benefactor: AccountId)
        requires
            self.total_issued + amount > self.max_token_supply,
            self.total_issued + amount <= Balance::MAX,
        ensures
            self.mint_refusal(Origin::Root, amount) == Some(Error::MintCausingTotalSupplyOverflow),
            self.after(Origin::Root, Call::Mint { amount, benefactor }) == self,
    {
    }

    /// No call breaks what holds of the ledger between operations: whatever
    /// its caller and arguments, and whether it is refused or not, the supply
    /// equals the sum of all balances afterwards and is within the configured
    /// maximum.
    pub proof fn lemma_call_keeps_invariants(self, origin: Origin, call: Call)
        requires
            self.wf(),
        ensures
            self.after(origin, call).wf(),
    {
        match call {
            Call::Mint { amount, benefactor } => {
                if self.mint_refusal(origin, amount) is None {
                    self.lemma_minted(amount, benefactor);
                }
            },
            Call::TransferFrom { to, amount } => {
                if let Origin::Signed(sender) = origin {
                    if self.transfer_refusal(origin, amount) is None {
                        self.lemma_transferred(sender, to, amount);
                    }
                }
            },
            Call::TotalIssuance => {},
        }
    }

    /// After any sequence of calls on a ledger on which the supply equalled
    /// the sum of all balances and was within the configured maximum, both
    /// still hold.
    pub proof fn lemma_calls_keep_invariants(self, calls: Seq<(Origin, Call)>)
        requires
            self.wf(),
        ensures
            self.after_all(calls).conserved(),
            self.after_all(calls).capped(),
        decreases calls.len(),
    {
        if calls.len() > 0 {
            self.lemma_calls_keep_invariants(calls.drop_last());
            self.after_all(calls.drop_last()).lemma_call_keeps_invariants(
                calls.last().0,
                calls.last().1,
            );
        }
    }
}

/// What is stored: the supply in circulation and a balance per account. It
/// takes whatever it is given; the ledger decides what that is.
struct Storage {
    total_issued: Balance,
    balance_to_account: HashMap<AccountId, Balance>,
}

impl Storage {
    /// The supply that is stored.
    spec fn total(&self) -> Balance {
        self.total_issued
    }

    /// The balances that are stored.
    spec fn balances(&self) -> Map<AccountId, Balance> {
        self.balance_to_account@
    }

    /// Storage that holds no balance and the supply zero.
    fn new() -> (storage: Storage)
        ensures
            storage.total() == 0,
            storage.balances() == Map::<AccountId, Balance>::empty(),
    {
        Storage { total_issued: 0, balance_to_account: HashMap::new() }
    }

    /// The balance of `who`: zero for an account of which nothing is stored.
    fn get_balance_of(&self, who: &AccountId) -> (balance: Balance)
        ensures
            balance == balance_in(self.balances(), *who),
    {
        match self.balance_to_account.get(who) {
            Some(balance) => *balance,
            None => 0,
        }
    }

    /// Adds `amount` to the balance of `benefactor`, up to the largest
    /// balance.
    fn credit(&mut self, benefactor: &AccountId, amount: Balance)
        ensures
            final(self).total() == old(self).total(),
            final(self).balances() == credited(old(self).balances(), *benefactor, amount),
    {
        let previous_balance = self.get_balance_of(benefactor);
        let final_balance = saturating_add(previous_balance, amount);
        self.balance_to_account.insert(*benefactor, final_balance);
    }

    /// Adds `amount` to the supply in circulation. The caller has made sure
    /// that the sum is representable.
    fn include_mint_amount(&mut self, amount: Balance)
        requires
            old(self).total() + amount <= Balance::MAX,
        ensures
            final(self).total() == old(self).total() + amount,
            final(self).balances() == old(self).balances(),
    {
        if let Some(total) = checked_add(amount, self.total_issued) {
            self.total_issued = total;
        }
    }

    /// Takes `amount` from `sender` and then gives it to `to`, so that a sender
    /// who is also the receiver ends with what it had. The caller has made sure
    /// that `sender` holds at least `amount`.
    fn transfer_unchecked(&mut self, sender: &AccountId, to: &AccountId, amount: Balance)
        requires
            balance_in(old(self).balances(), *sender) >= amount,
        ensures
            final(self).total() == old(self).total(),
            final(self).balances() == credited(
                debited(old(self).balances(), *sender, amount),
                *to,
                amount,
            ),
    {
        let previous_sender_balance = self.get_balance_of(sender);
        if let Some(new_sender_balance) = checked_sub(previous_sender_balance, amount) {
            self.balance_to_account.insert(*sender, new_sender_balance);
        }
        self.credit(to, amount);
    }
}

/// The ledger with its storage. Whatever was done to it, its supply equals the
/// sum of its balances and is within the configured maximum.
pub struct Pallet {
    max_token_supply: Balance,
    storage: Storage,
}

impl View for Pallet {
    type V = Ledger;

    closed spec fn view(&self) -> Ledger {
        Ledger {
            max_token_supply: self.max_token_supply,
            total_issued: self.storage.total(),
            balances: self.storage.balances(),
        }
    }
}

impl Pallet {
    #[verifier::type_invariant]
    spec fn consistent(self) -> bool {
        self@.wf()
    }

    /// A ledger on which nothing was issued yet.
    pub fn new(config: &Config) -> (pallet: Pallet)
        ensures
            pallet@ == (Ledger {
                max_token_supply: config.max_token_supply,
                total_issued: 0,
                balances: Map::empty(),
            }),
            pallet@.wf(),
    {
        proof {
            lemma_sum_below_empty(account_ids());
        }
        Pallet { max_token_supply: config.max_token_supply, storage: Storage::new() }
    }

    /// The supply in circulation.
    pub fn total_issued(&self) -> (total: Balance)
        ensures
            total == self@.total_issued,
            self@.wf(),
    {
        proof {
            use_type_invariant(self);
        }
        self.storage.total_issued
    }

    /// The balance of `who`: zero for an account that never received anything.
    pub fn get_balance_of(&self, who: &AccountId) -> (balance: Balance)
        ensures
            balance == self@.balance_of(*who),
            self@.wf(),
    {
        proof {
            use_type_invariant(self);
        }
        self.storage.get_balance_of(who)
    }

    /// Mints `amount` for `benefactor`. Only the privileged caller may do so,
    /// and only while the supply stays representable and within the configured
    /// maximum. A mint that is refused changes nothing.
    pub fn mint(&mut self, origin: Origin, amount: Balance, benefactor: AccountId) -> (r: Result<
        Event,
        Error,
    >)
        ensures
            old(self)@.wf(),
            final(self)@.wf(),
            match old(self)@.mint_refusal(origin, amount) {
                Some(e) => r == Err::<Event, Error>(e) && final(self)@ == old(self)@,
                None => {
                    &&& r == Ok::<Event, Error>(Event::MintedNewSupply(amount))
                    &&& final(self)@ == old(self)@.minted(amount, benefactor)
                    &&& final(self)@.total_issued == old(self)@.total_issued + amount
                    &&& final(self)@.balance_of(benefactor) == old(self)@.balance_of(benefactor)
                        + amount
                },
            },
            final(self)@ == old(self)@.after(origin, Call::Mint { amount, benefactor }),
    {
        proof {
            use_type_invariant(&*self);
        }
        if ensure_root(origin).is_err() {
            return Err(Error::NotAuthorized);
        }
        match self.does_adding_overflow_maxtokensupply(amount) {
            Err(e) => {
                return Err(e);
            },
            Ok(()) => {},
        }
        proof {
            self@.lemma_minted(amount, benefactor);
            lemma_sum_below_empty(account_ids());
        }
        let mut storage = Storage::new();
        std::mem::swap(&mut storage, &mut self.storage);
        storage.credit(&benefactor, amount);
        storage.include_mint_amount(amount);
        self.storage = storage;
        Ok(Event::MintedNewSupply(amount))
    }

    /// Sends `amount` from the account that signed to `to`. A transfer of more
    /// than the sender holds is refused, and a transfer that is refused changes
    /// nothing. A transfer to the sender itself leaves every balance as it was.
    pub fn transfer_from(&mut self, origin: Origin, to: AccountId, amount: Balance) -> (r: Result<
        Event,
        Error,
    >)
        ensures
            old(self)@.wf(),
            final(self)@.wf(),
            match old(self)@.transfer_refusal(origin, amount) {
                Some(e) => r == Err::<Event, Error>(e) && final(self)@ == old(self)@,
                None => {
                    &&& origin matches Origin::Signed(sender)
                    &&& r == Ok::<Event, Error>(Event::TransferSuccess(sender, to, amount))
                    &&& final(self)@ == old(self)@.transferred(sender, to, amount)
                    &&& sender == to ==> forall|who: AccountId|
                        final(self)@.balance_of(who) == old(self)@.balance_of(who)
                    &&& sender != to ==> {
                        &&& final(self)@.balance_of(sender) == old(self)@.balance_of(sender)
                            - amount
                        &&& final(self)@.balance_of(to) == old(self)@.balance_of(to) + amount
                        &&& forall|who: AccountId|
                            who != sender && who != to ==> final(self)@.balance_of(who) == old(
                                self,
                            )@.balance_of(who)
                    }
                },
            },
            final(self)@ == old(self)@.after(origin, Call::TransferFrom { to, amount }),
            final(self)@.total_issued == old(self)@.total_issued,
    {
        proof {
            use_type_invariant(&*self);
        }
        let sender = match self.ensure_can_send(origin, amount) {
            Ok(sender) => sender,
            Err(e) => {
                return Err(e);
            },
        };
        proof {
            self@.lemma_transferred(sender, to, amount);
            if sender == to {
                self@.lemma_self_transfer(sender, amount);
            }
            lemma_sum_below_empty(account_ids());
        }
        let mut storage = Storage::new();
        std::mem::swap(&mut storage, &mut self.storage);
        storage.transfer_unchecked(&sender, &to, amount);
        self.storage = storage;
        Ok(Event::TransferSuccess(sender, to, amount))
    }

    /// The account that signed, if it may send `amount`: it must hold as much.
    /// This is all that decides whether a transfer is refused, so a caller
    /// with work of its own to do before the transfer can ask first.
    pub fn ensure_can_send(&self, origin: Origin, amount: Balance) -> (r: Result<AccountId, Error>)
        ensures
            match self@.transfer_refusal(origin, amount) {
                Some(e) => r == Err::<AccountId, Error>(e),
                None => origin matches Origin::Signed(sender) && r == Ok::<AccountId, Error>(sender),
            },
    {
        let sender = match ensure_signed(origin) {
            Ok(sender) => sender,
            Err(_) => {
                return Err(Error::NotAuthorized);
            },
        };
        if !self.has_sufficient_funds(&sender, amount) {
            return Err(Error::InsufficientFunds);
        }
        Ok(sender)
    }

    /// Reports the supply in circulation to a signed caller, and changes
    /// nothing.
    pub fn total_issuance(&self, origin: Origin) -> (r: Result<Event, Error>)
        ensures
            r == if origin is Signed {
                Ok::<Event, Error>(Event::TotalIssued(self@.total_issued))
            } else {
                Err::<Event, Error>(Error::NotAuthorized)
            },
    {
        if ensure_signed(origin).is_err() {
            return Err(Error::NotAuthorized);
        }
        Ok(Event::TotalIssued(self.total_issued()))
    }

    /// Tells whether minting `amount` keeps the supply representable and within
    /// the configured maximum, and if not, which of the two it breaks.
    pub fn does_adding_overflow_maxtokensupply(&self, amount: Balance) -> (r: Result<(), Error>)
        ensures
            r == if self@.total_issued + amount > Balance::MAX {
                Err::<(), Error>(Error::MintTypeOverflow)
            } else if self@.total_issued + amount > self@.max_token_supply {
                Err::<(), Error>(Error::MintCausingTotalSupplyOverflow)
            } else {
                Ok::<(), Error>(())
            },
    {
        let total_already_minted = self.total_issued();
        match checked_add(total_already_minted, amount) {
            None => Err(Error::MintTypeOverflow),
            Some(new_supply) => {
                if new_supply <= self.max_token_supply {
                    Ok(())
                } else {
                    Err(Error::MintCausingTotalSupplyOverflow)
                }
            },
        }
    }

    /// Tells whether `s` holds at least `amount`.
    pub fn has_sufficient_funds(&self, s: &AccountId, amount: Balance) -> (sufficient: bool)
        ensures
            sufficient == (self@.balance_of(*s) >= amount),
    {
        self.get_balance_of(s) >= amount
    }
}

} // verus!
