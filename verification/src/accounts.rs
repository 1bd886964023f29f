//! The balances of a ledger as a map from account to balance, and their sum.
//!
//! An account of which the map holds nothing has the balance zero, so the sum
//! of all balances is taken over every account identifier there is.
use vstd::prelude::*;
use crate::arithmetic::{saturating_difference, saturating_sum};
use crate::{AccountId, Balance};

verus! {

/// What `balances` holds for `who`: the stored balance, or zero where none is
/// stored.
pub open spec fn balance_in(balances: Map<AccountId, Balance>, who: AccountId) -> Balance {
    if balances.contains_key(who) {
        balances[who]
    } else {
        0
    }
}

/// How many account identifiers there are.
pub open spec fn account_ids() -> nat {
    AccountId::MAX as nat + 1
}

/// The sum of the balances of the accounts whose identifier is below `bound`.
pub open spec fn sum_below(balances: Map<AccountId, Balance>, bound: nat) -> nat
    decreases bound,
{
    if bound == 0 {
        0
    } else {
        sum_below(balances, (bound - 1) as nat) + balance_in(
            balances,
            (bound - 1) as AccountId,
        ) as nat
    }
}

/// The sum of the balances of all accounts.
pub open spec fn total_balance(balances: Map<AccountId, Balance>) -> nat {
    sum_below(balances, account_ids())
}

/// `balances` after `amount` was added to the balance of `who`, which stops at
/// the largest balance.
pub open spec fn credited(
    balances: Map<AccountId, Balance>,
    who: AccountId,
    amount: Balance,
) -> Map<AccountId, Balance> {
    balances.insert(who, saturating_sum(balance_in(balances, who), amount))
}

/// `balances` after `amount` was taken from the balance of `who`, which stops
/// at zero.
pub open spec fn debited(
    balances: Map<AccountId, Balance>,
    who: AccountId,
    amount: Balance,
) -> Map<AccountId, Balance> {
    balances.insert(who, saturating_difference(balance_in(balances, who), amount))
}

/// Storing `value` for `who` changes the sum below `bound` by the difference
/// to what `who` had, if `who` is below `bound`, and not at all otherwise.
pub proof fn lemma_sum_below_insert(
    balances: Map<AccountId, Balance>,
    who: AccountId,
    value: Balance,
    bound: nat,
)
    requires
        bound <= account_ids(),
    ensures
        sum_below(balances.insert(who, value), bound) == sum_below(balances, bound) + (if who
            < bound {
            value - balance_in(balances, who)
        } else {
            0
        }),
    decreases bound,
{
    if bound > 0 {
        lemma_sum_below_insert(balances, who, value, (bound - 1) as nat);
    }
}

/// Storing `value` for `who` changes the sum of all balances by the
/// difference to what `who` had.
pub proof fn lemma_total_balance_insert(
    balances: Map<AccountId, Balance>,
    who: AccountId,
    value: Balance,
)
    ensures
        total_balance(balances.insert(who, value)) == total_balance(balances) - balance_in(
            balances,
            who,
        ) + value,
{
    lemma_sum_below_insert(balances, who, value, account_ids());
}

/// Where no balance is stored, every sum is zero.
pub proof fn lemma_sum_below_empty(bound: nat)
    ensures
        sum_below(Map::<AccountId, Balance>::empty(), bound) == 0,
    decreases bound,
{
    if bound > 0 {
        lemma_sum_below_empty((bound - 1) as nat);
    }
}

/// No account holds more than all accounts together.
pub proof fn lemma_balance_within_total(balances: Map<AccountId, Balance>, who: AccountId)
    ensures
        balance_in(balances, who) <= total_balance(balances),
{
    lemma_total_balance_insert(balances, who, 0);
}

/// Two different accounts together hold no more than all accounts together.
pub proof fn lemma_two_balances_within_total(
    balances: Map<AccountId, Balance>,
    one: AccountId,
    other: AccountId,
)
    requires
        one != other,
    ensures
        balance_in(balances, one) + balance_in(balances, other) <= total_balance(balances),
{
    lemma_total_balance_insert(balances, one, 0);
    lemma_balance_within_total(balances.insert(one, 0), other);
}

} // verus!
