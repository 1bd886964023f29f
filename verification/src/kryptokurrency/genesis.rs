//! The ledger at genesis: which accounts are endowed, and with how much.
//!
//! A configuration is rejected if it names an account twice or endows more
//! than its limit allows. Neither depends on the order of its list.
use std::collections::BTreeSet;
use vstd::prelude::*;
use vstd::seq_lib::{to_multiset_contains, to_multiset_len, to_multiset_remove};
use crate::accounts::{
    account_ids, lemma_sum_below_empty, lemma_total_balance_insert, total_balance,
};
use crate::arithmetic::{checked_add, is_zero, zero};
use crate::kryptokurrency::{AccountData, Config, Ledger, Pallet};
use crate::{AccountId, Balance};

verus! {

/// Why a genesis configuration was rejected.
#[derive(Clone, Copy, Debug, PartialEq, Eq, Structural)]
pub enum GenesisError {
    /// An account occurs more than once among the endowed accounts.
    DuplicateAccounts,
    /// The endowed accounts together hold more than the maximum supply.
    TotalExceedsMaxTokenSupply,
}

/// The sum of the balances of a list of endowed accounts.
pub open spec fn seed_total(balances: Seq<(AccountId, Balance)>) -> nat
    decreases balances.len(),
{
    if balances.len() == 0 {
        0
    } else {
        seed_total(balances.drop_last()) + balances.last().1 as nat
    }
}

/// Some account occurs at two places of the list.
pub open spec fn has_duplicate_account(balances: Seq<(AccountId, Balance)>) -> bool {
    exists|i: int, j: int| 0 <= i < j < balances.len() && balances[i].0 == balances[j].0
}

/// `who` occurs in the list.
pub open spec fn is_endowed(balances: Seq<(AccountId, Balance)>, who: AccountId) -> bool {
    exists|i: int| 0 <= i < balances.len() && balances[i].0 == who
}

/// The accounts to endow at genesis, and optionally the supply that they may
/// hold together.
pub struct GenesisConfig {
    /// The accounts to endow, each with its free funds.
    pub balances: Vec<(AccountId, Balance)>,
    /// The most that the endowed accounts may hold together. Where it is
    /// absent, the configured maximum supply takes its place.
    pub max_token_supply: Option<Balance>,
}

impl GenesisConfig {
    /// The most that the endowed accounts may hold together under `config`.
    pub open spec fn limit(&self, config: Config) -> Balance {
        match self.max_token_supply {
            Some(max) => max,
            None => config.max_token_supply,
        }
    }

    /// Why the configuration is rejected under `config`, if it is. A
    /// duplicate account is found before the sum is looked at.
    pub open spec fn rejection(&self, config: Config) -> Option<GenesisError> {
        if has_duplicate_account(self.balances@) {
            Some(GenesisError::DuplicateAccounts)
        } else if seed_total(self.balances@) > self.limit(config) {
            Some(GenesisError::TotalExceedsMaxTokenSupply)
        } else {
            None
        }
    }

    /// The configuration that endows nobody. Its limit is the configured
    /// maximum supply, left out where that is zero.
    pub fn default(config: &Config) -> (genesis: GenesisConfig)
        ensures
            genesis.balances@ == Seq::<(AccountId, Balance)>::empty(),
            genesis.max_token_supply == if config.max_token_supply == 0 {
                None
            } else {
                Some(config.max_token_supply)
            },
    {
        let runtime_max_token = config.max_token_supply;
        let max_tokens = if is_zero(runtime_max_token) {
            None
        } else {
            Some(runtime_max_token)
        };
        GenesisConfig { balances: Vec::new(), max_token_supply: max_tokens }
    }

    /// Builds the ledger at genesis. No account may occur twice among those to
    /// endow, and together they may hold no more than the limit. The ledger
    /// that comes out stores exactly the endowed accounts, each with its free
    /// funds and nothing locked, and its supply is their sum.
    pub fn build(&self, config: &Config) -> (r: Result<Pallet, GenesisError>)
        ensures
            match self.rejection(*config) {
                Some(e) => r matches Err(err) && err == e,
                None => {
                    &&& r matches Ok(pallet)
                    &&& pallet@.max_token_supply == config.max_token_supply
                    &&& pallet@.total_issuance == Some(seed_total(self.balances@) as Balance)
                    &&& forall|who: AccountId|
                        pallet@.accounts.contains_key(who) <==> is_endowed(self.balances@, who)
                    &&& forall|i: int|
                        0 <= i < self.balances.len() ==> #[trigger] pallet@.accounts[self.balances[i].0]
                            == (AccountData { free: self.balances[i].1, locked: 0 })
                    &&& pallet@.conserved()
                },
            },
    {
        if self.has_duplicate_accounts() {
            return Err(GenesisError::DuplicateAccounts);
        }
        let max_tokens_at_genesis = match self.max_token_supply {
            Some(max) => max,
            None => config.max_token_supply,
        };
        let total_issuance_at_genesis = match self.total_at_genesis() {
            Some(total) => total,
            None => {
                return Err(GenesisError::TotalExceedsMaxTokenSupply);
            },
        };
        if total_issuance_at_genesis > max_tokens_at_genesis {
            return Err(GenesisError::TotalExceedsMaxTokenSupply);
        }
        let mut pallet = Pallet::new(config);
        proof {
            lemma_sum_below_empty(account_ids());
            assert(pallet@.free_balances() =~= Map::<AccountId, Balance>::empty());
        }
        let mut i: usize = 0;
        while i < self.balances.len()
            invariant
                0 <= i <= self.balances.len(),
                !has_duplicate_account(self.balances@),
                pallet@.max_token_supply == config.max_token_supply,
                forall|who: AccountId|
                    pallet@.accounts.contains_key(who) <==> is_endowed(
                        self.balances@.take(i as int),
                        who,
                    ),
                forall|j: int|
                    0 <= j < i ==> #[trigger] pallet@.accounts[self.balances[j].0] == (AccountData {
                        free: self.balances[j].1,
                        locked: 0,
                    }),
                total_balance(pallet@.free_balances()) == seed_total(self.balances@.take(i as int)),
            decreases self.balances.len() - i,
        {
            let (who, free) = self.balances[i];
            proof {
                lemma_one_more_entry(self.balances@, i as int);
                let stored = Ledger {
                    accounts: pallet@.accounts.insert(who, AccountData { free, locked: 0 }),
                    ..pallet@
                };
                assert(stored.free_balances() =~= pallet@.free_balances().insert(who, free));
                lemma_total_balance_insert(pallet@.free_balances(), who, free);
            }
            pallet.insert_account(who, AccountData { free, ..Default::default() });
            i = i + 1;
        }
        proof {
            assert(self.balances@.take(self.balances.len() as int) =~= self.balances@);
        }
        pallet.put_total_issuance(total_issuance_at_genesis);
        Ok(pallet)
    }

    /// Tells whether some account occurs more than once among those to endow.
    pub fn has_duplicate_accounts(&self) -> (duplicate: bool)
        ensures
            duplicate == has_duplicate_account(self.balances@),
    {
        let mut endowed_accounts: BTreeSet<AccountId> = BTreeSet::new();
        let mut i: usize = 0;
        while i < self.balances.len()
            invariant
                0 <= i <= self.balances.len(),
                !has_duplicate_account(self.balances@.take(i as int)),
                forall|who: AccountId|
                    endowed_accounts@.contains(who) <==> is_endowed(
                        self.balances@.take(i as int),
                        who,
                    ),
            decreases self.balances.len() - i,
        {
            let (who, _) = self.balances[i];
            proof {
                lemma_one_more_entry(self.balances@, i as int);
            }
            if !endowed_accounts.insert(who) {
                proof {
                    lemma_duplicate_in_prefix(self.balances@, i + 1);
                }
                return true;
            }
            i = i + 1;
        }
        proof {
            assert(self.balances@.take(self.balances.len() as int) =~= self.balances@);
        }
        false
    }

    /// The sum of the funds to endow, where a balance can hold it.
    pub fn total_at_genesis(&self) -> (total: Option<Balance>)
        ensures
            total == if seed_total(self.balances@) <= Balance::MAX {
                Some(seed_total(self.balances@) as Balance)
            } else {
                None
            },
    {
        let mut total: Balance = zero();
        let mut i: usize = 0;
        while i < self.balances.len()
            invariant
                0 <= i <= self.balances.len(),
                total == seed_total(self.balances@.take(i as int)),
            decreases self.balances.len() - i,
        {
            let (_, free) = self.balances[i];
            proof {
                lemma_one_more_entry(self.balances@, i as int);
                lemma_seed_total_of_prefix(self.balances@, i + 1);
            }
            total = match checked_add(total, free) {
                Some(sum) => sum,
                None => {
                    return None;
                },
            };
            i = i + 1;
        }
        proof {
            assert(self.balances@.take(self.balances.len() as int) =~= self.balances@);
        }
        Some(total)
    }
}

/// Whether a genesis configuration is rejected, and why, does not depend on
/// the order in which it lists the accounts to endow.
pub proof fn lemma_rejection_ignores_order(
    one: GenesisConfig,
    other: GenesisConfig,
    config: Config,
)
    requires
        one.balances@.to_multiset() == other.balances@.to_multiset(),
        one.max_token_supply == other.max_token_supply,
    ensures
        one.rejection(config) == other.rejection(config),
{
    lemma_seed_total_ignores_order(one.balances@, other.balances@);
    if has_duplicate_account(one.balances@) {
        lemma_duplicate_account_ignores_order(one.balances@, other.balances@);
    }
    if has_duplicate_account(other.balances@) {
        lemma_duplicate_account_ignores_order(other.balances@, one.balances@);
    }
}

/// Two lists that hold the same entries, in whatever order, have the same sum.
pub proof fn lemma_seed_total_ignores_order(
    one: Seq<(AccountId, Balance)>,
    other: Seq<(AccountId, Balance)>,
)
    requires
        one.to_multiset() == other.to_multiset(),
    ensures
        seed_total(one) == seed_total(other),
    decreases one.len(),
{
    to_multiset_len(one);
    to_multiset_len(other);
    if one.len() > 0 {
        let last = one.last();
        to_multiset_contains(one, last);
        to_multiset_contains(other, last);
        let at = choose|at: int| 0 <= at < other.len() && other[at] == last;
        to_multiset_remove(one, one.len() - 1);
        to_multiset_remove(other, at);
        assert(one.remove(one.len() - 1) =~= one.drop_last());
        lemma_seed_total_ignores_order(one.drop_last(), other.remove(at));
        lemma_seed_total_remove(other, at);
    }
}

/// If a list names an account twice, so does every list that holds the same
/// entries in another order.
pub proof fn lemma_duplicate_account_ignores_order(
    one: Seq<(AccountId, Balance)>,
    other: Seq<(AccountId, Balance)>,
)
    requires
        one.to_multiset() == other.to_multiset(),
        has_duplicate_account(one),
    ensures
        has_duplicate_account(other),
{
    let (i, j) = choose|i: int, j: int| 0 <= i < j < one.len() && one[i].0 == one[j].0;
    to_multiset_contains(one, one[i]);
    to_multiset_contains(other, one[i]);
    let a = choose|a: int| 0 <= a < other.len() && other[a] == one[i];
    let b = if one[i] == one[j] {
        // The entry occurs twice in `one`, so it is still in `other` when
        // one occurrence is taken out.
        assert(one.remove(j)[i] == one[i]);
        to_multiset_contains(one.remove(j), one[i]);
        to_multiset_remove(one, j);
        to_multiset_remove(other, a);
        to_multiset_contains(other.remove(a), one[i]);
        let c = choose|c: int| 0 <= c < other.remove(a).len() && other.remove(a)[c] == one[i];
        if c < a {
            c
        } else {
            c + 1
        }
    } else {
        to_multiset_contains(one, one[j]);
        to_multiset_contains(other, one[j]);
        choose|b: int| 0 <= b < other.len() && other[b] == one[j]
    };
    // `a` and `b` are two places of `other` that name the same account.
    assert(a != b && other[a].0 == other[b].0);
}

/// Taking one entry out of a list takes its balance out of the sum.
proof fn lemma_seed_total_remove(balances: Seq<(AccountId, Balance)>, at: int)
    requires
        0 <= at < balances.len(),
    ensures
        seed_total(balances) == seed_total(balances.remove(at)) + balances[at].1,
    decreases balances.len(),
{
    if at == balances.len() - 1 {
        assert(balances.remove(at) =~= balances.drop_last());
    } else {
        assert(balances.remove(at).drop_last() =~= balances.drop_last().remove(at));
        lemma_seed_total_remove(balances.drop_last(), at);
    }
}

/// The first `n` entries of a list hold no more than the whole list.
proof fn lemma_seed_total_of_prefix(balances: Seq<(AccountId, Balance)>, n: int)
    requires
        0 <= n <= balances.len(),
    ensures
        seed_total(balances.take(n)) <= seed_total(balances),
    decreases balances.len(),
{
    if n == balances.len() {
        assert(balances.take(n) =~= balances);
    } else {
        assert(balances.drop_last().take(n) =~= balances.take(n));
        lemma_seed_total_of_prefix(balances.drop_last(), n);
    }
}

/// What the first `n + 1` entries of a list add to the first `n`: the balance
/// of the entry at `n` to the sum, its account to the accounts that occur, and
/// a duplicate if that account occurred before.
proof fn lemma_one_more_entry(balances: Seq<(AccountId, Balance)>, n: int)
    requires
        0 <= n < balances.len(),
    ensures
        seed_total(balances.take(n + 1)) == seed_total(balances.take(n)) + balances[n].1,
        forall|who: AccountId|
            is_endowed(balances.take(n + 1), who) <==> is_endowed(balances.take(n), who) || who
                == balances[n].0,
        has_duplicate_account(balances.take(n + 1)) <==> has_duplicate_account(balances.take(n))
            || is_endowed(balances.take(n), balances[n].0),
{
    let before = balances.take(n);
    let after = balances.take(n + 1);
    assert(after.drop_last() =~= before);
    assert forall|who: AccountId|
        is_endowed(after, who) <==> is_endowed(before, who) || who == balances[n].0 by {
        if is_endowed(after, who) {
            let i = choose|i: int| 0 <= i < after.len() && after[i].0 == who;
            if i < n {
                assert(before[i].0 == who);
            }
        }
        if is_endowed(before, who) {
            let i = choose|i: int| 0 <= i < before.len() && before[i].0 == who;
            assert(after[i].0 == who);
        }
        if who == balances[n].0 {
            assert(after[n].0 == who);
        }
    }
    if has_duplicate_account(after) {
        let (i, j) = choose|i: int, j: int| 0 <= i < j < after.len() && after[i].0 == after[j].0;
        if j < n {
            assert(0 <= i < j < before.len() && before[i].0 == before[j].0);
        } else {
            assert(before[i].0 == balances[n].0);
        }
    }
    if has_duplicate_account(before) {
        let (i, j) = choose|i: int, j: int|
            0 <= i < j < before.len() && before[i].0 == before[j].0;
        assert(0 <= i < j < after.len() && after[i].0 == after[j].0);
    }
    if is_endowed(before, balances[n].0) {
        let i = choose|i: int| 0 <= i < before.len() && before[i].0 == balances[n].0;
        assert(0 <= i < n < after.len() && after[i].0 == after[n].0);
    }
}

/// A duplicate among the first `n` entries of a list is a duplicate of the
/// list.
proof fn lemma_duplicate_in_prefix(balances: Seq<(AccountId, Balance)>, n: int)
    requires
        0 <= n <= balances.len(),
        has_duplicate_account(balances.take(n)),
    ensures
        has_duplicate_account(balances),
{
    let prefix = balances.take(n);
    let (i, j) = choose|i: int, j: int| 0 <= i < j < prefix.len() && prefix[i].0 == prefix[j].0;
    assert(0 <= i < j < balances.len() && balances[i].0 == balances[j].0);
}

} // verus!
