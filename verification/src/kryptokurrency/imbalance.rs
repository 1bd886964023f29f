//! Changes of the supply that are still to be applied.
//!
//! An imbalance stands for funds that were added (positive) or taken
//! (negative) somewhere while the supply in circulation was left as it was. It
//! is a value that is moved, never copied: splitting, merging and offsetting
//! consume what they are given, and `drop` settles what is left against the
//! ledger. Whoever holds an imbalance at the end settles it, once.
//!
//! Settling on a ledger whose supply was never set does not start from zero
//! on both sides: a positive imbalance sets the supply to the configured
//! maximum, a negative one sets it to zero.
use vstd::prelude::*;
use crate::arithmetic::{
    is_zero, saturating_add, saturating_difference, saturating_sub, saturating_sum, zero,
};
use crate::kryptokurrency::{Ledger, Pallet};
use crate::Balance;

verus! {

/// The two parts into which an imbalance of `magnitude` is split at `amount`:
/// the first is `amount`, or all there is, and the second is the rest.
pub open spec fn split_parts(magnitude: Balance, amount: Balance) -> (Balance, Balance) {
    if magnitude <= amount {
        (magnitude, 0)
    } else {
        (amount, (magnitude - amount) as Balance)
    }
}

/// The supply after a positive imbalance of `magnitude` was settled on a
/// ledger with the supply `total`.
pub open spec fn issuance_after_positive(
    total: Option<Balance>,
    max_token_supply: Balance,
    magnitude: Balance,
) -> Balance {
    match total {
        Some(total) => saturating_sum(total, magnitude),
        None => max_token_supply,
    }
}

/// The supply after a negative imbalance of `magnitude` was settled on a
/// ledger with the supply `total`.
pub open spec fn issuance_after_negative(total: Option<Balance>, magnitude: Balance) -> Balance {
    match total {
        Some(total) => saturating_difference(total, magnitude),
        None => 0,
    }
}

/// What is left when two opposite values were set off against each other.
#[derive(Debug, PartialEq, Eq)]
pub enum SameOrOther<A, B> {
    /// Nothing is left.
    Neither,
    /// What is left is of the kind of the value that was set off.
    Same(A),
    /// What is left is of the kind of the value that it was set off against.
    Other(B),
}

impl<A: View, B: View> View for SameOrOther<A, B> {
    type V = SameOrOther<A::V, B::V>;

    /// The same case, with the view of what it holds.
    open spec fn view(&self) -> SameOrOther<A::V, B::V> {
        match *self {
            SameOrOther::Neither => SameOrOther::Neither,
            SameOrOther::Same(rest) => SameOrOther::Same(rest@),
            SameOrOther::Other(rest) => SameOrOther::Other(rest@),
        }
    }
}

/// What is left of an imbalance of the magnitude `own` that is set off against
/// an opposite one of the magnitude `opposite`: nothing where they are equal,
/// and otherwise the difference, of the kind of the larger.
pub open spec fn set_off(own: Balance, opposite: Balance) -> SameOrOther<Balance, Balance> {
    if own == opposite {
        SameOrOther::Neither
    } else if own > opposite {
        SameOrOther::Same((own - opposite) as Balance)
    } else {
        SameOrOther::Other((opposite - own) as Balance)
    }
}

/// The supply after what is left of a positive imbalance was settled on a
/// ledger with the supply `total`: `total` itself where nothing is left.
pub open spec fn issuance_after_left_of_positive(
    left: SameOrOther<Balance, Balance>,
    total: Option<Balance>,
    max_token_supply: Balance,
) -> Option<Balance> {
    match left {
        SameOrOther::Neither => total,
        SameOrOther::Same(rest) => Some(issuance_after_positive(total, max_token_supply, rest)),
        SameOrOther::Other(rest) => Some(issuance_after_negative(total, rest)),
    }
}

/// The supply after what is left of a negative imbalance was settled on a
/// ledger with the supply `total`: `total` itself where nothing is left.
pub open spec fn issuance_after_left_of_negative(
    left: SameOrOther<Balance, Balance>,
    total: Option<Balance>,
    max_token_supply: Balance,
) -> Option<Balance> {
    match left {
        SameOrOther::Neither => total,
        SameOrOther::Same(rest) => Some(issuance_after_negative(total, rest)),
        SameOrOther::Other(rest) => Some(issuance_after_positive(total, max_token_supply, rest)),
    }
}

/// Funds that were added somewhere and by which the supply is still to grow.
#[must_use]
#[derive(Debug, PartialEq, Eq)]
pub struct PositiveImbalance(Balance);

/// Funds that were taken somewhere and by which the supply is still to
/// shrink.
#[must_use]
#[derive(Debug, PartialEq, Eq)]
pub struct NegativeImbalance(Balance);

impl View for PositiveImbalance {
    type V = Balance;

    /// The magnitude of the imbalance.
    closed spec fn view(&self) -> Balance {
        self.0
    }
}

impl View for NegativeImbalance {
    type V = Balance;

    /// The magnitude of the imbalance.
    closed spec fn view(&self) -> Balance {
        self.0
    }
}

impl Default for PositiveImbalance {
    /// The imbalance of magnitude zero.
    fn default() -> (imbalance: PositiveImbalance)
        ensures
            imbalance@ == 0,
    {
        Self::zero()
    }
}

impl Default for NegativeImbalance {
    /// The imbalance of magnitude zero.
    fn default() -> (imbalance: NegativeImbalance)
        ensures
            imbalance@ == 0,
    {
        Self::zero()
    }
}

impl PositiveImbalance {
    /// An imbalance of the magnitude `amount`.
    pub fn new(amount: Balance) -> (imbalance: PositiveImbalance)
        ensures
            imbalance@ == amount,
    {
        PositiveImbalance(amount)
    }

    /// The imbalance of magnitude zero.
    pub fn zero() -> (imbalance: PositiveImbalance)
        ensures
            imbalance@ == 0,
    {
        PositiveImbalance(zero())
    }

    /// Discards the imbalance if its magnitude is zero, and hands it back
    /// otherwise.
    pub fn try_drop(self) -> (r: Result<(), PositiveImbalance>)
        ensures
            r is Ok <==> self@ == 0,
            r matches Err(kept) ==> kept@ == self@,
    {
        self.drop_zero()
    }

    /// Discards the imbalance if its magnitude is zero, and hands it back
    /// otherwise.
    pub fn drop_zero(self) -> (r: Result<(), PositiveImbalance>)
        ensures
            r is Ok <==> self@ == 0,
            r matches Err(kept) ==> kept@ == self@,
    {
        if is_zero(self.0) {
            Ok(())
        } else {
            Err(self)
        }
    }

    /// Divides the imbalance in two: the first holds `amount`, or all there is,
    /// and the second holds the rest.
    pub fn split(self, amount: Balance) -> (parts: (PositiveImbalance, PositiveImbalance))
        ensures
            (parts.0@, parts.1@) == split_parts(self@, amount),
            parts.0@ + parts.1@ == self@,
    {
        let first = if self.0 <= amount {
            self.0
        } else {
            amount
        };
        let second = self.0 - first;
        (PositiveImbalance(first), PositiveImbalance(second))
    }

    /// Puts two imbalances together. The magnitude of the result is the sum,
    /// at most the largest balance.
    pub fn merge(self, other: PositiveImbalance) -> (merged: PositiveImbalance)
        ensures
            merged@ == saturating_sum(self@, other@),
    {
        let mut merged = self;
        merged.0 = saturating_add(merged.0, other.0);
        merged
    }

    /// Takes `other` into this imbalance. The magnitude becomes the sum, at
    /// most the largest balance.
    pub fn subsume(&mut self, other: PositiveImbalance)
        ensures
            final(self)@ == saturating_sum(old(self)@, other@),
    {
        self.0 = saturating_add(self.0, other.0);
    }

    /// Sets the imbalance off against a negative one. Equal magnitudes cancel
    /// and nothing is left; otherwise the difference is left, of the kind of
    /// the larger.
    pub fn offset(self, other: NegativeImbalance) -> (left: SameOrOther<
        PositiveImbalance,
        NegativeImbalance,
    >)
        ensures
            left@ == set_off(self@, other@),
    {
        if self.0 < other.0 {
            SameOrOther::Other(NegativeImbalance::new(other.0 - self.0))
        } else if self.0 > other.0 {
            SameOrOther::Same(PositiveImbalance::new(self.0 - other.0))
        } else {
            SameOrOther::Neither
        }
    }

    /// The magnitude of the imbalance.
    pub fn peek(&self) -> (amount: Balance)
        ensures
            amount == self@,
    {
        self.0
    }

    /// Settles the imbalance: the supply of `pallet` grows by the magnitude,
    /// up to the largest balance. A supply that was never set becomes the
    /// configured maximum.
    pub fn drop(self, pallet: &mut Pallet)
        ensures
            final(pallet)@ == (Ledger {
                total_issuance: Some(
                    issuance_after_positive(
                        old(pallet)@.total_issuance,
                        old(pallet)@.max_token_supply,
                        self@,
                    ),
                ),
                ..old(pallet)@
            }),
    {
        let total = match pallet.total_issuance() {
            Some(total) => saturating_add(total, self.0),
            None => pallet.max_token_supply(),
        };
        pallet.put_total_issuance(total);
    }
}

impl NegativeImbalance {
    /// An imbalance of the magnitude `amount`.
    pub fn new(amount: Balance) -> (imbalance: NegativeImbalance)
        ensures
            imbalance@ == amount,
    {
        NegativeImbalance(amount)
    }

    /// The imbalance of magnitude zero.
    pub fn zero() -> (imbalance: NegativeImbalance)
        ensures
            imbalance@ == 0,
    {
        NegativeImbalance(zero())
    }

    /// Discards the imbalance if its magnitude is zero, and hands it back
    /// otherwise.
    pub fn try_drop(self) -> (r: Result<(), NegativeImbalance>)
        ensures
            r is Ok <==> self@ == 0,
            r matches Err(kept) ==> kept@ == self@,
    {
        self.drop_zero()
    }

    /// Discards the imbalance if its magnitude is zero, and hands it back
    /// otherwise.
    pub fn drop_zero(self) -> (r: Result<(), NegativeImbalance>)
        ensures
            r is Ok <==> self@ == 0,
            r matches Err(kept) ==> kept@ == self@,
    {
        if is_zero(self.0) {
            Ok(())
        } else {
            Err(self)
        }
    }

    /// Divides the imbalance in two: the first holds `amount`, or all there is,
    /// and the second holds the rest.
    pub fn split(self, amount: Balance) -> (parts: (NegativeImbalance, NegativeImbalance))
        ensures
            (parts.0@, parts.1@) == split_parts(self@, amount),
            parts.0@ + parts.1@ == self@,
    {
        let first = if self.0 <= amount {
            self.0
        } else {
            amount
        };
        let second = self.0 - first;
        (NegativeImbalance(first), NegativeImbalance(second))
    }

    /// Puts two imbalances together. The magnitude of the result is the sum,
    /// at most the largest balance.
    pub fn merge(self, other: NegativeImbalance) -> (merged: NegativeImbalance)
        ensures
            merged@ == saturating_sum(self@, other@),
    {
        let mut merged = self;
        merged.0 = saturating_add(merged.0, other.0);
        merged
    }

    /// Takes `other` into this imbalance. The magnitude becomes the sum, at
    /// most the largest balance.
    pub fn subsume(&mut self, other: NegativeImbalance)
        ensures
            final(self)@ == saturating_sum(old(self)@, other@),
    {
        self.0 = saturating_add(self.0, other.0);
    }

    /// Sets the imbalance off against a positive one. Equal magnitudes cancel
    /// and nothing is left; otherwise the difference is left, of the kind of
    /// the larger.
    pub fn offset(self, other: PositiveImbalance) -> (left: SameOrOther<
        NegativeImbalance,
        PositiveImbalance,
    >)
        ensures
            left@ == set_off(self@, other@),
    {
        if self.0 < other.0 {
            SameOrOther::Other(PositiveImbalance::new(other.0 - self.0))
        } else if self.0 > other.0 {
            SameOrOther::Same(NegativeImbalance::new(self.0 - other.0))
        } else {
            SameOrOther::Neither
        }
    }

    /// The magnitude of the imbalance.
    pub fn peek(&self) -> (amount: Balance)
        ensures
            amount == self@,
    {
        self.0
    }

    /// Settles the imbalance: the supply of `pallet` shrinks by the magnitude,
    /// down to zero. A supply that was never set becomes zero.
    pub fn drop(self, pallet: &mut Pallet)
        ensures
            final(pallet)@ == (Ledger {
                total_issuance: Some(
                    issuance_after_negative(old(pallet)@.total_issuance, self@),
                ),
                ..old(pallet)@
            }),
    {
        let total = match pallet.total_issuance() {
            Some(total) => saturating_sub(total, self.0),
            None => zero(),
        };
        pallet.put_total_issuance(total);
    }
}

impl SameOrOther<PositiveImbalance, NegativeImbalance> {
    /// Settles what is left of a positive imbalance. Where nothing is left,
    /// `pallet` stays as it is.
    pub fn drop(self, pallet: &mut Pallet)
        ensures
            final(pallet)@ == (Ledger {
                total_issuance: issuance_after_left_of_positive(
                    self@,
                    old(pallet)@.total_issuance,
                    old(pallet)@.max_token_supply,
                ),
                ..old(pallet)@
            }),
    {
        match self {
            SameOrOther::Neither => {},
            SameOrOther::Same(rest) => rest.drop(pallet),
            SameOrOther::Other(rest) => rest.drop(pallet),
        }
    }
}

impl SameOrOther<NegativeImbalance, PositiveImbalance> {
    /// Settles what is left of a negative imbalance. Where nothing is left,
    /// `pallet` stays as it is.
    pub fn drop(self, pallet: &mut Pallet)
        ensures
            final(pallet)@ == (Ledger {
                total_issuance: issuance_after_left_of_negative(
                    self@,
                    old(pallet)@.total_issuance,
                    old(pallet)@.max_token_supply,
                ),
                ..old(pallet)@
            }),
    {
        match self {
            SameOrOther::Neither => {},
            SameOrOther::Same(rest) => rest.drop(pallet),
            SameOrOther::Other(rest) => rest.drop(pallet),
        }
    }
}

/// Merging the two parts of a split gives back the magnitude that was split,
/// whatever the amount it was split at, and so an imbalance that settles as
/// the one that was split would have.
pub proof fn lemma_split_then_merge(magnitude: Balance, amount: Balance)
    ensures
        saturating_sum(split_parts(magnitude, amount).0, split_parts(magnitude, amount).1)
            == magnitude,
        forall|total: Option<Balance>, max_token_supply: Balance|
            issuance_after_positive(
                total,
                max_token_supply,
                saturating_sum(split_parts(magnitude, amount).0, split_parts(magnitude, amount).1),
            ) == issuance_after_positive(total, max_token_supply, magnitude),
        forall|total: Option<Balance>|
            issuance_after_negative(
                total,
                saturating_sum(split_parts(magnitude, amount).0, split_parts(magnitude, amount).1),
            ) == issuance_after_negative(total, magnitude),
{
}

/// A positive and a negative imbalance of equal magnitude cancel, whichever
/// of the two is set off against the other: nothing is left of them, and
/// settling that leaves the supply as it is.
pub proof fn lemma_equal_opposites_cancel(
    magnitude: Balance,
    total: Option<Balance>,
    max_token_supply: Balance,
)
    ensures
        set_off(magnitude, magnitude) is Neither,
        issuance_after_left_of_positive(set_off(magnitude, magnitude), total, max_token_supply)
            == total,
        issuance_after_left_of_negative(set_off(magnitude, magnitude), total, max_token_supply)
            == total,
{
}

/// On a ledger whose supply is set, settling the two parts of a split one
/// after the other gives the supply that settling the whole would have given.
pub proof fn lemma_split_parts_settle_as_whole(
    total: Balance,
    max_token_supply: Balance,
    magnitude: Balance,
    amount: Balance,
)
    ensures
        issuance_after_positive(
            Some(
                issuance_after_positive(
                    Some(total),
                    max_token_supply,
                    split_parts(magnitude, amount).0,
                ),
            ),
            max_token_supply,
            split_parts(magnitude, amount).1,
        ) == issuance_after_positive(Some(total), max_token_supply, magnitude),
        issuance_after_negative(
            Some(issuance_after_negative(Some(total), split_parts(magnitude, amount).0)),
            split_parts(magnitude, amount).1,
        ) == issuance_after_negative(Some(total), magnitude),
{
}

/// On a ledger whose supply is set, settling a merged imbalance gives the
/// supply that settling the two that were merged, one after the other, would
/// have given.
pub proof fn lemma_merged_settles_as_both(
    total: Balance,
    max_token_supply: Balance,
    one: Balance,
    other: Balance,
)
    ensures
        issuance_after_positive(Some(total), max_token_supply, saturating_sum(one, other))
            == issuance_after_positive(
            Some(issuance_after_positive(Some(total), max_token_supply, one)),
            max_token_supply,
            other,
        ),
        issuance_after_negative(Some(total), saturating_sum(one, other))
            == issuance_after_negative(Some(issuance_after_negative(Some(total), one)), other),
{
}

} // verus!
