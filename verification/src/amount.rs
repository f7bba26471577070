//! Asset amounts: non-negative integer quantities of asset units at the
//! contract's declared precision, with arithmetic that never wraps silently.

use vstd::prelude::*;

verus! {

/// A quantity of asset units, counted at the contract's declared precision.
#[derive(Clone, Copy, Debug, PartialEq, Eq, Structural)]
pub struct Amount(pub u64);

/// Failure of supply arithmetic: the net supply would fall below zero.
#[derive(Clone, Copy, Debug, PartialEq, Eq, Structural)]
pub enum SupplyError {
    /// More units were burned than were ever issued: the state is corrupt.
    Underflow,
}

impl Amount {
    pub fn value(self) -> (r: u64)
        ensures
            r == self.0,
    {
        self.0
    }

    /// Sum of two amounts; `None` when the result does not fit in a `u64`.
    pub fn checked_add(self, other: Amount) -> (r: Option<Amount>)
        ensures
            self.0 + other.0 <= u64::MAX ==> r == Some(Amount((self.0 + other.0) as u64)),
            self.0 + other.0 > u64::MAX ==> r is None,
    {
        if self.0 <= u64::MAX - other.0 {
            Some(Amount(self.0 + other.0))
        } else {
            None
        }
    }

    /// Difference of two amounts; fails when more would be subtracted than
    /// is present, instead of wrapping around.
    pub fn checked_sub(self, other: Amount) -> (r: Result<Amount, SupplyError>)
        ensures
            other.0 <= self.0 ==> r == Ok::<Amount, SupplyError>(Amount((self.0 - other.0) as u64)),
            other.0 > self.0 ==> r == Err::<Amount, SupplyError>(SupplyError::Underflow),
    {
        if other.0 <= self.0 {
            Ok(Amount(self.0 - other.0))
        } else {
            Err(SupplyError::Underflow)
        }
    }
}

/// Mathematical sum of a sequence of amounts, free of any machine bound.
pub open spec fn amount_sum(s: Seq<Amount>) -> int
    decreases s.len(),
{
    if s.len() == 0 {
        0
    } else {
        amount_sum(s.drop_last()) + s.last().0
    }
}

/// The sum of a sequence of non-negative amounts is itself non-negative.
pub proof fn lemma_amount_sum_nonneg(s: Seq<Amount>)
    ensures
        amount_sum(s) >= 0,
    decreases s.len(),
{
    if s.len() > 0 {
        lemma_amount_sum_nonneg(s.drop_last());
    }
}

/// Exact sum of a vector of amounts, under the caller's guarantee that the
/// total fits the machine word; overflow of a supply total is a fatal
/// condition and is excluded here rather than wrapped around.
pub fn sum_amounts(v: &Vec<Amount>) -> (r: Amount)
    requires
        amount_sum(v@) <= u64::MAX,
    ensures
        r.0 == amount_sum(v@),
{
    let mut total: u64 = 0;
    let mut i: usize = 0;
    while i < v.len()
        invariant
            0 <= i <= v.len(),
            total == amount_sum(v@.take(i as int)),
            amount_sum(v@) <= u64::MAX,
        decreases v.len() - i,
    {
        proof {
            lemma_amount_sum_prefix(v@, i + 1);
            assert(v@.take(i + 1).drop_last() =~= v@.take(i as int));
            assert(v@.take(i + 1).last() == v@[i as int]);
        }
        total = total + v[i].0;
        i = i + 1;
    }
    proof {
        assert(v@.take(v@.len() as int) =~= v@);
    }
    Amount(total)
}

/// Every prefix sum of a sequence of amounts is bounded by the full sum.
pub proof fn lemma_amount_sum_prefix(s: Seq<Amount>, i: int)
    requires
        0 <= i <= s.len(),
    ensures
        amount_sum(s.take(i)) + amount_sum(s.skip(i)) == amount_sum(s),
        amount_sum(s.take(i)) <= amount_sum(s),
    decreases s.len() - i,
{
    if i == s.len() {
        assert(s.take(i) =~= s);
        assert(s.skip(i) =~= Seq::<Amount>::empty());
    } else {
        lemma_amount_sum_prefix(s, i + 1);
        assert(s.take(i + 1).drop_last() =~= s.take(i));
        assert(s.take(i + 1).last() == s[i]);
        assert(s.skip(i).drop_first() =~= s.skip(i + 1));
        lemma_amount_sum_head(s.skip(i));
        lemma_amount_sum_nonneg(s.skip(i));
    }
}

/// Unfolding a non-empty sum at its head rather than its tail.
proof fn lemma_amount_sum_head(s: Seq<Amount>)
    requires
        s.len() > 0,
    ensures
        amount_sum(s) == s[0].0 + amount_sum(s.drop_first()),
    decreases s.len(),
{
    if s.len() == 1 {
        assert(s.drop_last() =~= Seq::<Amount>::empty());
        assert(s.drop_first() =~= Seq::<Amount>::empty());
    } else {
        lemma_amount_sum_head(s.drop_last());
        assert(s.drop_last().drop_first() =~= s.drop_first().drop_last());
        assert(s.drop_first().last() == s.last());
        assert(s.drop_last()[0] == s[0]);
    }
}

} // verus!
