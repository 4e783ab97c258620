//! The seed of a watermark, and the record of the durable store that it follows from.

use crate::cache::is_position;
use vstd::prelude::*;

verus! {

/// The least whole number that is not below `sum / count`, for a `count` above zero.
pub open spec fn ceil_div(sum: int, count: int) -> int {
    (sum + count - 1) / count
}

/// The watermark that a channel starts from when the cache knows none: one above the
/// mean of the positions that the durable store holds, rounded up, and 1 for a channel
/// without messages.
pub open spec fn seed_of(sum: int, count: int) -> int {
    if count == 0 {
        1
    } else {
        ceil_div(sum, count) + 1
    }
}

/// `ceil_div(sum, count)` is the one number `q` with `(q - 1) * count < sum <= q * count`.
pub proof fn lemma_ceil_div(sum: int, count: int, q: int)
    requires
        count > 0,
    ensures
        q == ceil_div(sum, count) <==> (q - 1) * count < sum <= q * count,
{
    let c = ceil_div(sum, count);
    vstd::arithmetic::div_mod::lemma_fundamental_div_mod(sum + count - 1, count);
    vstd::arithmetic::div_mod::lemma_mod_bound(sum + count - 1, count);
    assert((c - 1) * count < sum <= c * count) by (nonlinear_arith)
        requires
            count > 0,
            sum + count - 1 == count * c + (sum + count - 1) % count,
            0 <= (sum + count - 1) % count < count,
    ;
    if (q - 1) * count < sum <= q * count {
        assert(q == c) by (nonlinear_arith)
            requires
                count > 0,
                (q - 1) * count < sum <= q * count,
                (c - 1) * count < sum <= c * count,
        ;
    }
}

/// What the durable store reports of a channel: the sum of the positions of its
/// messages, and how many there are. The seed that follows from it is a position.
#[derive(Clone, Copy, Debug, PartialEq, Eq)]
pub struct DurableAggregate {
    sum: i64,
    count: u64,
    seed: i32,
}

impl DurableAggregate {
    /// The sum of the positions.
    pub closed spec fn spec_sum(self) -> int {
        self.sum as int
    }

    /// The number of positions.
    pub closed spec fn spec_count(self) -> int {
        self.count as int
    }

    /// The watermark that the channel starts from.
    pub open spec fn seed(self) -> int {
        seed_of(self.spec_sum(), self.spec_count())
    }

    /// Whether the record is one that [`DurableAggregate::new`] gives out. Every record
    /// that a program holds is.
    #[verifier::type_invariant]
    pub closed spec fn wf(self) -> bool {
        self.seed as int == seed_of(self.sum as int, self.count as int)
    }

    /// In a record that `new` gave out the seed is a position.
    pub proof fn lemma_wf(self)
        requires
            self.wf(),
        ensures
            is_position(self.seed()),
    {
    }

    /// The sum of the positions.
    pub fn sum(&self) -> (sum: i64)
        ensures
            sum == self.spec_sum(),
    {
        self.sum
    }

    /// The number of positions.
    pub fn count(&self) -> (count: u64)
        ensures
            count == self.spec_count(),
    {
        self.count
    }

    /// The watermark that the channel starts from.
    pub fn initial_pos(&self) -> (seed: i32)
        ensures
            seed == self.seed(),
            self.wf(),
    {
        proof {
            use_type_invariant(self);
        }
        self.seed
    }

    /// The record for the given sum and count, unless the seed that follows from them
    /// is no position.
    pub fn new(sum: i64, count: u64) -> (aggregate: Option<DurableAggregate>)
        ensures
            aggregate is Some <==> is_position(seed_of(sum as int, count as int)),
            aggregate matches Some(a) ==> a.wf() && a.spec_sum() == sum && a.spec_count()
                == count,
    {
        if count == 0 {
            return Some(DurableAggregate { sum, count, seed: 1 });
        }
        let divisor: u128 = count as u128;
        let quotient: i128 = if sum > 0 {
            let dividend: u128 = sum as u128 + divisor - 1;
            (dividend / divisor) as i128
        } else {
            let magnitude: u128 = (-(sum as i128)) as u128;
            proof {
                lemma_ceil_div_of_negative(magnitude as int, divisor as int);
            }
            -((magnitude / divisor) as i128)
        };
        assert(quotient == ceil_div(sum as int, count as int));
        if quotient < i32::MIN as i128 - 1 || quotient > i32::MAX as i128 - 1 {
            return None;
        }
        Some(DurableAggregate { sum, count, seed: (quotient + 1) as i32 })
    }
}

/// For a number that is not above zero, rounding the quotient up is rounding the
/// quotient of its magnitude down.
proof fn lemma_ceil_div_of_negative(magnitude: int, count: int)
    requires
        magnitude >= 0,
        count > 0,
    ensures
        ceil_div(-magnitude, count) == -(magnitude / count),
{
    vstd::arithmetic::div_mod::lemma_fundamental_div_mod(magnitude, count);
    vstd::arithmetic::div_mod::lemma_mod_bound(magnitude, count);
    let k = magnitude / count;
    assert((-k - 1) * count < -magnitude <= (-k) * count) by (nonlinear_arith)
        requires
            count > 0,
            magnitude == count * k + magnitude % count,
            0 <= magnitude % count < count,
    ;
    lemma_ceil_div(-magnitude, count, -k);
}

} // verus!
