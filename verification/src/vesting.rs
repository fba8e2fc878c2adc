use vstd::arithmetic::div_mod::{lemma_div_is_ordered, lemma_div_pos_is_pos, lemma_div_by_multiple};
use vstd::arithmetic::mul::{
    lemma_mul_inequality, lemma_mul_is_commutative, lemma_mul_nonnegative, lemma_mul_upper_bound,
};
use vstd::prelude::*;

verus! {

use crate::error::StakeError;

/// Time-based release rule for a custodied deposit.
///
/// A schedule is a pure function of time: `unlocked(total, now)` says how
/// much of a deposit of `total` may leave custody at time `now`. It is
/// immutable once created, monotone in `now`, never exceeds `total`, and
/// reaches `total` at full maturity.
#[derive(Clone, Copy, Debug, PartialEq, Eq, Structural)]
pub enum VestingSchedule {
    /// The whole deposit is unlocked from the start.
    FullyVested,
    /// Nothing is unlocked before `unlock_time`; everything at or after it.
    Cliff { unlock_time: u64 },
    /// The unlocked share grows linearly from none at `start` to the whole
    /// deposit at `end`.
    Linear { start: u64, end: u64 },
}

impl VestingSchedule {
    /// A schedule is well formed unless its parameters are contradictory:
    /// a linear ramp must end strictly after it starts.
    pub open spec fn wf(self) -> bool {
        match self {
            VestingSchedule::Linear { start, end } => start < end,
            _ => true,
        }
    }

    /// How much of a deposit of `total` is unlocked at time `now`.
    pub open spec fn unlocked_spec(self, total: u64, now: u64) -> int {
        match self {
            VestingSchedule::FullyVested => total as int,
            VestingSchedule::Cliff { unlock_time } => {
                if now >= unlock_time {
                    total as int
                } else {
                    0
                }
            },
            VestingSchedule::Linear { start, end } => {
                if now <= start {
                    0
                } else if now >= end {
                    total as int
                } else {
                    (total as int * (now - start)) / (end - start)
                }
            },
        }
    }

    /// Builds a schedule with no lock at all.
    pub fn new_fully_vested() -> (s: VestingSchedule)
        ensures
            s == VestingSchedule::FullyVested,
            s.wf(),
    {
        VestingSchedule::FullyVested
    }

    /// Builds a single-cliff schedule: the whole deposit unlocks at
    /// `unlock_time`.
    pub fn new_cliff(unlock_time: u64) -> (s: VestingSchedule)
        ensures
            s == (VestingSchedule::Cliff { unlock_time }),
            s.wf(),
    {
        VestingSchedule::Cliff { unlock_time }
    }

    /// Builds a linear schedule unlocking from none at `start` to all at
    /// `end`; rejects a ramp of zero or negative length.
    pub fn new_linear(start: u64, end: u64) -> (r: Result<VestingSchedule, StakeError>)
        ensures
            r is Ok <==> start < end,
            r is Ok ==> r->Ok_0 == (VestingSchedule::Linear { start, end }) && r->Ok_0.wf(),
            r is Err ==> r->Err_0 == StakeError::InvalidSchedule,
    {
        if start < end {
            Ok(VestingSchedule::Linear { start, end })
        } else {
            Err(StakeError::InvalidSchedule)
        }
    }

    /// Reports whether the schedule's parameters are well formed.
    pub fn is_well_formed(&self) -> (b: bool)
        ensures
            b == self.wf(),
    {
        match self {
            VestingSchedule::Linear { start, end } => start < end,
            _ => true,
        }
    }

    /// Computes the unlocked amount at time `now` for a deposit of `total`.
    pub fn unlocked(&self, total: u64, now: u64) -> (r: u64)
        requires
            self.wf(),
        ensures
            r == self.unlocked_spec(total, now),
    {
        match self {
            VestingSchedule::FullyVested => total,
            VestingSchedule::Cliff { unlock_time } => {
                if now >= *unlock_time {
                    total
                } else {
                    0
                }
            },
            VestingSchedule::Linear { start, end } => {
                if now <= *start {
                    0
                } else if now >= *end {
                    total
                } else {
                    proof {
                        lemma_mul_upper_bound(
                            total as int,
                            u64::MAX as int,
                            (now - *start) as int,
                            u64::MAX as int,
                        );
                    }
                    let num: u128 = (total as u128) * ((now - *start) as u128);
                    let den: u128 = (*end - *start) as u128;
                    let q: u128 = num / den;
                    proof {
                        lemma_unlocked_le_total(*self, total, now);
                    }
                    q as u64
                }
            },
        }
    }
}

/// The unlocked amount never falls below zero nor exceeds the deposit.
pub proof fn lemma_unlocked_le_total(s: VestingSchedule, total: u64, now: u64)
    requires
        s.wf(),
    ensures
        0 <= s.unlocked_spec(total, now) <= total,
{
    match s {
        VestingSchedule::FullyVested => {},
        VestingSchedule::Cliff { unlock_time } => {},
        VestingSchedule::Linear { start, end } => {
            if start < now < end {
                let t = total as int;
                let ramp = end - start;
                lemma_mul_nonnegative(t, now - start);
                lemma_div_pos_is_pos(t * (now - start), ramp);
                lemma_mul_inequality(now - start, ramp, t);
                lemma_mul_is_commutative(t, now - start);
                lemma_mul_is_commutative(t, ramp);
                lemma_div_is_ordered(t * (now - start), t * ramp, ramp);
                lemma_div_by_multiple(t, ramp);
            }
        },
    }
}

/// Vesting monotonicity: as time advances, the unlocked amount never
/// decreases.
pub proof fn lemma_unlocked_monotone(s: VestingSchedule, total: u64, t1: u64, t2: u64)
    requires
        s.wf(),
        t1 <= t2,
    ensures
        s.unlocked_spec(total, t1) <= s.unlocked_spec(total, t2),
{
    lemma_unlocked_le_total(s, total, t1);
    lemma_unlocked_le_total(s, total, t2);
    match s {
        VestingSchedule::FullyVested => {},
        VestingSchedule::Cliff { unlock_time } => {},
        VestingSchedule::Linear { start, end } => {
            if start < t1 < end && start < t2 < end {
                let t = total as int;
                lemma_mul_inequality(t1 - start, t2 - start, t);
                lemma_mul_is_commutative(t, t1 - start);
                lemma_mul_is_commutative(t, t2 - start);
                lemma_div_is_ordered(t * (t1 - start), t * (t2 - start), end - start);
            }
        },
    }
}

} // verus!
