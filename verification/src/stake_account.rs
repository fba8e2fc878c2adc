use vstd::prelude::*;

verus! {

use crate::error::{StakeError, WithdrawalBlock};
use crate::positions::{
    cleanup_spec, has_empty_slot, is_first_empty, total_staked, Position, PositionLedger,
};
use crate::vesting::{lemma_unlocked_le_total, lemma_unlocked_monotone, VestingSchedule};

/// Escrowed balance of one stake account together with the vesting rule
/// attached to it at creation.
pub struct CustodyAccount {
    /// Tokens currently held in escrow. Increases only through an external
    /// deposit, decreases only through a successful withdrawal.
    pub total_amount: u64,
    /// Release rule; immutable once the stake account exists.
    pub vesting: VestingSchedule,
}

/// One stake account: an owner identity bound at creation to a custody
/// account and a fixed-capacity position ledger.
///
/// Every operation preserves solvency — see [`StakeAccount::well_formed`].
pub struct StakeAccount {
    owner: u64,
    custody: CustodyAccount,
    positions: PositionLedger,
}

impl StakeAccount {
    /// Proven owner identity bound at creation.
    pub closed spec fn owner_id(self) -> u64 {
        self.owner
    }

    /// Tokens currently in escrow for this account.
    pub closed spec fn custody_total(self) -> u64 {
        self.custody.total_amount
    }

    /// The vesting rule attached at creation.
    pub closed spec fn schedule(self) -> VestingSchedule {
        self.custody.vesting
    }

    /// The position slots, in storage order.
    pub closed spec fn ledger(self) -> Seq<Position> {
        self.positions@
    }

    /// Solvency invariant: the vesting schedule is well formed and the
    /// active positions never commit more than the custodied total.
    /// Established at creation and preserved by every operation.
    pub open spec fn well_formed(self) -> bool {
        &&& self.schedule().wf()
        &&& total_staked(self.ledger()) <= self.custody_total()
    }

    /// Withdrawable balance at `now`: the unlocked part of the custodied
    /// total minus the staked total, floored at zero.
    pub open spec fn withdrawable_spec(self, now: u64) -> int {
        let unlocked = self.schedule().unlocked_spec(self.custody_total(), now);
        let staked = total_staked(self.ledger());
        if unlocked >= staked {
            unlocked - staked
        } else {
            0
        }
    }

    /// The account is in its terminal state: no custodied tokens and no
    /// active position are left.
    pub open spec fn closeable_spec(self) -> bool {
        &&& self.custody_total() == 0
        &&& forall|i: int| 0 <= i < self.ledger().len() ==> self.ledger()[i].amount == 0
    }

    /// Whether the account may be closed for good. Destroying the whole
    /// stake account (outside this core) requires an empty ledger and a
    /// zero balance; no other terminal state exists.
    pub fn is_closeable(&self) -> (b: bool)
        requires
            self.well_formed(),
        ensures
            b == self.closeable_spec(),
    {
        proof {
            crate::positions::lemma_total_staked_zero(self.ledger());
        }
        self.custody.total_amount == 0 && self.positions.staked_total() == 0
    }

    /// Capability check: is `caller` the proven owner of this account?
    /// The embedding layer invokes it before every mutating operation.
    pub fn is_owner(&self, caller: u64) -> (b: bool)
        ensures
            b == (caller == self.owner_id()),
    {
        caller == self.owner
    }

    /// Reads the owner identity.
    pub fn owner(&self) -> (o: u64)
        ensures
            o == self.owner_id(),
    {
        self.owner
    }

    /// Reads the custodied total.
    pub fn total_custodied(&self) -> (n: u64)
        ensures
            n == self.custody_total(),
    {
        self.custody.total_amount
    }

    /// Reads the vesting schedule.
    pub fn vesting_schedule(&self) -> (s: VestingSchedule)
        ensures
            s == self.schedule(),
    {
        self.custody.vesting
    }

    /// Ledger capacity, fixed at creation.
    pub fn capacity(&self) -> (n: usize)
        ensures
            n == self.ledger().len(),
    {
        self.positions.capacity()
    }

    /// Reads the position slot at `index`; `None` only beyond capacity.
    pub fn position(&self, index: usize) -> (r: Option<Position>)
        ensures
            index < self.ledger().len() ==> r == Some(self.ledger()[index as int]),
            index >= self.ledger().len() ==> r is None,
    {
        self.positions.get(index)
    }

    /// Sum of the amounts committed to active positions.
    pub fn staked_amount(&self) -> (n: u64)
        requires
            self.well_formed(),
        ensures
            n == total_staked(self.ledger()),
    {
        self.positions.staked_total()
    }

    /// Computes the withdrawable balance at `now`.
    pub fn withdrawable_balance(&self, now: u64) -> (w: u64)
        requires
            self.well_formed(),
        ensures
            w == self.withdrawable_spec(now),
    {
        let unlocked = self.custody.vesting.unlocked(self.custody.total_amount, now);
        let staked = self.positions.staked_total();
        if unlocked > staked {
            unlocked - staked
        } else {
            0
        }
    }

    /// Records an external deposit into custody. Moving the tokens into
    /// escrow is the out-of-scope transfer mechanism's work; this only
    /// accounts for it.
    pub fn deposit(&mut self, amount: u64)
        requires
            old(self).well_formed(),
            old(self).custody_total() + amount <= u64::MAX,
        ensures
            final(self).well_formed(),
            final(self).custody_total() == old(self).custody_total() + amount,
            final(self).owner_id() == old(self).owner_id(),
            final(self).schedule() == old(self).schedule(),
            final(self).ledger() == old(self).ledger(),
    {
        self.custody.total_amount = self.custody.total_amount + amount;
    }

    /// Commits `amount` tokens to a new position for
    /// (`product`, `publisher`), in the lowest-indexed empty slot.
    ///
    /// Fails with `LedgerFull` when no slot is empty, and with
    /// `InsufficientUnstakedBalance` when the new position would commit
    /// more than the custodied total. On failure nothing changes.
    pub fn create_position(&mut self, product: u64, publisher: u64, amount: u64) -> (r: Result<
        usize,
        StakeError,
    >)
        requires
            old(self).well_formed(),
            amount > 0,
        ensures
            final(self).well_formed(),
            final(self).owner_id() == old(self).owner_id(),
            final(self).schedule() == old(self).schedule(),
            final(self).custody_total() == old(self).custody_total(),
            final(self).ledger().len() == old(self).ledger().len(),
            match r {
                Ok(i) => {
                    &&& is_first_empty(old(self).ledger(), i as int)
                    &&& final(self).ledger() == old(self).ledger().update(
                        i as int,
                        (Position { product, publisher, amount }),
                    )
                    &&& total_staked(final(self).ledger()) == total_staked(old(self).ledger())
                        + amount
                },
                Err(e) => {
                    &&& *final(self) == *old(self)
                    &&& {
                        ||| (e == StakeError::LedgerFull && !has_empty_slot(old(self).ledger()))
                        ||| (e == StakeError::InsufficientUnstakedBalance && has_empty_slot(
                            old(self).ledger(),
                        ) && total_staked(old(self).ledger()) + amount > old(
                            self,
                        ).custody_total())
                    }
                },
            },
            r is Ok <==> (has_empty_slot(old(self).ledger()) && total_staked(old(self).ledger())
                + amount <= old(self).custody_total()),
    {
        match self.positions.first_empty_slot() {
            None => {
                return Err(StakeError::LedgerFull);
            },
            Some(_) => {},
        }
        let staked = self.positions.staked_total();
        if amount > self.custody.total_amount - staked {
            return Err(StakeError::InsufficientUnstakedBalance);
        }
        self.positions.create(product, publisher, amount)
    }

    /// Splits off `split_amount` tokens from the position at `index` into
    /// a fresh position with the same target. The two resulting amounts
    /// sum exactly to the source amount, and the custodied total and
    /// staked total are untouched.
    pub fn split_position(&mut self, index: usize, split_amount: u64) -> (r: Result<
        usize,
        StakeError,
    >)
        requires
            old(self).well_formed(),
        ensures
            final(self).well_formed(),
            final(self).owner_id() == old(self).owner_id(),
            final(self).schedule() == old(self).schedule(),
            final(self).custody_total() == old(self).custody_total(),
            final(self).ledger().len() == old(self).ledger().len(),
            match r {
                Ok(j) => {
                    &&& index < old(self).ledger().len()
                    &&& old(self).ledger()[index as int].amount != 0
                    &&& 0 < split_amount < old(self).ledger()[index as int].amount
                    &&& is_first_empty(old(self).ledger(), j as int)
                    &&& final(self).ledger() == old(self).ledger().update(
                        index as int,
                        (Position {
                            product: old(self).ledger()[index as int].product,
                            publisher: old(self).ledger()[index as int].publisher,
                            amount: (old(self).ledger()[index as int].amount - split_amount) as u64,
                        }),
                    ).update(
                        j as int,
                        (Position {
                            product: old(self).ledger()[index as int].product,
                            publisher: old(self).ledger()[index as int].publisher,
                            amount: split_amount,
                        }),
                    )
                    &&& final(self).ledger()[index as int].amount + final(self).ledger()[
                        j as int
                    ].amount == old(self).ledger()[index as int].amount
                    &&& total_staked(final(self).ledger()) == total_staked(old(self).ledger())
                },
                Err(e) => {
                    &&& *final(self) == *old(self)
                    &&& {
                        ||| (e == StakeError::PositionNotFound && (index >= old(self).ledger().len()
                            || old(self).ledger()[index as int].amount == 0))
                        ||| (e == StakeError::InvalidSplitAmount && index < old(self).ledger().len()
                            && old(self).ledger()[index as int].amount != 0 && (split_amount == 0
                            || split_amount >= old(self).ledger()[index as int].amount))
                        ||| (e == StakeError::LedgerFull && index < old(self).ledger().len() && old(
                            self,
                        ).ledger()[index as int].amount != 0 && 0 < split_amount < old(
                            self,
                        ).ledger()[index as int].amount && !has_empty_slot(old(self).ledger()))
                    }
                },
            },
            r is Ok <==> (index < old(self).ledger().len() && old(self).ledger()[
                index as int
            ].amount != 0 && 0 < split_amount < old(self).ledger()[index as int].amount
                && has_empty_slot(old(self).ledger())),
    {
        self.positions.split(index, split_amount)
    }

    /// Closes the position at `index`, freeing its slot for reuse. Every
    /// other index stays valid.
    pub fn close_position(&mut self, index: usize) -> (r: Result<(), StakeError>)
        requires
            old(self).well_formed(),
        ensures
            final(self).well_formed(),
            final(self).owner_id() == old(self).owner_id(),
            final(self).schedule() == old(self).schedule(),
            final(self).custody_total() == old(self).custody_total(),
            final(self).ledger().len() == old(self).ledger().len(),
            match r {
                Ok(_) => {
                    &&& index < old(self).ledger().len()
                    &&& old(self).ledger()[index as int].amount != 0
                    &&& final(self).ledger() == old(self).ledger().update(
                        index as int,
                        Position::empty_spec(),
                    )
                    &&& total_staked(final(self).ledger()) == total_staked(old(self).ledger())
                        - old(self).ledger()[index as int].amount
                },
                Err(e) => {
                    &&& e == StakeError::PositionNotFound
                    &&& (index >= old(self).ledger().len() || old(self).ledger()[
                        index as int
                    ].amount == 0)
                    &&& *final(self) == *old(self)
                },
            },
            r is Ok <==> (index < old(self).ledger().len() && old(self).ledger()[
                index as int
            ].amount != 0),
    {
        self.positions.close(index)
    }

    /// Closes every active position whose (product, publisher) target
    /// occurs in `removed` — the externally decided removal predicate,
    /// passed in as an explicit list of retired targets. Idempotent.
    pub fn cleanup_positions(&mut self, removed: &Vec<(u64, u64)>)
        requires
            old(self).well_formed(),
        ensures
            final(self).well_formed(),
            final(self).owner_id() == old(self).owner_id(),
            final(self).schedule() == old(self).schedule(),
            final(self).custody_total() == old(self).custody_total(),
            final(self).ledger() == cleanup_spec(old(self).ledger(), removed@),
            final(self).ledger().len() == old(self).ledger().len(),
    {
        self.positions.cleanup(removed);
    }

    /// Withdraws `amount` tokens from custody at time `now`.
    ///
    /// Succeeds exactly when `amount` is at most the withdrawable balance;
    /// then the custodied total shrinks by `amount` and the caller owes
    /// the actual token movement to the destination. Otherwise it fails
    /// with `ExceedsWithdrawable`, telling still-vesting (the amount is
    /// not yet unlocked) from still-staked (unlocked but committed to
    /// positions), and nothing changes.
    pub fn withdraw(&mut self, amount: u64, now: u64) -> (r: Result<(), StakeError>)
        requires
            old(self).well_formed(),
        ensures
            final(self).well_formed(),
            final(self).owner_id() == old(self).owner_id(),
            final(self).schedule() == old(self).schedule(),
            final(self).ledger() == old(self).ledger(),
            match r {
                Ok(_) => {
                    &&& amount <= old(self).withdrawable_spec(now)
                    &&& final(self).custody_total() == old(self).custody_total() - amount
                },
                Err(e) => {
                    &&& *final(self) == *old(self)
                    &&& amount > old(self).withdrawable_spec(now)
                    &&& {
                        ||| (e == StakeError::ExceedsWithdrawable(WithdrawalBlock::StillVesting)
                            && amount > old(self).schedule().unlocked_spec(
                            old(self).custody_total(),
                            now,
                        ))
                        ||| (e == StakeError::ExceedsWithdrawable(WithdrawalBlock::StillStaked)
                            && amount <= old(self).schedule().unlocked_spec(
                            old(self).custody_total(),
                            now,
                        ))
                    }
                },
            },
            r is Ok <==> amount <= old(self).withdrawable_spec(now),
    {
        let unlocked = self.custody.vesting.unlocked(self.custody.total_amount, now);
        let staked = self.positions.staked_total();
        let withdrawable = if unlocked > staked {
            unlocked - staked
        } else {
            0
        };
        if amount > withdrawable {
            if amount > unlocked {
                Err(StakeError::ExceedsWithdrawable(WithdrawalBlock::StillVesting))
            } else {
                Err(StakeError::ExceedsWithdrawable(WithdrawalBlock::StillStaked))
            }
        } else {
            proof {
                lemma_unlocked_le_total(self.custody.vesting, self.custody.total_amount, now);
            }
            self.custody.total_amount = self.custody.total_amount - amount;
            Ok(())
        }
    }
}

/// Creates a stake account: the given owner, a zero custody balance, and a
/// ledger of `capacity` empty slots, bound together once and for all.
/// Rejects a malformed vesting schedule with `InvalidSchedule`.
pub fn create_stake_account(owner: u64, vesting: VestingSchedule, capacity: usize) -> (r: Result<
    StakeAccount,
    StakeError,
>)
    ensures
        r is Ok <==> vesting.wf(),
        r is Err ==> r->Err_0 == StakeError::InvalidSchedule,
        r is Ok ==> {
            &&& r->Ok_0.owner_id() == owner
            &&& r->Ok_0.custody_total() == 0
            &&& r->Ok_0.schedule() == vesting
            &&& r->Ok_0.ledger().len() == capacity
            &&& forall|i: int|
                0 <= i < capacity ==> r->Ok_0.ledger()[i] == Position::empty_spec()
            &&& total_staked(r->Ok_0.ledger()) == 0
            &&& r->Ok_0.well_formed()
        },
{
    if !vesting.is_well_formed() {
        return Err(StakeError::InvalidSchedule);
    }
    let positions = PositionLedger::new(capacity);
    Ok(
        StakeAccount {
            owner,
            custody: CustodyAccount { total_amount: 0, vesting },
            positions,
        },
    )
}

/// Withdrawable-monotonicity law: with the position set and custody fixed,
/// the withdrawable balance never decreases as time advances.
pub proof fn lemma_withdrawable_monotone(account: StakeAccount, t1: u64, t2: u64)
    requires
        account.well_formed(),
        t1 <= t2,
    ensures
        account.withdrawable_spec(t1) <= account.withdrawable_spec(t2),
{
    lemma_unlocked_monotone(account.schedule(), account.custody_total(), t1, t2);
}

} // verus!
