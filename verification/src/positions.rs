use vstd::pervasive::VecAdditionalExecFns;
use vstd::prelude::*;

verus! {

use crate::error::StakeError;

/// An amount of custodied tokens committed to one (product, publisher)
/// target. A position with `amount == 0` is an empty slot: logically
/// absent, its storage free for reuse.
#[derive(Clone, Copy, Debug, PartialEq, Eq, Structural)]
pub struct Position {
    /// Opaque identifier of the product the commitment targets.
    pub product: u64,
    /// Opaque identifier of the publisher the commitment targets.
    pub publisher: u64,
    /// Committed amount; zero marks the slot as empty.
    pub amount: u64,
}

impl Position {
    /// The canonical content of an unused slot.
    pub open spec fn empty_spec() -> Position {
        Position { product: 0, publisher: 0, amount: 0 }
    }

    /// Whether this slot holds a live commitment.
    pub open spec fn is_active(self) -> bool {
        self.amount != 0
    }

    /// Builds the canonical empty slot.
    pub fn empty() -> (p: Position)
        ensures
            p == Position::empty_spec(),
    {
        Position { product: 0, publisher: 0, amount: 0 }
    }
}

/// Sum of the amounts of every slot (empty slots contribute zero).
pub open spec fn total_staked(s: Seq<Position>) -> int
    decreases s.len(),
{
    if s.len() == 0 {
        0
    } else {
        total_staked(s.drop_last()) + s.last().amount
    }
}

/// Slot `i` is the lowest-indexed empty slot of `s`.
pub open spec fn is_first_empty(s: Seq<Position>, i: int) -> bool {
    &&& 0 <= i < s.len()
    &&& s[i].amount == 0
    &&& forall|j: int| 0 <= j < i ==> s[j].amount != 0
}

/// Some slot of `s` is empty.
pub open spec fn has_empty_slot(s: Seq<Position>) -> bool {
    exists|i: int| 0 <= i < s.len() && s[i].amount == 0
}

/// A staked total is never negative.
pub proof fn lemma_total_staked_nonneg(s: Seq<Position>)
    ensures
        0 <= total_staked(s),
    decreases s.len(),
{
    if s.len() > 0 {
        lemma_total_staked_nonneg(s.drop_last());
    }
}

/// A staked total of zero means every slot is empty, and conversely.
pub proof fn lemma_total_staked_zero(s: Seq<Position>)
    ensures
        (total_staked(s) == 0) <==> (forall|i: int| 0 <= i < s.len() ==> s[i].amount == 0),
    decreases s.len(),
{
    if s.len() > 0 {
        lemma_total_staked_zero(s.drop_last());
        lemma_total_staked_nonneg(s.drop_last());
        assert(forall|i: int| 0 <= i < s.len() - 1 ==> s.drop_last()[i] == s[i]);
        assert(s.last() == s[s.len() - 1]);
    }
}

/// Appending a slot adds exactly its amount to the staked total.
pub proof fn lemma_total_staked_push(s: Seq<Position>, p: Position)
    ensures
        total_staked(s.push(p)) == total_staked(s) + p.amount,
{
    assert(s.push(p).drop_last() =~= s);
}

/// Overwriting slot `i` shifts the staked total by the difference of the
/// two amounts.
pub proof fn lemma_total_staked_update(s: Seq<Position>, i: int, p: Position)
    requires
        0 <= i < s.len(),
    ensures
        total_staked(s.update(i, p)) == total_staked(s) - s[i].amount + p.amount,
    decreases s.len(),
{
    if i == s.len() - 1 {
        assert(s.update(i, p).drop_last() =~= s.drop_last());
    } else {
        assert(s.update(i, p).drop_last() =~= s.drop_last().update(i, p));
        lemma_total_staked_update(s.drop_last(), i, p);
    }
}

/// A prefix never stakes more than the whole sequence.
pub proof fn lemma_total_staked_prefix(s: Seq<Position>, j: int)
    requires
        0 <= j <= s.len(),
    ensures
        total_staked(s.subrange(0, j)) <= total_staked(s),
    decreases s.len() - j,
{
    if j == s.len() {
        assert(s.subrange(0, j) =~= s);
    } else {
        assert(s.subrange(0, j + 1).drop_last() =~= s.subrange(0, j));
        lemma_total_staked_prefix(s, j + 1);
    }
}

/// Ordered, fixed-capacity sequence of position slots for one stake
/// account.
///
/// The capacity is fixed at creation: operations that would need another
/// slot fail with [`StakeError::LedgerFull`] instead of resizing. Slots are
/// addressed by index and indices are stable: closing a position only
/// empties its own slot. New positions always take the lowest-indexed
/// empty slot.
pub struct PositionLedger {
    slots: Vec<Position>,
}

impl View for PositionLedger {
    type V = Seq<Position>;

    closed spec fn view(&self) -> Seq<Position> {
        self.slots@
    }
}

impl PositionLedger {
    /// Builds a ledger of `capacity` empty slots.
    pub fn new(capacity: usize) -> (l: PositionLedger)
        ensures
            l@.len() == capacity,
            forall|i: int| 0 <= i < capacity ==> l@[i] == Position::empty_spec(),
            total_staked(l@) == 0,
    {
        let mut slots: Vec<Position> = Vec::new();
        while slots.len() < capacity
            invariant
                slots.len() <= capacity,
                forall|i: int| 0 <= i < slots.len() ==> slots@[i] == Position::empty_spec(),
                total_staked(slots@) == 0,
            decreases capacity - slots.len(),
        {
            proof {
                lemma_total_staked_push(slots@, Position::empty_spec());
            }
            slots.push(Position::empty());
        }
        PositionLedger { slots }
    }

    /// Number of slots, fixed at creation.
    pub fn capacity(&self) -> (n: usize)
        ensures
            n == self@.len(),
    {
        self.slots.len()
    }

    /// Reads slot `index`, empty or not; `None` only beyond capacity.
    pub fn get(&self, index: usize) -> (r: Option<Position>)
        ensures
            index < self@.len() ==> r == Some(self@[index as int]),
            index >= self@.len() ==> r is None,
    {
        if index < self.slots.len() {
            Some(self.slots[index])
        } else {
            None
        }
    }

    /// Sums the amounts of every slot.
    pub fn staked_total(&self) -> (n: u64)
        requires
            total_staked(self@) <= u64::MAX,
        ensures
            n == total_staked(self@),
    {
        let mut acc: u64 = 0;
        let mut i: usize = 0;
        let n = self.slots.len();
        while i < n
            invariant
                i <= n,
                n == self@.len(),
                total_staked(self@) <= u64::MAX,
                acc == total_staked(self@.subrange(0, i as int)),
            decreases n - i,
        {
            proof {
                assert(self@.subrange(0, i + 1).drop_last() =~= self@.subrange(0, i as int));
                lemma_total_staked_prefix(self@, i + 1);
                lemma_total_staked_nonneg(self@.subrange(0, i as int));
            }
            acc = acc + self.slots[i].amount;
            i = i + 1;
        }
        proof {
            assert(self@.subrange(0, n as int) =~= self@);
        }
        acc
    }

    /// Finds the lowest-indexed empty slot, if any.
    pub fn first_empty_slot(&self) -> (r: Option<usize>)
        ensures
            match r {
                Some(i) => is_first_empty(self@, i as int),
                None => !has_empty_slot(self@),
            },
    {
        let mut i: usize = 0;
        let n = self.slots.len();
        while i < n
            invariant
                i <= n,
                n == self@.len(),
                forall|j: int| 0 <= j < i ==> self@[j].amount != 0,
            decreases n - i,
        {
            if self.slots[i].amount == 0 {
                return Some(i);
            }
            i = i + 1;
        }
        None
    }

    /// Creates a position for `amount` tokens committed to
    /// (`product`, `publisher`) in the lowest-indexed empty slot.
    ///
    /// The solvency check against the custodied total is the caller's:
    /// this ledger-level operation only places the position.
    pub fn create(&mut self, product: u64, publisher: u64, amount: u64) -> (r: Result<
        usize,
        StakeError,
    >)
        requires
            amount > 0,
        ensures
            final(self)@.len() == old(self)@.len(),
            match r {
                Ok(i) => is_first_empty(old(self)@, i as int) && final(self)@ == old(self)@.update(
                    i as int,
                    (Position { product, publisher, amount }),
                ) && total_staked(final(self)@) == total_staked(old(self)@) + amount,
                Err(e) => e == StakeError::LedgerFull && !has_empty_slot(old(self)@) && *final(self)
                    == *old(self),
            },
            r is Ok <==> has_empty_slot(old(self)@),
    {
        match self.first_empty_slot() {
            Some(i) => {
                proof {
                    lemma_total_staked_update(
                        self@,
                        i as int,
                        Position { product, publisher, amount },
                    );
                }
                self.slots.set(i, Position { product, publisher, amount });
                Ok(i)
            },
            None => Err(StakeError::LedgerFull),
        }
    }

    /// Moves `split_amount` tokens out of the position at `index` into a
    /// fresh position with the same (product, publisher) target, placed in
    /// the lowest-indexed empty slot.
    ///
    /// The split amount must be positive and strictly less than the source
    /// amount, so the source position stays active. No tokens are created
    /// or lost: the two resulting amounts sum exactly to the source amount.
    pub fn split(&mut self, index: usize, split_amount: u64) -> (r: Result<usize, StakeError>)
        ensures
            final(self)@.len() == old(self)@.len(),
            match r {
                Ok(j) => {
                    &&& index < old(self)@.len()
                    &&& old(self)@[index as int].amount != 0
                    &&& 0 < split_amount < old(self)@[index as int].amount
                    &&& is_first_empty(old(self)@, j as int)
                    &&& final(self)@ == old(self)@.update(
                        index as int,
                        (Position {
                            product: old(self)@[index as int].product,
                            publisher: old(self)@[index as int].publisher,
                            amount: (old(self)@[index as int].amount - split_amount) as u64,
                        }),
                    ).update(
                        j as int,
                        (Position {
                            product: old(self)@[index as int].product,
                            publisher: old(self)@[index as int].publisher,
                            amount: split_amount,
                        }),
                    )
                    &&& final(self)@[index as int].amount + final(self)@[j as int].amount == old(
                        self,
                    )@[index as int].amount
                    &&& total_staked(final(self)@) == total_staked(old(self)@)
                },
                Err(e) => {
                    &&& *final(self) == *old(self)
                    &&& {
                        ||| (e == StakeError::PositionNotFound
                            && (index >= old(self)@.len() || old(self)@[index as int].amount == 0))
                        ||| (e == StakeError::InvalidSplitAmount
                            && index < old(self)@.len()
                            && old(self)@[index as int].amount != 0
                            && (split_amount == 0 || split_amount >= old(self)@[index as int].amount))
                        ||| (e == StakeError::LedgerFull
                            && index < old(self)@.len()
                            && old(self)@[index as int].amount != 0
                            && 0 < split_amount < old(self)@[index as int].amount
                            && !has_empty_slot(old(self)@))
                    }
                },
            },
            r is Ok <==> (index < old(self)@.len() && old(self)@[index as int].amount != 0 && 0
                < split_amount < old(self)@[index as int].amount && has_empty_slot(old(self)@)),
    {
        if index >= self.slots.len() || self.slots[index].amount == 0 {
            return Err(StakeError::PositionNotFound);
        }
        let src = self.slots[index];
        if split_amount == 0 || split_amount >= src.amount {
            return Err(StakeError::InvalidSplitAmount);
        }
        match self.first_empty_slot() {
            None => Err(StakeError::LedgerFull),
            Some(j) => {
                let remainder = src.amount - split_amount;
                let shrunk = Position {
                    product: src.product,
                    publisher: src.publisher,
                    amount: remainder,
                };
                let carved = Position {
                    product: src.product,
                    publisher: src.publisher,
                    amount: split_amount,
                };
                proof {
                    lemma_total_staked_update(self@, index as int, shrunk);
                    lemma_total_staked_update(self@.update(index as int, shrunk), j as int, carved);
                }
                self.slots.set(index, shrunk);
                self.slots.set(j, carved);
                Ok(j)
            },
        }
    }

    /// Closes the position at `index`: its amount drops to zero and the
    /// slot is immediately free for reuse. All other indices stay valid.
    pub fn close(&mut self, index: usize) -> (r: Result<(), StakeError>)
        ensures
            final(self)@.len() == old(self)@.len(),
            match r {
                Ok(_) => {
                    &&& index < old(self)@.len()
                    &&& old(self)@[index as int].amount != 0
                    &&& final(self)@ == old(self)@.update(index as int, Position::empty_spec())
                    &&& total_staked(final(self)@) == total_staked(old(self)@) - old(self)@[index as int].amount
                },
                Err(e) => {
                    &&& e == StakeError::PositionNotFound
                    &&& (index >= old(self)@.len() || old(self)@[index as int].amount == 0)
                    &&& *final(self) == *old(self)
                },
            },
            r is Ok <==> (index < old(self)@.len() && old(self)@[index as int].amount != 0),
    {
        if index >= self.slots.len() || self.slots[index].amount == 0 {
            return Err(StakeError::PositionNotFound);
        }
        proof {
            lemma_total_staked_update(self@, index as int, Position::empty_spec());
        }
        self.slots.set(index, Position::empty());
        Ok(())
    }

    /// Closes every active position whose (product, publisher) target
    /// occurs in `removed` — the removal predicate, supplied by the caller
    /// as an explicit list of retired targets. Idempotent: a second run
    /// with the same list changes nothing.
    pub fn cleanup(&mut self, removed: &Vec<(u64, u64)>)
        ensures
            final(self)@ == cleanup_spec(old(self)@, removed@),
            final(self)@.len() == old(self)@.len(),
            total_staked(final(self)@) <= total_staked(old(self)@),
    {
        let n = self.slots.len();
        let mut i: usize = 0;
        while i < n
            invariant
                i <= n,
                n == self@.len(),
                self@.len() == old(self)@.len(),
                forall|j: int|
                    0 <= j < i ==> self@[j] == cleanup_spec(old(self)@, removed@)[j],
                forall|j: int| i <= j < n ==> self@[j] == old(self)@[j],
            decreases n - i,
        {
            let p = self.slots[i];
            if p.amount != 0 && target_listed_exec(removed, p.product, p.publisher) {
                self.slots.set(i, Position::empty());
            }
            i = i + 1;
        }
        proof {
            assert(self@ =~= cleanup_spec(old(self)@, removed@));
            lemma_total_staked_pointwise_le(cleanup_spec(old(self)@, removed@), old(self)@);
        }
    }
}

/// The pair (`product`, `publisher`) occurs in `removed`.
pub open spec fn target_listed(product: u64, publisher: u64, removed: Seq<(u64, u64)>) -> bool {
    exists|k: int| 0 <= k < removed.len() && removed[k] == (product, publisher)
}

/// Ledger contents after closing every active position whose target is
/// listed in `removed`.
pub open spec fn cleanup_spec(s: Seq<Position>, removed: Seq<(u64, u64)>) -> Seq<Position> {
    Seq::new(
        s.len(),
        |i: int|
            if s[i].amount != 0 && target_listed(s[i].product, s[i].publisher, removed) {
                Position::empty_spec()
            } else {
                s[i]
            },
    )
}

/// Scans `removed` for the pair (`product`, `publisher`).
fn target_listed_exec(removed: &Vec<(u64, u64)>, product: u64, publisher: u64) -> (b: bool)
    ensures
        b == target_listed(product, publisher, removed@),
{
    let mut k: usize = 0;
    let n = removed.len();
    while k < n
        invariant
            k <= n,
            n == removed@.len(),
            forall|m: int| 0 <= m < k ==> removed@[m] != (product, publisher),
        decreases n - k,
    {
        let entry = removed[k];
        if entry.0 == product && entry.1 == publisher {
            proof {
                assert(removed@[k as int] == (product, publisher));
            }
            return true;
        }
        k = k + 1;
    }
    false
}

/// Cleanup idempotence law: running a cleanup twice with the same removal
/// list leaves the ledger exactly as the first run left it.
pub proof fn lemma_cleanup_idempotent(s: Seq<Position>, removed: Seq<(u64, u64)>)
    ensures
        cleanup_spec(cleanup_spec(s, removed), removed) == cleanup_spec(s, removed),
{
    let once = cleanup_spec(s, removed);
    assert forall|i: int| 0 <= i < once.len() implies cleanup_spec(once, removed)[i] == once[i] by {
        if s[i].amount != 0 && target_listed(s[i].product, s[i].publisher, removed) {
            assert(once[i] == Position::empty_spec());
        }
    }
    assert(cleanup_spec(once, removed) =~= once);
}

/// The active positions of `s` occupy exactly the slots below `k`.
pub open spec fn filled_prefix(s: Seq<Position>, k: int) -> bool {
    forall|i: int| 0 <= i < s.len() ==> (s[i].amount != 0 <==> i < k)
}

/// Slot-determinism law: while the active positions fill exactly the slots
/// below `k`, slot `k` is the one slot the next creation can take, and
/// writing an active position there fills the slots below `k + 1`.
/// Starting from an empty ledger, successive creations therefore take
/// slots 0, 1, ..., N-1 in order.
pub proof fn lemma_slot_determinism(s: Seq<Position>, k: int, p: Position)
    requires
        0 <= k < s.len(),
        filled_prefix(s, k),
        p.amount != 0,
    ensures
        is_first_empty(s, k),
        forall|i: int| is_first_empty(s, i) ==> i == k,
        filled_prefix(s.update(k, p), k + 1),
{
    assert forall|i: int| is_first_empty(s, i) implies i == k by {
        if i < k {
            assert(s[i].amount != 0);
        }
        if i > k {
            assert(s[k].amount == 0);
        }
    }
}

/// Lowering amounts slot by slot can only lower the staked total.
pub proof fn lemma_total_staked_pointwise_le(s1: Seq<Position>, s2: Seq<Position>)
    requires
        s1.len() == s2.len(),
        forall|i: int| 0 <= i < s1.len() ==> s1[i].amount <= s2[i].amount,
    ensures
        total_staked(s1) <= total_staked(s2),
    decreases s1.len(),
{
    if s1.len() > 0 {
        lemma_total_staked_pointwise_le(s1.drop_last(), s2.drop_last());
    }
}

} // verus!
