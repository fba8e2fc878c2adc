use staking::error::StakeError;
use staking::positions::{Position, PositionLedger};

fn slots_of(l: &PositionLedger) -> Vec<Position> {
    let mut out = Vec::new();
    let mut i = 0;
    while let Some(p) = l.get(i) {
        out.push(p);
        i += 1;
    }
    out
}

#[test]
fn new_ledger_is_all_empty() {
    let l = PositionLedger::new(4);
    assert_eq!(l.capacity(), 4);
    for i in 0..4 {
        let p = l.get(i).unwrap();
        assert_eq!(p.amount, 0);
        assert_eq!(p.product, 0);
        assert_eq!(p.publisher, 0);
    }
    assert_eq!(l.get(4), None);
    assert_eq!(l.staked_total(), 0);
}

#[test]
fn slot_determinism_from_empty() {
    let mut l = PositionLedger::new(5);
    for n in 0..5u64 {
        let idx = l.create(n, n + 100, 10 + n).unwrap();
        assert_eq!(idx, n as usize);
    }
    assert_eq!(l.first_empty_slot(), None);
}

#[test]
fn create_writes_the_position() {
    let mut l = PositionLedger::new(2);
    let idx = l.create(7, 8, 90).unwrap();
    assert_eq!(idx, 0);
    let p = l.get(0).unwrap();
    assert_eq!((p.product, p.publisher, p.amount), (7, 8, 90));
    assert_eq!(l.staked_total(), 90);
}

#[test]
fn split_conservation() {
    let mut l = PositionLedger::new(3);
    let src = l.create(1, 2, 100).unwrap();
    let neu = l.split(src, 40).unwrap();
    assert_eq!(neu, 1);
    let a = l.get(src).unwrap();
    let b = l.get(neu).unwrap();
    assert_eq!(a.amount, 60);
    assert_eq!(b.amount, 40);
    assert_eq!(a.amount + b.amount, 100);
    assert_eq!((b.product, b.publisher), (1, 2));
    assert_eq!(l.staked_total(), 100);
}

#[test]
fn split_amount_must_be_strictly_smaller() {
    let mut l = PositionLedger::new(3);
    let src = l.create(1, 2, 100).unwrap();
    assert_eq!(l.split(src, 100), Err(StakeError::InvalidSplitAmount));
    assert_eq!(l.split(src, 150), Err(StakeError::InvalidSplitAmount));
    assert_eq!(l.split(src, 0), Err(StakeError::InvalidSplitAmount));
    assert_eq!(l.get(src).unwrap().amount, 100);
}

#[test]
fn split_needs_an_active_source() {
    let mut l = PositionLedger::new(3);
    assert_eq!(l.split(0, 10), Err(StakeError::PositionNotFound));
    assert_eq!(l.split(9, 10), Err(StakeError::PositionNotFound));
}

#[test]
fn split_needs_an_empty_slot() {
    let mut l = PositionLedger::new(2);
    l.create(1, 1, 50).unwrap();
    l.create(2, 2, 50).unwrap();
    assert_eq!(l.split(0, 20), Err(StakeError::LedgerFull));
    assert_eq!(l.get(0).unwrap().amount, 50);
}

#[test]
fn close_frees_the_slot_and_keeps_other_indices() {
    let mut l = PositionLedger::new(3);
    l.create(1, 1, 10).unwrap();
    l.create(2, 2, 20).unwrap();
    l.create(3, 3, 30).unwrap();
    l.close(1).unwrap();
    assert_eq!(l.get(1).unwrap().amount, 0);
    assert_eq!(l.get(0).unwrap().amount, 10);
    assert_eq!(l.get(2).unwrap().amount, 30);
    assert_eq!(l.staked_total(), 40);
    assert_eq!(l.first_empty_slot(), Some(1));
}

#[test]
fn close_rejects_inactive_slots() {
    let mut l = PositionLedger::new(2);
    assert_eq!(l.close(0), Err(StakeError::PositionNotFound));
    assert_eq!(l.close(5), Err(StakeError::PositionNotFound));
    l.create(1, 1, 10).unwrap();
    l.close(0).unwrap();
    assert_eq!(l.close(0), Err(StakeError::PositionNotFound));
}

#[test]
fn cleanup_closes_exactly_the_listed_targets() {
    let mut l = PositionLedger::new(4);
    l.create(1, 10, 100).unwrap();
    l.create(2, 20, 200).unwrap();
    l.create(1, 30, 300).unwrap();
    let removed = vec![(1, 10), (1, 30), (9, 9)];
    l.cleanup(&removed);
    assert_eq!(l.get(0).unwrap().amount, 0);
    assert_eq!(l.get(1).unwrap().amount, 200);
    assert_eq!(l.get(2).unwrap().amount, 0);
    assert_eq!(l.staked_total(), 200);
}

#[test]
fn cleanup_is_idempotent() {
    let mut l = PositionLedger::new(4);
    l.create(1, 10, 100).unwrap();
    l.create(2, 20, 200).unwrap();
    l.create(2, 21, 250).unwrap();
    let removed = vec![(2, 20), (2, 21)];
    l.cleanup(&removed);
    let after_once = slots_of(&l);
    l.cleanup(&removed);
    let after_twice = slots_of(&l);
    assert_eq!(after_once, after_twice);
}

#[test]
fn cleanup_with_empty_list_changes_nothing() {
    let mut l = PositionLedger::new(3);
    l.create(1, 10, 100).unwrap();
    let before = slots_of(&l);
    l.cleanup(&Vec::new());
    assert_eq!(before, slots_of(&l));
}

#[test]
fn zero_capacity_ledger_is_always_full() {
    let mut l = PositionLedger::new(0);
    assert_eq!(l.capacity(), 0);
    assert_eq!(l.create(1, 1, 1), Err(StakeError::LedgerFull));
}
