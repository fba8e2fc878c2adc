use staking::error::StakeError;
use staking::vesting::VestingSchedule;

#[test]
fn fully_vested_unlocks_everything() {
    let s = VestingSchedule::new_fully_vested();
    assert_eq!(s.unlocked(123, 0), 123);
    assert_eq!(s.unlocked(0, 55), 0);
    assert_eq!(s.unlocked(u64::MAX, u64::MAX), u64::MAX);
}

#[test]
fn cliff_unlocks_at_its_time() {
    let s = VestingSchedule::new_cliff(10);
    assert_eq!(s.unlocked(100, 0), 0);
    assert_eq!(s.unlocked(100, 9), 0);
    assert_eq!(s.unlocked(100, 10), 100);
    assert_eq!(s.unlocked(100, 11), 100);
}

#[test]
fn linear_formula_exact() {
    let s = VestingSchedule::new_linear(0, 100).unwrap();
    assert_eq!(s.unlocked(1000, 0), 0);
    assert_eq!(s.unlocked(1000, 50), 500);
    assert_eq!(s.unlocked(1000, 99), 990);
    assert_eq!(s.unlocked(1000, 100), 1000);
    assert_eq!(s.unlocked(1000, 200), 1000);
}

#[test]
fn linear_rounds_down() {
    let s = VestingSchedule::new_linear(0, 3).unwrap();
    assert_eq!(s.unlocked(10, 1), 3);
    assert_eq!(s.unlocked(10, 2), 6);
    assert_eq!(s.unlocked(10, 3), 10);
}

#[test]
fn linear_with_offset_start() {
    let s = VestingSchedule::new_linear(100, 200).unwrap();
    assert_eq!(s.unlocked(400, 99), 0);
    assert_eq!(s.unlocked(400, 100), 0);
    assert_eq!(s.unlocked(400, 150), 200);
    assert_eq!(s.unlocked(400, 200), 400);
}

#[test]
fn linear_largest_total_no_overflow() {
    let s = VestingSchedule::new_linear(0, 4).unwrap();
    assert_eq!(s.unlocked(u64::MAX, 2), u64::MAX / 2);
    let s2 = VestingSchedule::new_linear(0, u64::MAX).unwrap();
    assert_eq!(s2.unlocked(u64::MAX, u64::MAX - 1), u64::MAX - 1);
}

#[test]
fn invalid_schedule_rejected() {
    assert_eq!(VestingSchedule::new_linear(5, 5), Err(StakeError::InvalidSchedule));
    assert_eq!(VestingSchedule::new_linear(6, 5), Err(StakeError::InvalidSchedule));
    assert!(VestingSchedule::new_linear(5, 6).is_ok());
}

#[test]
fn unlocked_is_monotone_in_time() {
    let s = VestingSchedule::new_linear(10, 110).unwrap();
    let mut prev = 0u64;
    for now in 0..130u64 {
        let u = s.unlocked(997, now);
        assert!(u >= prev);
        assert!(u <= 997);
        prev = u;
    }
    assert_eq!(prev, 997);
}
