use rwlock::state::{next_read_attempt, LockState, ReadPlan, IDLE, WRITING};

#[test]
fn words_decode() {
    assert_eq!(LockState::decode(0), Some(LockState::Idle));
    assert_eq!(LockState::decode(-1), Some(LockState::Writing));
    assert_eq!(LockState::decode(3), Some(LockState::Readers(3)));
    assert_eq!(LockState::decode(i32::MAX), Some(LockState::Readers(i32::MAX)));
    assert_eq!(LockState::decode(-2), None);
    assert_eq!(LockState::decode(i32::MIN), None);
}

#[test]
fn states_encode() {
    assert_eq!(LockState::Idle.encode(), IDLE);
    assert_eq!(LockState::Writing.encode(), WRITING);
    assert_eq!(LockState::Readers(9).encode(), 9);
    for w in [-1, 0, 1, 2, 1000, i32::MAX] {
        assert_eq!(LockState::decode(w).map(|s| s.encode()), Some(w));
    }
}

#[test]
fn reader_plans_from_idle() {
    assert_eq!(next_read_attempt(0), ReadPlan::Attempt { current: 0, desired: 1 });
}

#[test]
fn reader_plans_on_top_of_readers() {
    assert_eq!(next_read_attempt(1), ReadPlan::Attempt { current: 1, desired: 2 });
    assert_eq!(next_read_attempt(41), ReadPlan::Attempt { current: 41, desired: 42 });
    assert_eq!(
        next_read_attempt(i32::MAX - 1),
        ReadPlan::Attempt { current: i32::MAX - 1, desired: i32::MAX }
    );
}

#[test]
fn reader_plans_past_writer() {
    assert_eq!(next_read_attempt(WRITING), ReadPlan::Attempt { current: IDLE, desired: 1 });
}

#[test]
fn reader_count_overflow_is_refused() {
    assert_eq!(next_read_attempt(i32::MAX), ReadPlan::Overflow);
}

#[test]
fn invalid_word_is_reported() {
    assert_eq!(next_read_attempt(-2), ReadPlan::Invalid);
    assert_eq!(next_read_attempt(i32::MIN), ReadPlan::Invalid);
}
