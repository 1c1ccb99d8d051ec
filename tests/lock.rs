use rwlock::lock::{LockGuard, RWLock, ReadError, ReadOnlyGuard};

const SPINS: u64 = 10_000;

fn reader(lock: &RWLock<i32>) -> ReadOnlyGuard<'_, i32> {
    match lock.try_read(SPINS) {
        Ok(g) => g,
        Err(e) => panic!("reader refused: {:?}", e),
    }
}

fn writer(lock: &RWLock<i32>) -> LockGuard<'_, i32> {
    match lock.try_write(SPINS) {
        Some(g) => g,
        None => panic!("writer refused"),
    }
}

#[test]
fn new_lock_reads_initial_value() {
    let lock = RWLock::new(1);
    let g = reader(&lock);
    assert_eq!(*g, 1);
}

#[test]
fn blocking_calls_acquire_an_idle_lock() {
    let lock = RWLock::new(7);
    {
        let mut w = lock.write().expect("idle lock");
        assert_eq!(*w, 7);
        *w = 8;
    }
    let r = lock.read().expect("idle lock");
    assert_eq!(*r, 8);
}

#[test]
fn read_after_released_write_sees_new_value() {
    let lock = RWLock::new(5);
    {
        let mut w = writer(&lock);
        *w = 42;
    }
    let r = reader(&lock);
    assert_eq!(*r, 42);
}

#[test]
fn many_readers_coexist() {
    let lock = RWLock::new(3);
    let mut guards = Vec::new();
    for _ in 0..200 {
        guards.push(reader(&lock));
    }
    assert!(guards.iter().all(|g| **g == 3));
}

#[test]
fn writer_waits_for_readers() {
    let lock = RWLock::new(0);
    let r1 = reader(&lock);
    let r2 = reader(&lock);
    assert!(lock.try_write(SPINS).is_none());
    drop(r1);
    assert!(lock.try_write(SPINS).is_none());
    drop(r2);
    assert!(lock.try_write(SPINS).is_some());
}

#[test]
fn reader_waits_for_writer() {
    let lock = RWLock::new(0);
    let w = writer(&lock);
    assert!(matches!(lock.try_read(SPINS), Err(ReadError::Busy)));
    drop(w);
    assert!(lock.try_read(SPINS).is_ok());
}

#[test]
fn second_writer_waits_for_first() {
    let lock = RWLock::new(0);
    let w = writer(&lock);
    assert!(lock.try_write(SPINS).is_none());
    drop(w);
    assert!(lock.try_write(SPINS).is_some());
}

#[test]
fn no_spins_no_access() {
    let lock = RWLock::new(0);
    assert!(matches!(lock.try_read(0), Err(ReadError::Busy)));
    assert!(lock.try_write(0).is_none());
}

#[test]
fn increments_are_not_lost() {
    let lock = RWLock::new(1);
    for _ in 0..50 {
        let mut w = writer(&lock);
        *w += 1;
    }
    assert_eq!(*reader(&lock), 51);
}

#[test]
fn release_runs_once_per_guard() {
    let lock = RWLock::new(0);
    for round in 1..=20 {
        {
            let a = reader(&lock);
            let b = reader(&lock);
            assert_eq!(*a + *b, 2 * (round - 1));
        }
        {
            let mut w = writer(&lock);
            *w += 1;
        }
    }
    assert_eq!(*reader(&lock), 20);
    let w = writer(&lock);
    assert_eq!(*w, 20);
}

#[test]
fn two_writers_then_final_read() {
    let lock = RWLock::new(1);
    {
        let r = reader(&lock);
        assert_eq!(*r, 1);
    }
    {
        let mut w = writer(&lock);
        assert_eq!(*w, 1);
        *w = 10;
    }
    {
        let mut w = writer(&lock);
        assert_eq!(*w, 10);
        *w = 11;
    }
    assert_eq!(*reader(&lock), 11);
}

#[test]
fn payload_of_any_type() {
    let lock = RWLock::new(String::from("ab"));
    {
        let mut w = lock.try_write(SPINS).expect("idle lock");
        w.push('c');
    }
    let r = lock.try_read(SPINS).ok().expect("idle lock");
    assert_eq!(r.as_str(), "abc");
}
