//! The lock itself: a state word driven by the protocol of `state`, and a
//! cell for the protected value.
//!
//! Threads take and give back access only by compare-and-swap, decrement and
//! store on the state word. The value sits in a `std::sync::RwLock` that is
//! only ever entered with `try_read` and `try_write` once the state word has
//! granted access, so it never blocks: it is the safe stand-in for an
//! unchecked cell. A guard gives its cell access back before it gives back
//! its place in the state word (fields drop in order), so a thread that wins
//! the word always finds the cell free.
//!
//! The cell has a reader limit of its own, which on some platforms lies below
//! `i32::MAX` (near 2^30 readers on Linux). Since a reader only enters the
//! cell after the word has counted it, the cell refusing it can only mean
//! that limit: the reader gives its place back and reports
//! `ReadError::ReaderOverflow`, as for a full state word.
//!
//! Verus sees no value in a std atomic, so the contracts here speak of what
//! each thread hands to the word: a guard records, as ghost state, the swap
//! that got it in. The operands of a reader's swap are those that
//! `plan_after` gives, the same function that a `Step::Read` of the model in
//! `protocol` uses; the model's laws are stated of the model, and no proof
//! here shows that a run of threads is a run of the model.
use vstd::prelude::*;
use std::sync::atomic::{AtomicI32, Ordering};
use std::sync::{RwLock, RwLockReadGuard, RwLockWriteGuard, TryLockError};
use crate::state::{next_read_attempt, plan_after, ReadPlan, IDLE, WRITING};

verus! {

#[verifier::external_type_specification]
#[verifier::external_body]
#[verifier::reject_recursive_types(T)]
pub struct ExRwLock<T: ?Sized>(RwLock<T>);

#[verifier::external_type_specification]
#[verifier::external_body]
#[verifier::reject_recursive_types(T)]
pub struct ExRwLockReadGuard<'a, T: ?Sized>(RwLockReadGuard<'a, T>);

#[verifier::external_type_specification]
#[verifier::external_body]
#[verifier::reject_recursive_types(T)]
pub struct ExRwLockWriteGuard<'a, T: ?Sized + 'a>(RwLockWriteGuard<'a, T>);

/// Relies on std::hint::spin_loop: a processor hint with no effect on values.
pub assume_specification[ std::hint::spin_loop ]();

/// Relies on RwLock::new: a cell holding `v`.
#[verifier::external_body]
fn new_cell<T>(v: T) -> (r: RwLock<T>) {
    RwLock::new(v)
}

/// Relies on RwLock::try_read: shared access to the cell without blocking, or
/// `None` where it is held for writing. Poisoning is not part of this lock.
#[verifier::external_body]
fn try_view<T>(cell: &RwLock<T>) -> (r: Option<RwLockReadGuard<'_, T>>) {
    match cell.try_read() {
        Ok(g) => Some(g),
        Err(TryLockError::Poisoned(p)) => Some(p.into_inner()),
        Err(TryLockError::WouldBlock) => None,
    }
}

/// Relies on RwLock::try_write: exclusive access to the cell without
/// blocking, or `None` where it is held. Poisoning is not part of this lock.
#[verifier::external_body]
fn try_edit<T>(cell: &RwLock<T>) -> (r: Option<RwLockWriteGuard<'_, T>>) {
    match cell.try_write() {
        Ok(g) => Some(g),
        Err(TryLockError::Poisoned(p)) => Some(p.into_inner()),
        Err(TryLockError::WouldBlock) => None,
    }
}

/// Relies on Deref for RwLockReadGuard: the value in the cell.
#[verifier::external_body]
fn view<'b, T>(g: &'b RwLockReadGuard<'_, T>) -> (r: &'b T) {
    g
}

/// Relies on Deref for RwLockWriteGuard: the value in the cell.
#[verifier::external_body]
fn view_edited<'b, T>(g: &'b RwLockWriteGuard<'_, T>) -> (r: &'b T) {
    g
}

/// Relies on DerefMut for RwLockWriteGuard: the value in the cell, to change.
#[verifier::external_body]
fn edit<'b, T>(g: &'b mut RwLockWriteGuard<'_, T>) -> (r: &'b mut T) {
    g
}

/// Relies on AtomicI32::fetch_sub with release ordering: takes `n` off the
/// word. It neither unwinds nor opens an invariant, as a destructor must.
///
/// Every reader's decrement is a release, and everything after it in the
/// word's modification order up to the last reader's decrement is a
/// read-modify-write, so each decrement heads a release sequence that reaches
/// the `IDLE` that the next writer's acquiring swap reads: every reader's
/// accesses happen before that writer's, not only the last reader's.
#[verifier::external_body]
fn leave_read(word: &AtomicI32, n: i32) -> (r: i32)
    opens_invariants none
    no_unwind
{
    word.fetch_sub(n, Ordering::Release)
}

/// Relies on AtomicI32::store with release ordering: sets the word to `w`.
/// It neither unwinds nor opens an invariant, as a destructor must.
///
/// The store heads the release sequence that the readers' increments extend,
/// so whichever thread next acquires the word sees the writer's changes.
#[verifier::external_body]
fn leave_write(word: &AtomicI32, w: i32)
    opens_invariants none
    no_unwind
{
    word.store(w, Ordering::Release)
}

/// A value shared by threads: any number of readers at once, or one writer.
#[verifier::reject_recursive_types(T)]
pub struct RWLock<T> {
    state: AtomicI32,
    data: RwLock<T>,
    made: Ghost<(i32, T)>,
}

/// Why a reader did not get in.
#[derive(Clone, Copy, Debug, PartialEq, Eq, Structural)]
pub enum ReadError {
    /// The reader count is at its largest; counting one more would wrap it.
    ReaderOverflow,
    /// The state word stands for no state.
    InvalidState,
    /// The attempts allowed ran out while a writer held the lock.
    Busy,
}

/// A reader's place in the state word; given back once, when it goes away.
#[verifier::reject_recursive_types(T)]
struct ReaderSeat<'a, T> {
    lock: &'a RWLock<T>,
}

impl<T> Drop for ReaderSeat<'_, T> {
    fn drop(&mut self)
        opens_invariants none
        no_unwind
    {
        leave_read(&self.lock.state, 1);
    }
}

/// The writer's place in the state word; given back once, when it goes away.
#[verifier::reject_recursive_types(T)]
struct WriterSeat<'a, T> {
    lock: &'a RWLock<T>,
}

impl<T> Drop for WriterSeat<'_, T> {
    fn drop(&mut self)
        opens_invariants none
        no_unwind
    {
        leave_write(&self.lock.state, IDLE);
    }
}

/// Shared access to the value of a lock, for as long as the guard lives.
#[verifier::reject_recursive_types(T)]
pub struct ReadOnlyGuard<'a, T> {
    // declared first: dropped before the seat goes back
    cell: RwLockReadGuard<'a, T>,
    seat: ReaderSeat<'a, T>,
    seen: Ghost<i32>,
    swap: Ghost<(i32, i32)>,
}

/// Exclusive access to the value of a lock, for as long as the guard lives.
#[verifier::reject_recursive_types(T)]
pub struct LockGuard<'a, T> {
    // declared first: dropped before the seat goes back
    cell: RwLockWriteGuard<'a, T>,
    seat: WriterSeat<'a, T>,
    swap: Ghost<(i32, i32)>,
}

impl<'a, T> ReadOnlyGuard<'a, T> {
    /// The lock this guard reads.
    pub closed spec fn lock(&self) -> RWLock<T> {
        *self.seat.lock
    }

    /// The word whose sight planned the swap that got this reader in.
    pub closed spec fn seen(&self) -> i32 {
        self.seen@
    }

    /// The expected and the new word of that swap.
    pub closed spec fn swap(&self) -> (i32, i32) {
        self.swap@
    }
}

impl<'a, T> LockGuard<'a, T> {
    /// The lock this guard writes.
    pub closed spec fn lock(&self) -> RWLock<T> {
        *self.seat.lock
    }

    /// The expected and the new word of the swap that got this writer in.
    pub closed spec fn swap(&self) -> (i32, i32) {
        self.swap@
    }
}

impl<T> std::ops::Deref for ReadOnlyGuard<'_, T> {
    type Target = T;

    fn deref(&self) -> &T {
        view(&self.cell)
    }
}

impl<T> std::ops::Deref for LockGuard<'_, T> {
    type Target = T;

    fn deref(&self) -> &T {
        view_edited(&self.cell)
    }
}

impl<T> std::ops::DerefMut for LockGuard<'_, T> {
    fn deref_mut(&mut self) -> &mut T {
        edit(&mut self.cell)
    }
}

impl<T> RWLock<T> {
    /// The word and the value that the lock was made with.
    pub closed spec fn made(&self) -> (i32, T) {
        self.made@
    }

    /// An idle lock holding `val`.
    pub fn new(val: T) -> (r: RWLock<T>)
        ensures
            r.made() == (IDLE, val),
    {
        RWLock { state: AtomicI32::new(IDLE), data: new_cell(val), made: Ghost((IDLE, val)) }
    }

    /// Joins the readers of the lock, making at most `spins` attempts.
    ///
    /// The first attempt assumes the lock idle. After a failed attempt the
    /// next one is planned from the word that was seen: one reader more than
    /// were seen, or, past a writer, the first reader of an idle lock: the
    /// operands are `plan_after` of the word seen, as in a `Step::Read` of
    /// the model. A guard comes back only from a swap that counted one
    /// reader more on a word of readers or an idle word.
    pub fn try_read(&self, spins: u64) -> (r: Result<ReadOnlyGuard<'_, T>, ReadError>)
        ensures
            r matches Ok(g) ==> g.lock() == *self && plan_after(g.seen()) == (ReadPlan::Attempt {
                current: g.swap().0,
                desired: g.swap().1,
            }),
            r matches Ok(g) ==> 0 <= g.swap().0 < i32::MAX && g.swap().1 == g.swap().0 + 1,
            spins == 0 ==> r == Err::<ReadOnlyGuard<'_, T>, ReadError>(ReadError::Busy),
    {
        let ghost mut seen: i32 = IDLE;
        let mut current: i32 = IDLE;
        let mut desired: i32 = 1;
        let mut tries: u64 = 0;
        while tries < spins
            invariant
                tries <= spins,
                plan_after(seen) == (ReadPlan::Attempt { current, desired }),
            decreases spins - tries,
        {
            tries = tries + 1;
            // acquire on success: the reader sees all that the last writer released
            match self.state.compare_exchange_weak(
                current,
                desired,
                Ordering::Acquire,
                Ordering::Relaxed,
            ) {
                Ok(_) => {
                    let seat = ReaderSeat { lock: self };
                    match try_view(&self.data) {
                        Some(cell) => {
                            return Ok(
                                ReadOnlyGuard {
                                    cell,
                                    seat,
                                    seen: Ghost(seen),
                                    swap: Ghost((current, desired)),
                                },
                            );
                        },
                        None => {
                            // only the cell's own reader limit refuses a counted
                            // reader; the seat goes back as it drops here
                            return Err(ReadError::ReaderOverflow);
                        },
                    }
                },
                Err(actual) => match next_read_attempt(actual) {
                    ReadPlan::Attempt { current: c, desired: d } => {
                        proof {
                            seen = actual;
                        }
                        current = c;
                        desired = d;
                        if actual == WRITING {
                            std::hint::spin_loop();
                        }
                    },
                    ReadPlan::Overflow => {
                        return Err(ReadError::ReaderOverflow);
                    },
                    ReadPlan::Invalid => {
                        return Err(ReadError::InvalidState);
                    },
                },
            }
        }
        Err(ReadError::Busy)
    }

    /// Takes the lock for writing, making at most `spins` attempts to swap
    /// an idle word for `WRITING`.
    pub fn try_write(&self, spins: u64) -> (r: Option<LockGuard<'_, T>>)
        ensures
            r matches Some(g) ==> g.lock() == *self && g.swap() == (IDLE, WRITING),
            spins == 0 ==> r is None,
    {
        let mut tries: u64 = 0;
        while tries < spins
            invariant
                tries <= spins,
            decreases spins - tries,
        {
            tries = tries + 1;
            if self.state.compare_exchange_weak(
                IDLE,
                WRITING,
                Ordering::Acquire,
                Ordering::Relaxed,
            ).is_ok() {
                let seat = WriterSeat { lock: self };
                if let Some(cell) = try_edit(&self.data) {
                    return Some(LockGuard { cell, seat, swap: Ghost((IDLE, WRITING)) });
                }
            } else {
                std::hint::spin_loop();
            }
        }
        None
    }

    /// Joins the readers of the lock, spinning for as long as a writer holds
    /// it. It fails with `ReaderOverflow` where one more reader cannot be
    /// counted, with `InvalidState` where the word stands for no state, and
    /// with `Busy` only after `u64::MAX` attempts.
    pub fn read(&self) -> (r: Result<ReadOnlyGuard<'_, T>, ReadError>)
        ensures
            r matches Ok(g) ==> g.lock() == *self && plan_after(g.seen()) == (ReadPlan::Attempt {
                current: g.swap().0,
                desired: g.swap().1,
            }),
            r matches Ok(g) ==> 0 <= g.swap().0 < i32::MAX && g.swap().1 == g.swap().0 + 1,
    {
        self.try_read(u64::MAX)
    }

    /// Takes the lock for writing, spinning for as long as anyone holds it;
    /// `None` only after `u64::MAX` attempts.
    pub fn write(&self) -> (r: Option<LockGuard<'_, T>>)
        ensures
            r matches Some(g) ==> g.lock() == *self && g.swap() == (IDLE, WRITING),
    {
        self.try_write(u64::MAX)
    }
}

} // verus!
