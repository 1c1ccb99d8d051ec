//! The state word of a lock and the decisions taken on it.
//!
//! A lock keeps all of its bookkeeping in one signed machine word:
//! `0` is idle, `-1` is held by a writer, and a positive `n` is held by
//! `n` readers. Every transition is a compare-and-swap on that word.
use vstd::prelude::*;

verus! {

/// Word of a lock that nobody holds.
pub const IDLE: i32 = 0;

/// Word of a lock held by its one writer.
pub const WRITING: i32 = -1;

/// What a state word says about its lock.
#[derive(Clone, Copy, Debug, PartialEq, Eq, Structural)]
pub enum LockState {
    Idle,
    Writing,
    /// Held by this many readers (at least one).
    Readers(i32),
}

/// The word that stands for `s`.
pub open spec fn word_of(s: LockState) -> int {
    match s {
        LockState::Idle => IDLE as int,
        LockState::Writing => WRITING as int,
        LockState::Readers(n) => n as int,
    }
}

/// The state that `w` stands for, if it stands for any.
pub open spec fn state_of(w: i32) -> Option<LockState> {
    if w == IDLE {
        Some(LockState::Idle)
    } else if w == WRITING {
        Some(LockState::Writing)
    } else if w > 0 {
        Some(LockState::Readers(w))
    } else {
        None
    }
}

impl LockState {
    /// A reader count is positive.
    pub open spec fn wf(self) -> bool {
        self matches LockState::Readers(n) ==> n > 0
    }

    /// Reads a state word.
    pub fn decode(w: i32) -> (r: Option<LockState>)
        ensures
            r == state_of(w),
            r is Some <==> w >= WRITING,
            r matches Some(s) ==> s.wf() && word_of(s) == w,
    {
        if w == IDLE {
            Some(LockState::Idle)
        } else if w == WRITING {
            Some(LockState::Writing)
        } else if w > 0 {
            Some(LockState::Readers(w))
        } else {
            None
        }
    }

    /// Writes a state word.
    pub fn encode(self) -> (w: i32)
        requires
            self.wf(),
        ensures
            w == word_of(self),
            state_of(w) == Some(self),
    {
        match self {
            LockState::Idle => IDLE,
            LockState::Writing => WRITING,
            LockState::Readers(n) => n,
        }
    }
}

/// Encoding and decoding are inverse on every state and on every word that
/// stands for a state.
pub proof fn lemma_encoding_round_trip(s: LockState, w: i32)
    ensures
        s.wf() ==> state_of(word_of(s) as i32) == Some(s),
        state_of(w) matches Some(t) ==> t.wf() && word_of(t) == w,
{
}

/// The next compare-and-swap that a reader tries, or why it stops.
#[derive(Clone, Copy, Debug, PartialEq, Eq, Structural)]
pub enum ReadPlan {
    /// Swap `current` for `desired`.
    Attempt { current: i32, desired: i32 },
    /// The reader count is at its largest: one more reader cannot be counted.
    Overflow,
    /// The word stands for no state.
    Invalid,
}

/// What a reader tries after it has seen `actual` in the word. A reader's
/// very first attempt is the one that follows seeing `IDLE`.
pub open spec fn plan_after(actual: i32) -> ReadPlan {
    if actual == i32::MAX {
        ReadPlan::Overflow
    } else if actual >= 0 {
        ReadPlan::Attempt { current: actual, desired: (actual + 1) as i32 }
    } else if actual == WRITING {
        ReadPlan::Attempt { current: IDLE, desired: 1 }
    } else {
        ReadPlan::Invalid
    }
}

/// Derives a reader's next attempt from the word it saw: one reader more
/// than it saw, or, past a writer, the first reader of an idle lock.
pub fn next_read_attempt(actual: i32) -> (r: ReadPlan)
    ensures
        r == plan_after(actual),
        r matches ReadPlan::Attempt { current, desired } ==> current >= 0 && desired
            == current + 1,
        r is Overflow <==> actual == i32::MAX,
        r is Invalid <==> actual < WRITING,
{
    if actual == i32::MAX {
        ReadPlan::Overflow
    } else if actual >= 0 {
        ReadPlan::Attempt { current: actual, desired: actual + 1 }
    } else if actual == WRITING {
        ReadPlan::Attempt { current: IDLE, desired: 1 }
    } else {
        ReadPlan::Invalid
    }
}

} // verus!
