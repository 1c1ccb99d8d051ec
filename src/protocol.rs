//! The lock protocol as a transition system over every interleaving of the
//! threads that use one lock, and the laws that hold of it.
//!
//! A `Model` records the state word, which read and write guards are alive
//! (each guard by its own id), what each writer has loaded from the value,
//! and the protected value. A `Step` is one successful atomic action of the
//! thread that owns a guard: a compare-and-swap that acquires, a release, or
//! a load or store of the value by a writer. A compare-and-swap that fails
//! changes nothing and is left out of a run.
//!
//! The executable lock shares `plan_after` with this model: the swaps that
//! its readers try have the operands of a `Step::Read`, and its writer's swap
//! those of a `Step::Write`, as the guards' contracts state. That threads
//! running the lock make a run of this model is not proved here: Verus is
//! given no view of the value in a std atomic.
use vstd::prelude::*;
use crate::state::{plan_after, ReadPlan, IDLE, WRITING};

verus! {

/// The lock as every thread shares it.
pub struct Model<V> {
    pub word: int,
    /// Ids of the live read guards.
    pub readers: Set<nat>,
    /// Ids of the live write guards.
    pub writers: Set<nat>,
    /// What each writer has loaded from the value and not yet stored back.
    pub loaded: Map<nat, V>,
    pub value: V,
}

/// One atomic action, by the thread of guard `guard`.
#[verifier::reject_recursive_types(V)]
pub enum Step<V> {
    /// A reader that last saw `observed` makes the attempt planned from it.
    Read { guard: nat, observed: i32 },
    /// A writer swaps `IDLE` for `WRITING`.
    Write { guard: nat },
    /// A read guard goes away: the word is decremented.
    EndRead { guard: nat },
    /// A write guard goes away: the word is set to `IDLE`.
    EndWrite { guard: nat },
    /// A writer loads the value.
    Load { guard: nat },
    /// A writer stores `change` of what it loaded.
    Store { guard: nat, change: spec_fn(V) -> V },
}

/// A fresh lock holding `v`.
pub open spec fn init<V>(v: V) -> Model<V> {
    Model {
        word: IDLE as int,
        readers: Set::empty(),
        writers: Set::empty(),
        loaded: Map::empty(),
        value: v,
    }
}

/// `g` is the id of no live guard.
pub open spec fn fresh<V>(m: Model<V>, g: nat) -> bool {
    !m.readers.contains(g) && !m.writers.contains(g)
}

/// The state after `s`, or `None` where `s` cannot happen in `m` (its
/// compare-and-swap fails, or its guard is not there to act).
pub open spec fn step<V>(m: Model<V>, s: Step<V>) -> Option<Model<V>> {
    match s {
        Step::Read { guard, observed } => match plan_after(observed) {
            ReadPlan::Attempt { current, desired } => if m.word == current && fresh(m, guard) {
                Some(Model { word: desired as int, readers: m.readers.insert(guard), ..m })
            } else {
                None
            },
            _ => None,
        },
        Step::Write { guard } => if m.word == IDLE && fresh(m, guard) {
            Some(Model { word: WRITING as int, writers: m.writers.insert(guard), ..m })
        } else {
            None
        },
        Step::EndRead { guard } => if m.readers.contains(guard) {
            Some(Model { word: m.word - 1, readers: m.readers.remove(guard), ..m })
        } else {
            None
        },
        Step::EndWrite { guard } => if m.writers.contains(guard) {
            Some(
                Model {
                    word: IDLE as int,
                    writers: m.writers.remove(guard),
                    loaded: m.loaded.remove(guard),
                    ..m
                },
            )
        } else {
            None
        },
        Step::Load { guard } => if m.writers.contains(guard) {
            Some(Model { loaded: m.loaded.insert(guard, m.value), ..m })
        } else {
            None
        },
        Step::Store { guard, change } => if m.writers.contains(guard) && m.loaded.contains_key(
            guard,
        ) {
            Some(Model { value: change(m.loaded[guard]), loaded: m.loaded.remove(guard), ..m })
        } else {
            None
        },
    }
}

/// The state after all of `steps` in order, or `None` where one cannot happen.
pub open spec fn run<V>(m: Model<V>, steps: Seq<Step<V>>) -> Option<Model<V>>
    decreases steps.len(),
{
    if steps.len() == 0 {
        Some(m)
    } else {
        match step(m, steps[0]) {
            Some(n) => run(n, steps.drop_first()),
            None => None,
        }
    }
}

/// The word says exactly who holds the lock, and what a writer has loaded
/// is still the value.
pub open spec fn consistent<V>(m: Model<V>) -> bool {
    &&& m.readers.finite()
    &&& m.writers.finite()
    &&& m.writers.len() <= 1
    &&& m.writers.len() == 1 ==> m.word == WRITING && m.readers.len() == 0
    &&& m.writers.len() == 0 ==> m.word == m.readers.len()
    &&& m.readers.len() <= i32::MAX
    &&& forall|g: nat| #[trigger] m.loaded.contains_key(g) ==> m.writers.contains(g)
    &&& forall|g: nat| #[trigger] m.loaded.contains_key(g) ==> m.loaded[g] == m.value
}

/// No write guard lives beside a read guard or another write guard.
pub open spec fn exclusive<V>(m: Model<V>) -> bool {
    &&& forall|w: nat, r: nat| #[trigger] m.writers.contains(w) ==> !#[trigger] m.readers.contains(r)
    &&& forall|a: nat, b: nat|
        #[trigger] m.writers.contains(a) && #[trigger] m.writers.contains(b) ==> a == b
}

/// How many of `steps` store into the value.
pub open spec fn stores<V>(steps: Seq<Step<V>>) -> nat
    decreases steps.len(),
{
    if steps.len() == 0 {
        0
    } else {
        (if steps[0] is Store { 1nat } else { 0nat }) + stores(steps.drop_first())
    }
}

/// Every store in `steps` adds one to what its writer loaded.
pub open spec fn increments_only(steps: Seq<Step<int>>) -> bool {
    forall|i: int|
        0 <= i < steps.len() && #[trigger] steps[i] is Store ==> forall|x: int|
            #[trigger] (steps[i]->Store_change)(x) == x + 1
}

/// The change that stores `v2`, whatever was loaded.
pub open spec fn store<V>(v2: V) -> spec_fn(V) -> V {
    |x: V| v2
}

/// The readers with ids below `n`.
pub open spec fn first_ids(n: nat) -> Set<nat> {
    Set::new(|g: nat| g < n)
}

/// Readers `0` to `n - 1` arriving one after the other, each seeing the
/// readers before it.
pub open spec fn arrivals<V>(n: nat) -> Seq<Step<V>>
    decreases n,
{
    if n == 0 {
        Seq::empty()
    } else {
        arrivals((n - 1) as nat).push(Step::Read { guard: (n - 1) as nat, observed: (n - 1) as i32 })
    }
}

/// Read guards `0` to `n - 1` going away, in that order.
pub open spec fn departures<V>(n: nat) -> Seq<Step<V>>
    decreases n,
{
    if n == 0 {
        Seq::empty()
    } else {
        departures((n - 1) as nat).push(Step::EndRead { guard: (n - 1) as nat })
    }
}

/// Running two sequences one after the other is running their concatenation.
pub proof fn lemma_run_append<V>(m: Model<V>, a: Seq<Step<V>>, b: Seq<Step<V>>)
    ensures
        run(m, a + b) == (match run(m, a) {
            Some(n) => run(n, b),
            None => None,
        }),
    decreases a.len(),
{
    if a.len() == 0 {
        assert(a + b =~= b);
    } else {
        assert((a + b).drop_first() =~= a.drop_first() + b);
        match step(m, a[0]) {
            Some(n) => lemma_run_append(n, a.drop_first(), b),
            None => {},
        }
    }
}

/// Running one step is taking that step.
pub proof fn lemma_run_one<V>(m: Model<V>, s: Step<V>)
    ensures
        run(m, seq![s]) == step(m, s),
{
    reveal_with_fuel(run, 2);
    assert(seq![s].drop_first() =~= Seq::<Step<V>>::empty());
}

/// A finite set of at most one element holds no two different elements.
proof fn lemma_at_most_one(s: Set<nat>, a: nat, b: nat)
    requires
        s.finite(),
        s.len() <= 1,
        s.contains(a),
        s.contains(b),
    ensures
        a == b,
{
    if a != b {
        assert(s.remove(a).contains(b));
        assert(s.remove(a).len() == s.len() - 1);
    }
}

/// Every step keeps the word consistent with the guards.
pub proof fn lemma_step_consistent<V>(m: Model<V>, s: Step<V>)
    requires
        consistent(m),
    ensures
        step(m, s) matches Some(n) ==> consistent(n),
{
    if let Some(n) = step(m, s) {
        match s {
            Step::EndRead { guard } => {
                assert(m.readers.len() != 0);
            },
            Step::EndWrite { guard } => {
                assert forall|g: nat| #[trigger] n.loaded.contains_key(g) implies n.writers.contains(g) by {
                    lemma_at_most_one(m.writers, g, guard);
                }
            },
            Step::Write { guard } => {
                assert forall|g: nat| #[trigger] n.loaded.contains_key(g) implies n.writers.contains(g) by {
                    assert(m.writers.contains(g));
                    assert(m.writers.len() != 0);
                }
            },
            Step::Store { guard, change } => {
                assert forall|g: nat| #[trigger] n.loaded.contains_key(g) implies n.loaded[g] == n.value by {
                    lemma_at_most_one(m.writers, g, guard);
                }
            },
            _ => {},
        }
    }
}

/// Every run keeps the word consistent with the guards.
pub proof fn lemma_run_consistent<V>(m: Model<V>, steps: Seq<Step<V>>)
    requires
        consistent(m),
    ensures
        run(m, steps) matches Some(n) ==> consistent(n),
    decreases steps.len(),
{
    if steps.len() > 0 {
        lemma_step_consistent(m, steps[0]);
        if let Some(n) = step(m, steps[0]) {
            lemma_run_consistent(n, steps.drop_first());
        }
    }
}

/// A consistent lock is exclusive.
pub proof fn lemma_consistent_exclusive<V>(m: Model<V>)
    requires
        consistent(m),
    ensures
        exclusive(m),
{
    assert forall|w: nat, r: nat| #[trigger] m.writers.contains(w) implies !#[trigger] m.readers.contains(r) by {
        assert(m.writers.len() != 0);
        if m.readers.contains(r) {
            assert(m.readers.len() != 0);
        }
    }
    assert forall|a: nat, b: nat| #[trigger] m.writers.contains(a) && #[trigger] m.writers.contains(b) implies a == b by {
        lemma_at_most_one(m.writers, a, b);
    }
}

/// Mutual exclusion: in every interleaving of the threads of a lock, at no
/// point does a write guard coexist with a read guard or another write guard.
pub proof fn lemma_mutual_exclusion<V>(v: V, steps: Seq<Step<V>>)
    ensures
        run(init(v), steps) matches Some(m) ==> exclusive(m) && consistent(m),
{
    lemma_run_consistent(init(v), steps);
    if let Some(m) = run(init(v), steps) {
        lemma_consistent_exclusive(m);
    }
}

/// Concurrent reads: while no writer holds the lock, one more reader can
/// always join, whatever number of readers is already in, short of the
/// largest count; the ones in keep their guards.
pub proof fn lemma_reader_joins<V>(m: Model<V>, g: nat)
    requires
        consistent(m),
        fresh(m, g),
        m.word != WRITING,
        m.word < i32::MAX,
    ensures
        step(m, Step::Read { guard: g, observed: m.word as i32 }) == Some(
            Model { word: m.word + 1, readers: m.readers.insert(g), ..m },
        ),
{
}

/// Concurrent reads: any number of readers, up to the largest count, hold the
/// lock at once.
pub proof fn lemma_readers_coexist<V>(v: V, n: nat)
    requires
        n <= i32::MAX,
    ensures
        run(init(v), arrivals(n)) == Some(Model { word: n as int, readers: first_ids(n), ..init(v) }),
        first_ids(n).finite(),
        first_ids(n).len() == n,
    decreases n,
{
    if n == 0 {
        assert(first_ids(0) =~= Set::<nat>::empty());
    } else {
        let k = (n - 1) as nat;
        lemma_readers_coexist(v, k);
        let last = Step::Read { guard: k, observed: k as i32 };
        lemma_run_append(init(v), arrivals(k), seq![last]);
        assert(arrivals::<V>(n) =~= arrivals(k) + seq![last]);
        let m = Model { word: k as int, readers: first_ids(k), ..init(v) };
        lemma_run_one(m, last);
        assert(first_ids(k).insert(k) =~= first_ids(n));
    }
}

/// No lost updates: whatever the interleaving, once writers have stored back
/// one more than they loaded `w` times in all, the value is the initial value
/// plus `w`. This rests on exclusion: no writer stores over a value that
/// changed after it loaded.
pub proof fn lemma_no_lost_updates(v: int, steps: Seq<Step<int>>, w: nat)
    requires
        increments_only(steps),
        stores(steps) == w,
    ensures
        run(init(v), steps) matches Some(m) ==> m.value == v + w,
{
    lemma_run_adds(init(v), steps);
}

proof fn lemma_run_adds(m: Model<int>, steps: Seq<Step<int>>)
    requires
        consistent(m),
        increments_only(steps),
    ensures
        run(m, steps) matches Some(n) ==> n.value == m.value + stores(steps),
    decreases steps.len(),
{
    if steps.len() > 0 {
        let rest = steps.drop_first();
        assert forall|i: int| 0 <= i < rest.len() && #[trigger] rest[i] is Store implies forall|
            x: int,
        | #[trigger] (rest[i]->Store_change)(x) == x + 1 by {
            assert(rest[i] == steps[i + 1]);
        }
        lemma_step_consistent(m, steps[0]);
        if let Some(n) = step(m, steps[0]) {
            lemma_run_adds(n, rest);
            if let Step::Store { guard, change } = steps[0] {
                assert(change(m.loaded[guard]) == m.loaded[guard] + 1);
            }
        }
    }
}

/// Atomic visibility: while any read guard lives, no step changes the value,
/// so a reader sees the value from before a writer's section or from after
/// it, never from within.
pub proof fn lemma_readers_see_whole_writes<V>(m: Model<V>, s: Step<V>)
    requires
        consistent(m),
        m.readers.len() > 0,
    ensures
        step(m, s) matches Some(n) ==> n.value == m.value,
{
}

/// Release correctness: once a writer has stored `v2`, every later state of
/// every interleaving in which nobody stores again holds `v2`, so each reader
/// that gets in after the writer let go sees `v2`.
pub proof fn lemma_release_then_read<V>(
    v: V,
    before: Seq<Step<V>>,
    g: nat,
    v2: V,
    after: Seq<Step<V>>,
)
    requires
        forall|i: int| 0 <= i < after.len() ==> !(#[trigger] after[i] is Store),
    ensures
        run(init(v), before + seq![Step::Store { guard: g, change: store(v2) }] + after) matches Some(m)
            ==> m.value == v2,
{
    let s = Step::Store { guard: g, change: store(v2) };
    lemma_run_append(init(v), before + seq![s], after);
    lemma_run_append(init(v), before, seq![s]);
    if let Some(m) = run(init(v), before) {
        lemma_run_one(m, s);
        if let Some(n) = step(m, s) {
            lemma_run_keeps_value(n, after);
        }
    }
}

proof fn lemma_run_keeps_value<V>(m: Model<V>, steps: Seq<Step<V>>)
    requires
        forall|i: int| 0 <= i < steps.len() ==> !(#[trigger] steps[i] is Store),
    ensures
        run(m, steps) matches Some(n) ==> n.value == m.value,
    decreases steps.len(),
{
    if steps.len() > 0 {
        let rest = steps.drop_first();
        assert forall|i: int| 0 <= i < rest.len() implies !(#[trigger] rest[i] is Store) by {
            assert(rest[i] == steps[i + 1]);
        }
        if let Some(n) = step(m, steps[0]) {
            lemma_run_keeps_value(n, rest);
        }
    }
}

/// Release correctness, on the shortest run: a writer stores `v2` into a lock
/// made with `v` and lets go; the next reader gets in and sees `v2`.
pub proof fn lemma_write_release_read<V>(v: V, v2: V)
    ensures
        run(
            init(v),
            seq![
                Step::Write { guard: 0 },
                Step::Load { guard: 0 },
                Step::Store { guard: 0, change: store(v2) },
                Step::EndWrite { guard: 0 },
                Step::Read { guard: 1, observed: IDLE },
            ],
        ) == Some(Model { word: 1, readers: set![1nat], ..init(v2) }),
{
    let steps = seq![
        Step::Write { guard: 0 },
        Step::Load { guard: 0 },
        Step::Store { guard: 0, change: store(v2) },
        Step::EndWrite { guard: 0 },
        Step::Read { guard: 1, observed: IDLE },
    ];
    let m1 = Model { word: WRITING as int, writers: set![0nat], ..init(v) };
    let m2 = Model { loaded: map![0nat => v], ..m1 };
    let m3 = Model { value: v2, ..m1 };
    let m4 = init(v2);
    let m5 = Model { word: 1, readers: set![1nat], ..init(v2) };
    assert(Set::<nat>::empty().insert(0) =~= set![0nat]);
    assert(Map::<nat, V>::empty().insert(0, v) =~= map![0nat => v]);
    assert(step(init(v), steps[0]) == Some(m1));
    assert(step(m1, steps[1]) == Some(m2));
    assert(m2.loaded.remove(0) =~= Map::<nat, V>::empty());
    assert(step(m2, steps[2]) == Some(m3));
    assert(set![0nat].remove(0) =~= Set::<nat>::empty());
    assert(Map::<nat, V>::empty().remove(0) =~= Map::<nat, V>::empty());
    assert(step(m3, steps[3]) == Some(m4));
    assert(Set::<nat>::empty().insert(1) =~= set![1nat]);
    assert(step(m4, steps[4]) == Some(m5));
    let s1 = steps.drop_first();
    let s2 = s1.drop_first();
    let s3 = s2.drop_first();
    let s4 = s3.drop_first();
    assert(s4 =~= seq![steps[4]]);
    lemma_run_one(m4, steps[4]);
    assert(run(m3, s3) == Some(m5));
    assert(run(m2, s2) == Some(m5));
    assert(run(m1, s1) == Some(m5));
}

/// Overflow: when the reader count is at its largest, no reader gets in, on
/// any plan; the count never wraps round to a negative word.
pub proof fn lemma_overflow_refused<V>(m: Model<V>, g: nat, observed: i32)
    requires
        consistent(m),
        m.word == i32::MAX,
    ensures
        step(m, Step::Read { guard: g, observed }) is None,
        plan_after(observed) is Overflow <==> observed == i32::MAX,
{
}

/// Release once: a guard's release succeeds exactly when that guard is
/// live, takes that guard and no other away, and cannot run again for it.
pub proof fn lemma_release_once<V>(m: Model<V>, g: nat)
    requires
        consistent(m),
    ensures
        step(m, Step::EndRead { guard: g }) is Some <==> m.readers.contains(g),
        step(m, Step::EndRead { guard: g }) matches Some(n) ==> n.readers == m.readers.remove(g)
            && step(n, Step::EndRead { guard: g }) is None,
        step(m, Step::EndWrite { guard: g }) is Some <==> m.writers.contains(g),
        step(m, Step::EndWrite { guard: g }) matches Some(n) ==> n.writers == m.writers.remove(g)
            && step(n, Step::EndWrite { guard: g }) is None,
{
}

/// Release once, all together: when readers `0` to `n - 1` have each come
/// and each gone once, the lock is exactly as it was made.
pub proof fn lemma_readers_leave_idle<V>(v: V, n: nat)
    requires
        n <= i32::MAX,
    ensures
        run(init(v), arrivals(n) + departures(n)) == Some(init(v)),
{
    lemma_readers_coexist(v, n);
    lemma_run_append(init(v), arrivals(n), departures(n));
    lemma_departures(v, n, n);
    assert(Set::new(|x: nat| n <= x < n) =~= Set::<nat>::empty());
}

proof fn lemma_departures<V>(v: V, k: nat, n: nat)
    requires
        k <= n,
    ensures
        run(Model { word: n as int, readers: first_ids(n), ..init(v) }, departures(k)) == Some(
            Model { word: n - k, readers: Set::new(|x: nat| k <= x < n), ..init(v) },
        ),
    decreases k,
{
    let m = Model { word: n as int, readers: first_ids(n), ..init(v) };
    if k == 0 {
        assert(first_ids(n) =~= Set::new(|x: nat| 0 <= x < n));
    } else {
        let j = (k - 1) as nat;
        lemma_departures(v, j, n);
        let last = Step::EndRead { guard: j };
        lemma_run_append(m, departures(j), seq![last]);
        assert(departures::<V>(k) =~= departures(j) + seq![last]);
        let p = Model { word: n - j, readers: Set::new(|x: nat| j <= x < n), ..init(v) };
        lemma_run_one(p, last);
        assert(p.readers.remove(j) =~= Set::new(|x: nat| k <= x < n));
    }
}

} // verus!
