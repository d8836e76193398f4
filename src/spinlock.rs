//! A spin lock and a recursive spin lock.
//!
//! The lock word of a `SpinLock` is `UNLOCKED` or `LOCKED`; taking the lock
//! is a compare-and-swap from `UNLOCKED` to `LOCKED`, releasing it a store of
//! `UNLOCKED`. The locks are unfair: a waiting thread spins on the word.
//!
//! The protocol is stated below as a transition system over the lock word,
//! the set of threads inside the critical section, and a counter that those
//! threads increment non-atomically; its laws are proved for every
//! interleaving of steps.
use std::sync::atomic::{AtomicI32, AtomicUsize, Ordering};
use vstd::prelude::*;

verus! {

/// Value of a free lock word.
pub const UNLOCKED: i32 = 0;

/// Value of a held lock word.
pub const LOCKED: i32 = 1;

/// Owner of a recursive spin lock that no thread holds.
pub const NO_OWNER: i32 = -1;

/// Upper bound on the attempts of a blocking acquisition. Each attempt costs
/// at least one atomic operation, so the bound outlasts any run of a process.
pub const SPIN_LIMIT: u64 = u64::MAX;

/// Relies on std::hint::spin_loop: a hint to the processor, with no effect
/// on memory.
pub assume_specification[ std::hint::spin_loop ]();

/// The lock word after a successful acquisition from `word`, if `word`
/// allows one.
pub open spec fn spin_acquire(word: int) -> Option<int> {
    if word == UNLOCKED {
        Some(LOCKED as int)
    } else {
        None
    }
}

/// The lock word after a successful acquisition from `word`, if `word`
/// allows one.
pub fn acquire_word(word: i32) -> (r: Option<i32>)
    ensures
        r matches Some(w) ==> spin_acquire(word as int) == Some(w as int),
        r is None ==> spin_acquire(word as int) is None,
{
    if word == UNLOCKED {
        Some(LOCKED)
    } else {
        None
    }
}

/// Whether a lock word shows the lock held.
pub fn word_is_locked(word: i32) -> (r: bool)
    ensures
        r == (word == LOCKED),
{
    word == LOCKED
}

/// A non-reentrant, unfair mutual-exclusion lock on one atomic word.
pub struct SpinLock {
    locked: AtomicI32,
}

impl SpinLock {
    /// A lock that no thread holds.
    pub fn new() -> (r: SpinLock) {
        SpinLock { locked: AtomicI32::new(UNLOCKED) }
    }

    /// Takes the lock, spinning while another thread holds it (for at most
    /// `SPIN_LIMIT` attempts).
    pub fn lock(&self) {
        let mut attempts: u64 = 0;
        while attempts < SPIN_LIMIT
            decreases SPIN_LIMIT - attempts,
        {
            if self.trylock() {
                return;
            }
            std::hint::spin_loop();
            attempts += 1;
        }
    }

    /// Releases the lock. Any thread may release it.
    pub fn unlock(&self) {
        if self.is_locked() {
            self.locked.store(UNLOCKED, Ordering::Release);
        }
    }

    /// One attempt to take the lock, without spinning: the word is read, and
    /// when `acquire_word` allows it, swapped to its next value if it has not
    /// changed. The swap may fail even when the lock is free; `true` when the
    /// lock was taken.
    pub fn trylock(&self) -> (r: bool) {
        let word = self.locked.load(Ordering::Relaxed);
        match acquire_word(word) {
            Some(next) => self.locked.compare_exchange_weak(
                word,
                next,
                Ordering::Acquire,
                Ordering::Relaxed,
            ).is_ok(),
            None => false,
        }
    }

    /// Whether some thread holds the lock.
    pub fn is_locked(&self) -> (r: bool) {
        word_is_locked(self.locked.load(Ordering::Acquire))
    }
}

impl Default for SpinLock {
    fn default() -> (r: SpinLock) {
        SpinLock::new()
    }
}

/// Threads around one spin lock that guards a shared counter. A thread
/// inside the critical section increments the counter in two steps: it
/// reads the counter into `pending`, then writes back that value plus one.
pub struct SpinSystem {
    /// The lock word.
    pub word: int,
    /// The threads inside the critical section.
    pub holders: Set<int>,
    /// The value each thread in the middle of an increment has read.
    pub pending: Map<int, int>,
    /// The shared counter.
    pub counter: int,
    /// Increments that have completed.
    pub done: int,
}

/// One step of one thread.
pub enum SpinStep {
    /// A compare-and-swap attempt on the lock word.
    Acquire(int),
    /// Reading the counter inside the critical section.
    Load(int),
    /// Writing back the value read plus one.
    Store(int),
    /// Releasing the lock.
    Release(int),
}

/// A free lock, a zero counter, no thread inside.
pub open spec fn spin_init() -> SpinSystem {
    SpinSystem {
        word: UNLOCKED as int,
        holders: Set::empty(),
        pending: Map::empty(),
        counter: 0,
        done: 0,
    }
}

/// The system after `step`; a step that its thread cannot take changes
/// nothing.
pub open spec fn spin_step(s: SpinSystem, step: SpinStep) -> SpinSystem {
    match step {
        SpinStep::Acquire(t) => match spin_acquire(s.word) {
            Some(w) => SpinSystem { word: w, holders: s.holders.insert(t), ..s },
            None => s,
        },
        SpinStep::Load(t) => if s.holders.contains(t) {
            SpinSystem { pending: s.pending.insert(t, s.counter), ..s }
        } else {
            s
        },
        SpinStep::Store(t) => if s.holders.contains(t) && s.pending.contains_key(t) {
            SpinSystem {
                pending: s.pending.remove(t),
                counter: s.pending[t] + 1,
                done: s.done + 1,
                ..s
            }
        } else {
            s
        },
        SpinStep::Release(t) => if s.holders.contains(t) && !s.pending.contains_key(t) {
            SpinSystem { word: UNLOCKED as int, holders: s.holders.remove(t), ..s }
        } else {
            s
        },
    }
}

/// The system after `steps`, taken in order.
pub open spec fn spin_run(s: SpinSystem, steps: Seq<SpinStep>) -> SpinSystem
    decreases steps.len(),
{
    if steps.len() == 0 {
        s
    } else {
        spin_run(spin_step(s, steps[0]), steps.drop_first())
    }
}

/// The invariant of the spin lock protocol.
pub open spec fn spin_inv(s: SpinSystem) -> bool {
    &&& s.holders.finite()
    &&& (s.word == UNLOCKED && s.holders.len() == 0) || (s.word == LOCKED && s.holders.len()
        == 1)
    &&& forall|t: int| #[trigger]
        s.pending.contains_key(t) ==> s.holders.contains(t) && s.pending[t] == s.counter
    &&& s.counter == s.done
}

proof fn lemma_singleton_members(h: Set<int>, a: int, b: int)
    requires
        h.finite(),
        h.len() == 1,
        h.contains(a),
        h.contains(b),
    ensures
        a == b,
{
    if a != b {
        assert(h.remove(a).contains(b));
        assert(h.remove(a).len() == 0);
        assert(h.remove(a) =~= Set::empty());
    }
}

/// Every step keeps the invariant of the spin lock protocol.
pub proof fn lemma_spin_step_keeps_inv(s: SpinSystem, step: SpinStep)
    requires
        spin_inv(s),
    ensures
        spin_inv(spin_step(s, step)),
{
    let n = spin_step(s, step);
    match step {
        SpinStep::Acquire(t) => {
            if s.word == UNLOCKED {
                assert(s.holders =~= Set::empty());
                assert(n.holders =~= set![t]);
                assert forall|u: int| #[trigger] n.pending.contains_key(u) implies n.holders.contains(
                    u,
                ) && n.pending[u] == n.counter by {
                    assert(s.holders.contains(u));
                }
            }
        },
        SpinStep::Load(t) => {
            assert forall|u: int| #[trigger] n.pending.contains_key(u) implies n.holders.contains(
                u,
            ) && n.pending[u] == n.counter by {
                if u != t {
                    assert(s.pending.contains_key(u));
                }
            }
        },
        SpinStep::Store(t) => {
            if s.holders.contains(t) && s.pending.contains_key(t) {
                assert forall|u: int| #[trigger] n.pending.contains_key(u) implies n.holders.contains(
                    u,
                ) && n.pending[u] == n.counter by {
                    assert(s.pending.contains_key(u));
                    assert(s.holders.contains(u));
                    lemma_singleton_members(s.holders, t, u);
                }
            }
        },
        SpinStep::Release(t) => {
            if s.holders.contains(t) && !s.pending.contains_key(t) {
                assert forall|u: int| #[trigger] n.pending.contains_key(u) implies n.holders.contains(
                    u,
                ) && n.pending[u] == n.counter by {
                    assert(s.holders.contains(u));
                    lemma_singleton_members(s.holders, t, u);
                }
            }
        },
    }
}

/// Every run from a state of the invariant ends in a state of it.
pub proof fn lemma_spin_run_keeps_inv(s: SpinSystem, steps: Seq<SpinStep>)
    requires
        spin_inv(s),
    ensures
        spin_inv(spin_run(s, steps)),
    decreases steps.len(),
{
    if steps.len() > 0 {
        lemma_spin_step_keeps_inv(s, steps[0]);
        lemma_spin_run_keeps_inv(spin_step(s, steps[0]), steps.drop_first());
    }
}

/// Mutual exclusion and no lost updates: whatever steps any threads take,
/// in any interleaving, from a free lock and a zero counter, at most one
/// thread is inside the critical section, and the counter equals the
/// number of increments that completed.
pub proof fn lemma_spin_mutual_exclusion(steps: Seq<SpinStep>)
    ensures
        ({
            let s = spin_run(spin_init(), steps);
            &&& forall|a: int, b: int|
                s.holders.contains(a) && s.holders.contains(b) ==> a == b
            &&& s.counter == s.done
        }),
{
    let s = spin_run(spin_init(), steps);
    assert(spin_init().holders =~= Set::<int>::empty());
    lemma_spin_run_keeps_inv(spin_init(), steps);
    assert forall|a: int, b: int| s.holders.contains(a) && s.holders.contains(b) implies a
        == b by {
        lemma_singleton_members(s.holders, a, b);
    }
}

/// A spin lock that its holder may take again: it records the owning
/// thread and how many times the owner holds it.
pub struct RecursiveSpinLock {
    lk: SpinLock,
    owner: AtomicI32,
    count: AtomicUsize,
}

/// The model state that the lock word, owner and count values stand for.
pub open spec fn recursive_state_of(word: i32, owner: i32, count: usize) -> RecursiveState {
    RecursiveState { word: word as int, owner: owner as int, count: count as nat }
}

/// One attempt of thread `me` on a recursive spin lock that shows `word`,
/// `owner` and `count`: the next (word, owner, count), or `None` when the
/// thread would have to spin (or the count has no room left).
pub fn recursive_try_step(word: i32, owner: i32, count: usize, me: i32) -> (r: Option<
    (i32, i32, usize),
>)
    ensures
        r matches Some((w, o, c)) ==> recursive_can_lock(recursive_state_of(word, owner, count), me as int)
            && recursive_lock(recursive_state_of(word, owner, count), me as int)
            == recursive_state_of(w, o, c),
        r is None ==> !recursive_can_lock(recursive_state_of(word, owner, count), me as int)
            || count == usize::MAX,
{
    if count == usize::MAX {
        None
    } else if owner == me {
        Some((word, owner, count + 1))
    } else {
        match acquire_word(word) {
            Some(w) => Some((w, me, count + 1)),
            None => None,
        }
    }
}

/// One release of a recursive spin lock that shows `word`, `owner` and
/// `count`: the next (word, owner, count).
pub fn recursive_unlock_step(word: i32, owner: i32, count: usize) -> (r: (i32, i32, usize))
    ensures
        recursive_unlock(recursive_state_of(word, owner, count)) == recursive_state_of(r.0, r.1, r.2),
{
    if word_is_locked(word) && count > 0 {
        if count == 1 {
            (UNLOCKED, NO_OWNER, 0)
        } else {
            (word, owner, count - 1)
        }
    } else {
        (word, owner, count)
    }
}

impl RecursiveSpinLock {
    /// A lock that no thread holds.
    pub fn new() -> (r: RecursiveSpinLock) {
        RecursiveSpinLock {
            lk: SpinLock::new(),
            owner: AtomicI32::new(NO_OWNER),
            count: AtomicUsize::new(0),
        }
    }

    /// Takes the lock for thread `me`. The owner takes it again at once;
    /// another thread spins until the lock is free (for at most
    /// `SPIN_LIMIT` attempts).
    pub fn lock(&self, me: i32)
        requires
            me != NO_OWNER,
    {
        let mut attempts: u64 = 0;
        while attempts < SPIN_LIMIT
            invariant
                me != NO_OWNER,
            decreases SPIN_LIMIT - attempts,
        {
            if self.trylock(me) {
                return;
            }
            std::hint::spin_loop();
            attempts += 1;
        }
    }

    /// Releases one hold of the lock, as `recursive_unlock_step` says: the
    /// last one clears the owner and frees the inner lock.
    pub fn unlock(&self) {
        let word = self.lk.locked.load(Ordering::Relaxed);
        let owner = self.owner.load(Ordering::Relaxed);
        let count = self.count.load(Ordering::Relaxed);
        let (w, o, c) = recursive_unlock_step(word, owner, count);
        if c != count {
            self.count.store(c, Ordering::Relaxed);
        }
        if o != owner {
            self.owner.store(o, Ordering::Relaxed);
        }
        if w != word {
            self.lk.locked.store(w, Ordering::Release);
        }
    }

    /// One attempt to take the lock for thread `me`, without spinning, as
    /// `recursive_try_step` says: the owner raises the count; another thread
    /// takes the inner lock by one compare-and-swap, then records itself as
    /// owner with a count of one. `false` leaves the lock as it was.
    pub fn trylock(&self, me: i32) -> (r: bool)
        requires
            me != NO_OWNER,
    {
        let owner = self.owner.load(Ordering::Relaxed);
        let count = self.count.load(Ordering::Relaxed);
        let word = self.lk.locked.load(Ordering::Relaxed);
        match recursive_try_step(word, owner, count, me) {
            None => false,
            Some((w, o, c)) => {
                if owner != me {
                    if self.lk.locked.compare_exchange_weak(
                        word,
                        w,
                        Ordering::Acquire,
                        Ordering::Relaxed,
                    ).is_err() {
                        return false;
                    }
                    self.owner.store(o, Ordering::Relaxed);
                }
                self.count.store(c, Ordering::Relaxed);
                true
            },
        }
    }
}

impl Default for RecursiveSpinLock {
    fn default() -> (r: RecursiveSpinLock) {
        RecursiveSpinLock::new()
    }
}

/// The state of a recursive spin lock: the inner lock word, the owner and
/// the number of holds.
pub struct RecursiveState {
    pub word: int,
    pub owner: int,
    pub count: nat,
}

/// A free recursive spin lock.
pub open spec fn recursive_init() -> RecursiveState {
    RecursiveState { word: UNLOCKED as int, owner: NO_OWNER as int, count: 0 }
}

/// Whether thread `t` takes the lock now rather than spinning.
pub open spec fn recursive_can_lock(s: RecursiveState, t: int) -> bool {
    s.owner == t || spin_acquire(s.word) is Some
}

/// The state after thread `t` takes the lock.
pub open spec fn recursive_lock(s: RecursiveState, t: int) -> RecursiveState {
    if s.owner == t {
        RecursiveState { count: s.count + 1, ..s }
    } else {
        match spin_acquire(s.word) {
            Some(w) => RecursiveState { word: w, owner: t, count: s.count + 1 },
            None => s,
        }
    }
}

/// The state after one release.
pub open spec fn recursive_unlock(s: RecursiveState) -> RecursiveState {
    if s.word == LOCKED && s.count > 0 {
        if s.count == 1 {
            recursive_init()
        } else {
            RecursiveState { count: (s.count - 1) as nat, ..s }
        }
    } else {
        s
    }
}

/// The state after thread `t` takes the lock `k` times.
pub open spec fn recursive_locks(s: RecursiveState, t: int, k: nat) -> RecursiveState
    decreases k,
{
    if k == 0 {
        s
    } else {
        recursive_lock(recursive_locks(s, t, (k - 1) as nat), t)
    }
}

/// The state after `j` releases.
pub open spec fn recursive_unlocks(s: RecursiveState, j: nat) -> RecursiveState
    decreases j,
{
    if j == 0 {
        s
    } else {
        recursive_unlock(recursive_unlocks(s, (j - 1) as nat))
    }
}

proof fn lemma_recursive_locks(t: int, k: nat)
    requires
        t != NO_OWNER,
    ensures
        k > 0 ==> recursive_locks(recursive_init(), t, k) == (RecursiveState {
            word: LOCKED as int,
            owner: t,
            count: k,
        }),
        forall|i: nat| i < k ==> recursive_can_lock(#[trigger] recursive_locks(recursive_init(), t, i), t),
    decreases k,
{
    if k > 0 {
        lemma_recursive_locks(t, (k - 1) as nat);
        let prev = recursive_locks(recursive_init(), t, (k - 1) as nat);
        assert(recursive_locks(recursive_init(), t, k) == recursive_lock(prev, t));
        if k == 1 {
            assert(prev == recursive_init());
        }
        assert forall|i: nat| i < k implies recursive_can_lock(
            #[trigger] recursive_locks(recursive_init(), t, i),
            t,
        ) by {
            if i == k - 1 && i > 0 {
                assert(recursive_locks(recursive_init(), t, i).owner == t);
            }
        }
    }
}

proof fn lemma_recursive_unlocks(t: int, k: nat, j: nat)
    requires
        t != NO_OWNER,
        k > 0,
        j <= k,
    ensures
        recursive_unlocks(RecursiveState { word: LOCKED as int, owner: t, count: k }, j) == if j
            < k {
            RecursiveState { word: LOCKED as int, owner: t, count: (k - j) as nat }
        } else {
            recursive_init()
        },
    decreases j,
{
    if j > 0 {
        lemma_recursive_unlocks(t, k, (j - 1) as nat);
    }
}

/// Reentrancy: a thread that takes a free recursive spin lock `k` times is
/// never made to spin by its own lock, and after `j <= k` releases it still
/// holds the lock `k - j` times, against every other thread, until the
/// `k`-th release frees it.
pub proof fn lemma_recursive_reentrancy(t: int, k: nat, j: nat)
    requires
        t != NO_OWNER,
        k > 0,
        j <= k,
    ensures
        forall|i: nat| i < k ==> recursive_can_lock(#[trigger] recursive_locks(recursive_init(), t, i), t),
        ({
            let s = recursive_unlocks(recursive_locks(recursive_init(), t, k), j);
            &&& s.count == k - j
            &&& j < k ==> s.owner == t && s.word == LOCKED && forall|u: int|
                u != t ==> !#[trigger] recursive_can_lock(s, u)
            &&& j == k ==> s == recursive_init()
        }),
{
    lemma_recursive_locks(t, k);
    lemma_recursive_unlocks(t, k, j);
}

} // verus!
