//! A reader/writer lock on one signed counter: 0 when free, the number of
//! readers when positive, `WRITER` while a writer holds it.
//!
//! Writers get no priority over readers: under steady read traffic a writer
//! may wait indefinitely.
use std::sync::atomic::{AtomicI32, Ordering};
use vstd::prelude::*;
use vstd::multiset::Multiset;
use crate::spinlock::SPIN_LIMIT;

verus! {

/// Counter of a free lock.
pub const FREE: i32 = 0;

/// Counter of a lock that a writer holds.
pub const WRITER: i32 = -1;

/// The counter after a reader joins at `c`, if a reader may join: no writer
/// holds the lock and the count of readers has room.
pub open spec fn read_acquire(c: int) -> Option<int> {
    if 0 <= c < i32::MAX {
        Some(c + 1)
    } else {
        None
    }
}

/// The counter after a writer takes the lock at `c`: only a free lock can
/// be taken.
pub open spec fn write_acquire(c: int) -> Option<int> {
    if c == FREE {
        Some(WRITER as int)
    } else {
        None
    }
}

/// The counter after a reader releases at `c`, if `c` counts a reader.
pub open spec fn read_release(c: int) -> Option<int> {
    if c > 0 {
        Some(c - 1)
    } else {
        None
    }
}

/// The counter after the writer releases at `c`, if `c` shows a writer.
pub open spec fn write_release(c: int) -> Option<int> {
    if c == WRITER {
        Some(FREE as int)
    } else {
        None
    }
}

/// The counter after a reader joins at `c`, if a reader may join.
pub fn next_read_count(c: i32) -> (r: Option<i32>)
    ensures
        r matches Some(n) ==> read_acquire(c as int) == Some(n as int),
        r is None ==> read_acquire(c as int) is None,
{
    if 0 <= c && c < i32::MAX {
        Some(c + 1)
    } else {
        None
    }
}

/// The counter after a writer takes the lock at `c`, if it may.
pub fn next_write_count(c: i32) -> (r: Option<i32>)
    ensures
        r matches Some(n) ==> write_acquire(c as int) == Some(n as int),
        r is None ==> write_acquire(c as int) is None,
{
    if c == FREE {
        Some(WRITER)
    } else {
        None
    }
}

/// The counter after a reader releases at `c`, if `c` counts a reader.
pub fn released_read_count(c: i32) -> (r: Option<i32>)
    ensures
        r matches Some(n) ==> read_release(c as int) == Some(n as int),
        r is None ==> read_release(c as int) is None,
{
    if c > 0 {
        Some(c - 1)
    } else {
        None
    }
}

/// The counter after the writer releases at `c`, if `c` shows a writer.
pub fn released_write_count(c: i32) -> (r: Option<i32>)
    ensures
        r matches Some(n) ==> write_release(c as int) == Some(n as int),
        r is None ==> write_release(c as int) is None,
{
    if c == WRITER {
        Some(FREE)
    } else {
        None
    }
}

/// A reader/writer lock.
pub struct RwLock {
    cnt: AtomicI32,
}

impl RwLock {
    /// A lock that nobody holds.
    pub fn new() -> (r: RwLock) {
        RwLock { cnt: AtomicI32::new(FREE) }
    }

    /// Takes a read lock, spinning while a writer holds the lock (for at
    /// most `SPIN_LIMIT` attempts).
    pub fn read_lock(&self) {
        let mut attempts: u64 = 0;
        while attempts < SPIN_LIMIT
            decreases SPIN_LIMIT - attempts,
        {
            let x = self.cnt.load(Ordering::Relaxed);
            match next_read_count(x) {
                Some(n) => {
                    if self.cnt.compare_exchange_weak(
                        x,
                        n,
                        Ordering::Acquire,
                        Ordering::Relaxed,
                    ).is_ok() {
                        return;
                    }
                },
                None => {
                    std::hint::spin_loop();
                },
            }
            attempts += 1;
        }
    }

    /// Releases a read lock. A counter that shows no reader is left as it is.
    pub fn read_unlock(&self) {
        if released_read_count(self.cnt.load(Ordering::Relaxed)).is_some() {
            self.cnt.fetch_sub(1, Ordering::Release);
        }
    }

    /// Takes the write lock, spinning while anyone holds the lock (for at
    /// most `SPIN_LIMIT` attempts).
    pub fn write_lock(&self) {
        let mut attempts: u64 = 0;
        while attempts < SPIN_LIMIT
            decreases SPIN_LIMIT - attempts,
        {
            let x = self.cnt.load(Ordering::Relaxed);
            match next_write_count(x) {
                Some(n) => {
                    if self.cnt.compare_exchange_weak(
                        x,
                        n,
                        Ordering::Acquire,
                        Ordering::Relaxed,
                    ).is_ok() {
                        return;
                    }
                },
                None => {
                    std::hint::spin_loop();
                },
            }
            attempts += 1;
        }
    }

    /// Releases the write lock. A counter that shows no writer is left as it
    /// is.
    pub fn write_unlock(&self) {
        if let Some(n) = released_write_count(self.cnt.load(Ordering::Relaxed)) {
            self.cnt.store(n, Ordering::Release);
        }
    }
}

impl Default for RwLock {
    fn default() -> (r: RwLock) {
        RwLock::new()
    }
}

/// Threads around one reader/writer lock: the counter, and the threads
/// that hold a read lock (a thread may hold several) or the write lock.
pub struct RwSystem {
    pub count: int,
    pub readers: Multiset<int>,
    pub writers: Multiset<int>,
}

/// One step of one thread.
pub enum RwStep {
    /// A compare-and-swap attempt for a read lock.
    ReadAcquire(int),
    /// Releasing one read lock.
    ReadRelease(int),
    /// A compare-and-swap attempt for the write lock.
    WriteAcquire(int),
    /// Releasing the write lock.
    WriteRelease(int),
}

/// A free lock.
pub open spec fn rw_init() -> RwSystem {
    RwSystem { count: FREE as int, readers: Multiset::empty(), writers: Multiset::empty() }
}

/// The system after `step`; a step that its thread cannot take changes
/// nothing.
pub open spec fn rw_step(s: RwSystem, step: RwStep) -> RwSystem {
    match step {
        RwStep::ReadAcquire(t) => match read_acquire(s.count) {
            Some(n) => RwSystem { count: n, readers: s.readers.insert(t), ..s },
            None => s,
        },
        RwStep::ReadRelease(t) => match read_release(s.count) {
            Some(n) if s.readers.contains(t) => RwSystem {
                count: n,
                readers: s.readers.remove(t),
                ..s
            },
            _ => s,
        },
        RwStep::WriteAcquire(t) => match write_acquire(s.count) {
            Some(n) => RwSystem { count: n, writers: s.writers.insert(t), ..s },
            None => s,
        },
        RwStep::WriteRelease(t) => match write_release(s.count) {
            Some(n) if s.writers.contains(t) => RwSystem {
                count: n,
                writers: s.writers.remove(t),
                ..s
            },
            _ => s,
        },
    }
}

/// The system after `steps`, taken in order.
pub open spec fn rw_run(s: RwSystem, steps: Seq<RwStep>) -> RwSystem
    decreases steps.len(),
{
    if steps.len() == 0 {
        s
    } else {
        rw_run(rw_step(s, steps[0]), steps.drop_first())
    }
}

/// The invariant of the reader/writer protocol: the counter is `WRITER`
/// with one writer and no reader, or the number of readers with no writer.
pub open spec fn rw_inv(s: RwSystem) -> bool {
    ||| s.count == WRITER && s.writers.len() == 1 && s.readers.len() == 0
    ||| 0 <= s.count <= i32::MAX && s.writers.len() == 0 && s.readers.len() == s.count
}

/// Every step keeps the invariant of the reader/writer protocol.
pub proof fn lemma_rw_step_keeps_inv(s: RwSystem, step: RwStep)
    requires
        rw_inv(s),
    ensures
        rw_inv(rw_step(s, step)),
{
    match step {
        RwStep::ReadRelease(t) => {
            if s.readers.contains(t) && s.count > 0 {
                assert(s.readers.remove(t).len() == s.readers.len() - 1);
            }
        },
        RwStep::WriteRelease(t) => {
            if s.writers.contains(t) && s.count == WRITER {
                assert(s.writers.remove(t).len() == 0);
            }
        },
        _ => {},
    }
}

/// Every run from a state of the invariant ends in a state of it.
pub proof fn lemma_rw_run_keeps_inv(s: RwSystem, steps: Seq<RwStep>)
    requires
        rw_inv(s),
    ensures
        rw_inv(rw_run(s, steps)),
    decreases steps.len(),
{
    if steps.len() > 0 {
        lemma_rw_step_keeps_inv(s, steps[0]);
        lemma_rw_run_keeps_inv(rw_step(s, steps[0]), steps.drop_first());
    }
}

/// Reader/writer exclusivity: whatever steps any threads take, in any
/// interleaving, from a free lock, no reader is inside while a writer is,
/// and at most one writer is inside.
pub proof fn lemma_rw_exclusive(steps: Seq<RwStep>)
    ensures
        ({
            let s = rw_run(rw_init(), steps);
            &&& !(s.readers.len() > 0 && s.writers.len() > 0)
            &&& s.writers.len() <= 1
        }),
{
    lemma_rw_run_keeps_inv(rw_init(), steps);
}

} // verus!
