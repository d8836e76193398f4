//! Low-level concurrency substrate: spin locks, a reader/writer lock, the
//! command protocol of a logical core, and a compact line logger.
pub mod lcore;
pub mod log;
pub mod rwlock;
pub mod spinlock;
pub mod sys;
pub mod thread;
