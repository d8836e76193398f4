use dpdk::rwlock::{
    next_read_count, next_write_count, released_read_count, released_write_count, RwLock, FREE,
    WRITER,
};
use dpdk::spinlock::{
    acquire_word, recursive_try_step, recursive_unlock_step, word_is_locked, RecursiveSpinLock,
    SpinLock, LOCKED, NO_OWNER, UNLOCKED,
};

#[test]
fn spinlock_lock_unlock() {
    let lk = SpinLock::default();
    assert!(!lk.is_locked());

    lk.lock();
    assert!(lk.is_locked());

    lk.unlock();
    assert!(!lk.is_locked());
}

#[test]
fn spinlock_trylock() {
    let lk = SpinLock::default();
    assert!(!lk.is_locked());

    assert!(lk.trylock());
    assert!(lk.is_locked());

    assert!(!lk.trylock());

    lk.unlock();
    assert!(!lk.is_locked());
}

#[test]
fn recursive_spinlock_lock_unlock() {
    let lk = RecursiveSpinLock::default();

    lk.lock(1);
    lk.unlock();
}

#[test]
fn recursive_spinlock_nests_for_its_owner() {
    let lk = RecursiveSpinLock::new();
    lk.lock(7);
    lk.lock(7);
    assert!(lk.trylock(7));
    assert!(!lk.trylock(8));
    lk.unlock();
    lk.unlock();
    assert!(!lk.trylock(8));
    lk.unlock();
    assert!(lk.trylock(8));
    assert!(!lk.trylock(7));
    lk.unlock();
    assert!(lk.trylock(7));
    lk.unlock();
}

#[test]
fn rwlock_counter_steps() {
    assert_eq!(next_read_count(FREE), Some(1));
    assert_eq!(next_read_count(5), Some(6));
    assert_eq!(next_read_count(WRITER), None);
    assert_eq!(next_read_count(i32::MAX), None);
    assert_eq!(next_write_count(FREE), Some(WRITER));
    assert_eq!(next_write_count(3), None);
    assert_eq!(next_write_count(WRITER), None);
    assert_eq!(released_read_count(2), Some(1));
    assert_eq!(released_read_count(1), Some(FREE));
    assert_eq!(released_read_count(FREE), None);
    assert_eq!(released_read_count(WRITER), None);
    assert_eq!(released_write_count(WRITER), Some(FREE));
    assert_eq!(released_write_count(FREE), None);
    assert_eq!(released_write_count(4), None);
}

#[test]
fn rwlock_readers_then_writer() {
    let lk = RwLock::new();
    lk.read_lock();
    lk.read_lock();
    // a write unlock while readers hold the lock changes nothing
    lk.write_unlock();
    lk.read_unlock();
    lk.read_unlock();
    lk.write_lock();
    // a read unlock while the writer holds the lock changes nothing
    lk.read_unlock();
    lk.write_unlock();
    lk.read_lock();
    lk.read_unlock();
}

#[test]
fn spinlock_word_steps() {
    assert_eq!(acquire_word(UNLOCKED), Some(LOCKED));
    assert_eq!(acquire_word(LOCKED), None);
    assert!(word_is_locked(LOCKED));
    assert!(!word_is_locked(UNLOCKED));
}

#[test]
fn recursive_steps() {
    // a free lock: thread 5 takes the inner lock
    assert_eq!(recursive_try_step(UNLOCKED, NO_OWNER, 0, 5), Some((LOCKED, 5, 1)));
    // the owner re-enters without touching the word
    assert_eq!(recursive_try_step(LOCKED, 5, 1, 5), Some((LOCKED, 5, 2)));
    // another thread must spin
    assert_eq!(recursive_try_step(LOCKED, 5, 2, 6), None);
    assert_eq!(recursive_try_step(LOCKED, 5, usize::MAX, 5), None);
    // releases
    assert_eq!(recursive_unlock_step(LOCKED, 5, 2), (LOCKED, 5, 1));
    assert_eq!(recursive_unlock_step(LOCKED, 5, 1), (UNLOCKED, NO_OWNER, 0));
    assert_eq!(recursive_unlock_step(UNLOCKED, NO_OWNER, 0), (UNLOCKED, NO_OWNER, 0));
}
