use vstd::prelude::*;
use core::sync::atomic::AtomicU64;
use core::sync::atomic::Ordering;

verus! {

/// A pthread mutex: the id of the task that holds it, 0 when it is free.
#[derive(Debug)]
pub struct PthreadMutex(pub AtomicU64);

/// What one attempt to take a mutex found.
#[derive(Clone, Copy, Debug, PartialEq, Eq, Structural)]
pub enum LockAttempt {
    /// The caller now holds the mutex.
    Acquired,
    /// Another task (or a spurious failure, owner 0) kept the mutex; try again.
    Busy(u64),
    /// The caller already holds the mutex: waiting would never end.
    Reentrant,
}

/// How the result of a compare-and-swap from 0 to `current_id` is read.
pub open spec fn lock_attempt_of(cas: Result<u64, u64>, current_id: u64) -> LockAttempt {
    match cas {
        Ok(_) => LockAttempt::Acquired,
        Err(owner) => if owner == current_id {
            LockAttempt::Reentrant
        } else {
            LockAttempt::Busy(owner)
        },
    }
}

/// Reads the result of a compare-and-swap from 0 to `current_id`.
pub fn classify_lock_attempt(cas: Result<u64, u64>, current_id: u64) -> (r: LockAttempt)
    ensures
        r == lock_attempt_of(cas, current_id),
{
    match cas {
        Ok(_) => LockAttempt::Acquired,
        Err(owner) => if owner == current_id {
            LockAttempt::Reentrant
        } else {
            LockAttempt::Busy(owner)
        },
    }
}

/// Checks a release: the mutex held `previous_owner` and `current_id`
/// released it; a release by another task reports that task.
pub fn unlock_outcome(previous_owner: u64, current_id: u64) -> (r: Result<(), u64>)
    ensures
        r == if previous_owner == current_id {
            Ok::<(), u64>(())
        } else {
            Err(previous_owner)
        },
{
    if previous_owner == current_id {
        Ok(())
    } else {
        Err(previous_owner)
    }
}

impl PthreadMutex {
    /// A free mutex.
    pub fn new() -> (r: Self) {
        PthreadMutex(AtomicU64::new(0))
    }

    /// One attempt to take the mutex for the task `current_id`.
    pub fn try_lock(&self, current_id: u64) -> (r: LockAttempt)
        ensures
            r matches LockAttempt::Busy(owner) ==> owner != current_id,
    {
        let cas = self.0.compare_exchange_weak(0, current_id, Ordering::Acquire, Ordering::Relaxed);
        classify_lock_attempt(cas, current_id)
    }

    /// Releases the mutex for the task `current_id`; when another task held
    /// it, the mutex is still freed and that task is reported.
    pub fn unlock(&self, current_id: u64) -> (r: Result<(), u64>)
        ensures
            r matches Err(owner) ==> owner != current_id,
    {
        let previous = self.0.swap(0, Ordering::Release);
        unlock_outcome(previous, current_id)
    }
}

} // verus!
