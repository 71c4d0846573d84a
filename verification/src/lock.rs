//! The resource lock: cross-process mutual exclusion around one shared
//! hardware resource.
//!
//! The EC is one physical device shared by every process on the host,
//! and its handshake protocol carries no transaction ids: interleaved
//! callers would desynchronise it. A [`Semaphore`] capability stands
//! for a named, process-external binary semaphore; [`Mutex`] wraps the
//! protected value and makes holding the semaphore a static
//! precondition of reaching it.

use vstd::prelude::*;

use crate::Error;

verus! {

/// How many times `lock` retries a non-blocking acquire before giving
/// up with a `Lock` error.
pub const LOCK_RETRIES: u32 = 10;

/// Milliseconds between two acquisition attempts.
pub const LOCK_RETRY_INTERVAL: u64 = 5;

/// A binary semaphore granting exclusive access to one shared
/// resource. OS-backed implementations realise it with a named,
/// cross-process semaphore identified by a fixed key; the simulator
/// realises it in memory. `held()` models whether the resource is
/// currently held through this handle.
pub trait Semaphore: Sized {
    /// Whether the resource is currently held through this handle.
    spec fn held(&self) -> bool;

    /// Try once, without blocking, to take the resource. Success means
    /// the resource is now held; failure leaves the handle as it was.
    fn try_acquire(&mut self) -> (r: bool)
        ensures
            r ==> final(self).held(),
            !r ==> final(self).held() == old(self).held(),
    ;

    /// Give the resource back.
    fn release(&mut self)
        requires
            old(self).held(),
        ensures
            !final(self).held(),
    ;

    /// Wait roughly `ms` milliseconds between two attempts.
    fn pause(&mut self, ms: u64)
        ensures
            final(self).held() == old(self).held(),
    ;
}

/// A value wrapped in a binary semaphore: the value is reachable only
/// while the semaphore is held.
pub struct Mutex<T, S: Semaphore> {
    sem: S,
    data: T,
}

impl<T, S: Semaphore> Mutex<T, S> {
    /// Whether the protected resource is currently held.
    pub closed spec fn held(&self) -> bool {
        self.sem.held()
    }

    /// The protected value.
    pub closed spec fn inner(&self) -> T {
        self.data
    }

    /// Wrap `data` behind the semaphore.
    pub fn new(sem: S, data: T) -> (r: Mutex<T, S>)
        ensures
            r.held() == sem.held(),
            r.inner() == data,
    {
        Mutex { sem, data }
    }

    /// Acquire the semaphore: one non-blocking attempt, retried a
    /// bounded number of times with a short pause in between; if every
    /// attempt fails, a `Lock` error (resource busy).
    pub fn lock(&mut self) -> (r: Result<(), Error>)
        ensures
            final(self).inner() == old(self).inner(),
            match r {
                Ok(()) => final(self).held(),
                Err(e) => e == Error::Lock && final(self).held() == old(self).held(),
            },
    {
        let mut i: u32 = 0;
        while i < LOCK_RETRIES
            invariant
                self.sem.held() == old(self).sem.held(),
                self.data == old(self).data,
            decreases LOCK_RETRIES - i,
        {
            if self.sem.try_acquire() {
                return Ok(());
            }
            self.sem.pause(LOCK_RETRY_INTERVAL);
            i = i + 1;
        }
        Err(Error::Lock)
    }

    /// Release the semaphore.
    pub fn unlock(&mut self)
        requires
            old(self).held(),
        ensures
            !final(self).held(),
            final(self).inner() == old(self).inner(),
    {
        self.sem.release();
    }

    /// The protected value, reachable only while the semaphore is held.
    pub fn data_mut(&mut self) -> (r: &mut T)
        requires
            old(self).held(),
        ensures
            *r == old(self).inner(),
            final(self).inner() == *final(r),
            final(self).held() == old(self).held(),
    {
        &mut self.data
    }
}

} // verus!
