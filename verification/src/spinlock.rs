//! A busy-wait spin lock over a value, for state shared with interrupt handlers and other logical CPUs.
//!
//! In this sequential model the lock's state machine is explicit: taking
//! the lock moves the protected value into the guard, releasing moves it
//! back. While a guard is out, the lock is held and every further attempt
//! fails, exactly as the busy-wait hardware lock refuses a second owner.
use vstd::prelude::*;

verus! {

/// Exclusive access to the protected value, held until `unlock`.
pub struct SpinlockGuard<T> {
    pub value: T,
}

impl<T> SpinlockGuard<T> {
    /// Read the protected value through the guard.
    pub fn get(&self) -> (r: &T)
        ensures
            r == &self.value,
    {
        &self.value
    }

    /// Replace the protected value through the guard.
    pub fn set(&mut self, value: T)
        ensures
            final(self).value == value,
    {
        self.value = value;
    }
}

/// A busy-wait spin lock over a value, for state shared with interrupt handlers and other logical CPUs.
pub struct Spinlock<T> {
    pub locked: bool,
    pub value: Option<T>,
}

impl<T> Spinlock<T> {
    /// Held exactly while the value is out with a guard.
    pub open spec fn wf(self) -> bool {
        self.locked <==> self.value is None
    }

    pub fn new(data: T) -> (r: Spinlock<T>)
        ensures
            r.wf(),
            !r.locked,
            r.value == Some(data),
    {
        Spinlock { locked: false, value: Some(data) }
    }

    /// Take the lock if nobody holds it: the guard carries the value out.
    pub fn try_lock(&mut self) -> (r: Option<SpinlockGuard<T>>)
        requires
            old(self).wf(),
        ensures
            final(self).wf(),
            old(self).locked ==> r is None && *final(self) == *old(self),
            !old(self).locked ==> {
                &&& r matches Some(g) && Some(g.value) == old(self).value
                &&& final(self).locked
            },
    {
        if self.locked {
            return None;
        }
        let mut taken: Option<T> = None;
        core::mem::swap(&mut taken, &mut self.value);
        match taken {
            Some(value) => {
                self.locked = true;
                Some(SpinlockGuard { value })
            },
            None => unreached(),
        }
    }

    /// Take the lock. The hardware form busy-waits; in this sequential
    /// model a held lock would spin forever, so the caller must not hold it.
    pub fn lock(&mut self) -> (r: SpinlockGuard<T>)
        requires
            old(self).wf(),
            !old(self).locked,
        ensures
            final(self).wf(),
            final(self).locked,
            Some(r.value) == old(self).value,
    {
        match self.try_lock() {
            Some(g) => g,
            None => unreached(),
        }
    }

    /// Release the lock, returning the protected value.
    pub fn unlock(&mut self, guard: SpinlockGuard<T>)
        requires
            old(self).wf(),
            old(self).locked,
        ensures
            final(self).wf(),
            !final(self).locked,
            final(self).value == Some(guard.value),
    {
        self.value = Some(guard.value);
        self.locked = false;
    }
}

} // verus!
