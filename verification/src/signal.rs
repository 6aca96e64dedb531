//! The condition on which subscribers wait for the engine's wake-up.

use vstd::prelude::*;

verus! {

/// The condition variable of `parking_lot`. Nothing of its inside is known
/// here; it is only created, handed on and notified.
#[verifier::external_type_specification]
#[verifier::external_body]
pub struct ExCondvar(parking_lot::Condvar);

/// Calls `parking_lot::Condvar::new`. Nothing is claimed of the result.
#[verifier::external_body]
fn fresh_condvar() -> parking_lot::Condvar {
    parking_lot::Condvar::new()
}

/// Calls `parking_lot::Condvar::notify_all`, which wakes every thread that
/// waits on the condition variable and returns at once. How many threads
/// it woke depends on what the other threads were doing, so nothing is
/// claimed of the number.
#[verifier::external_body]
fn wake_all(condvar: &parking_lot::Condvar) -> usize {
    condvar.notify_all()
}

/// The signal shared between the engine's wake-up callback and all
/// subscribers. It says that something may be ready, never what: whoever
/// wakes must look again.
pub struct WakeSignal {
    condvar: parking_lot::Condvar,
}

impl WakeSignal {
    /// A signal on which nobody waits yet.
    pub fn new() -> WakeSignal {
        WakeSignal { condvar: fresh_condvar() }
    }

    /// The condition variable to wait on, and for the engine's callback to
    /// notify.
    pub fn condvar(&self) -> (condvar: &parking_lot::Condvar)
        ensures
            *condvar == self.own_condvar(),
    {
        &self.condvar
    }

    /// Wakes every subscriber that waits. Returns how many were woken.
    pub fn notify_all(&self) -> usize {
        wake_all(&self.condvar)
    }

    /// The condition variable that belongs to the signal: the one that
    /// `notify_all` notifies.
    pub closed spec fn own_condvar(&self) -> parking_lot::Condvar {
        self.condvar
    }
}

} // verus!
