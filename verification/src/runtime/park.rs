//! What a parker decides. A parker holds one of three states and goes from
//! one to the next by atomic exchanges; what it does after each exchange
//! depends on the state that the exchange found, and is decided here. The
//! exchanges, the lock and the waiting are the caller's.

use vstd::prelude::*;

verus! {

/// No thread is parked and no notification is pending.
pub const EMPTY: usize = 0;

/// A thread is parked and waits for a notification.
pub const PARKED: usize = 1;

/// A notification is pending.
pub const NOTIFIED: usize = 2;

/// What `unpark` does after it has put `NOTIFIED` in place of the state.
#[derive(Debug, Clone, Copy, PartialEq, Eq)]
pub enum Unpark {
    /// Nobody waits: return whether the notification is new.
    Return(bool),
    /// A thread waits: take and release the lock, wake the thread, and
    /// return `true`.
    Wake,
}

/// What `park` does next.
#[derive(Debug, Clone, Copy, PartialEq, Eq)]
pub enum Park {
    /// Return the value.
    Return(bool),
    /// Take the lock and try to go from `EMPTY` to `PARKED`.
    Lock,
    /// Put `EMPTY` in place of the state, which must have been `NOTIFIED`,
    /// and return `true`.
    Consume,
    /// Wait on the condition variable.
    Wait,
}

/// Whether a number is one of the three states.
pub open spec fn is_state(state: usize) -> bool {
    state == EMPTY || state == PARKED || state == NOTIFIED
}

/// What `unpark` does after it has put `NOTIFIED` in place of `previous`.
pub fn unpark_found(previous: usize) -> (step: Unpark)
    requires
        is_state(previous),
    ensures
        step == if previous == EMPTY {
            Unpark::Return(true)
        } else if previous == NOTIFIED {
            Unpark::Return(false)
        } else {
            Unpark::Wake
        },
{
    if previous == EMPTY {
        Unpark::Return(true)
    } else if previous == NOTIFIED {
        Unpark::Return(false)
    } else {
        Unpark::Wake
    }
}

/// What `park` does first: `consumed` says whether it found a pending
/// notification and took it, `no_wait` whether it was given a timeout of
/// zero.
pub fn park_begins(consumed: bool, no_wait: bool) -> (step: Park)
    ensures
        step == if consumed {
            Park::Return(true)
        } else if no_wait {
            Park::Return(false)
        } else {
            Park::Lock
        },
{
    if consumed {
        Park::Return(true)
    } else if no_wait {
        Park::Return(false)
    } else {
        Park::Lock
    }
}

/// What `park` does under the lock, after it has tried to go from `EMPTY` to
/// `PARKED` and found `found`.
pub fn park_locked(found: usize) -> (step: Park)
    requires
        found == EMPTY || found == NOTIFIED,
    ensures
        step == if found == EMPTY {
            Park::Wait
        } else {
            Park::Consume
        },
{
    if found == EMPTY {
        Park::Wait
    } else {
        Park::Consume
    }
}

/// What `park` returns after a wait with a timeout, when it has put `EMPTY`
/// in place of `previous`: whether it was notified.
pub fn park_timed_out(previous: usize) -> (notified: bool)
    requires
        previous == NOTIFIED || previous == PARKED,
    ensures
        notified == (previous == NOTIFIED),
{
    previous == NOTIFIED
}

/// What `park` does after a wait without a timeout: `consumed` says whether
/// it found a pending notification and took it.
pub fn park_woken(consumed: bool) -> (step: Park)
    ensures
        step == if consumed {
            Park::Return(true)
        } else {
            Park::Wait
        },
{
    if consumed {
        Park::Return(true)
    } else {
        Park::Wait
    }
}

} // verus!
