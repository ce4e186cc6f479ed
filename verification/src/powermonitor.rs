//! Watching for the lock of the user's session, on platforms that offer no
//! way to watch it.

use vstd::prelude::*;

verus! {

/// Why a lock callback could not be registered.
#[derive(Debug, Clone, Copy, PartialEq, Eq, Structural)]
pub enum LockMonitorError {
    Unavailable,
}

/// Registers interest in the lock of the session. Nothing is watched here, so
/// the callback is never called; registering always succeeds.
pub fn on_lock() -> (registered: Result<(), LockMonitorError>)
    ensures
        registered == Ok::<(), LockMonitorError>(()),
{
    Ok(())
}

/// Whether the lock of the session can be watched: here it cannot.
pub fn is_lock_monitor_available() -> (available: bool)
    ensures
        !available,
{
    false
}

} // verus!
