//! Cooperative cancellation shared between a capture loop and its owner.
use vstd::prelude::*;
use std::sync::Arc;
use std::sync::atomic::AtomicBool;
use std::sync::atomic::Ordering;

verus! {

/// A flag that any clone can raise and every clone sees. Other threads may
/// raise it at any moment, so no call here promises what a later read gives.
#[derive(Clone, Debug, Default)]
pub struct CancellationToken(Arc<AtomicBool>);

impl CancellationToken {
    /// A token that is not cancelled yet.
    pub fn new() -> (t: Self) {
        CancellationToken(Arc::new(AtomicBool::new(false)))
    }

    /// Asks every holder of the token to stop.
    pub fn cancel(&self) {
        self.0.store(true, Ordering::Release);
    }

    /// Whether the token was cancelled.
    pub fn is_cancelled(&self) -> (b: bool) {
        self.0.load(Ordering::Acquire)
    }
}

} // verus!

verus! {

/// Whether an input session currently owns the global mouse hook; `active`
/// is the process-wide flag the hook's owner raises. Other threads raise and
/// clear it at any moment, so nothing is claimed of the reading.
pub fn is_recording(active: &AtomicBool) -> (b: bool) {
    active.load(Ordering::Acquire)
}

/// Claims the global mouse hook for a new input session: refused while
/// another session holds it. `was_active` is what raising the flag found.
pub fn input_session_claim(was_active: bool) -> (r: Result<(), crate::input::InputError>)
    ensures
        !was_active ==> r is Ok,
        was_active ==> (r matches Err(crate::input::InputError::Native(m)) && m@
            == "input telemetry is already recording; stop it before starting a new session"@),
{
    if was_active {
        return Err(
            crate::input::InputError::Native(
                crate::text::owned(
                    "input telemetry is already recording; stop it before starting a new session",
                ),
            ),
        );
    }
    Ok(())
}

/// Raises the session flag and decides from what it found whether the new
/// session may start. Whether the flag was already raised depends on the
/// other sessions, so success is not promised; the only refusal is that
/// another session is recording.
pub fn claim_input_session(active: &AtomicBool) -> (r: Result<(), crate::input::InputError>)
    ensures
        r matches Err(e) ==> (e matches crate::input::InputError::Native(m) && m@
            == "input telemetry is already recording; stop it before starting a new session"@),
{
    let was_active = active.swap(true, Ordering::AcqRel);
    input_session_claim(was_active)
}

} // verus!
