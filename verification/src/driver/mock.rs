//! The driver of a runtime that does no I/O.

use crate::driver::Interruptor;
use crate::error::IoError;
use vstd::prelude::*;

verus! {

/// Wakes a mock driver, which never waits.
#[derive(Clone, Copy, Debug)]
pub struct MockInterruptor {}

impl Interruptor for MockInterruptor {
    fn interrupt(&self) {
    }
}

/// A driver that refuses all I/O.
#[derive(Clone, Copy, Debug)]
pub struct MockDriver {}

impl MockDriver {
    /// A driver that refuses all I/O.
    pub fn new() -> MockDriver {
        MockDriver {  }
    }

    /// Refuses an operation.
    pub fn submit(&self) -> (refusal: IoError)
        ensures
            refusal == IoError::MockSubmission,
    {
        IoError::MockSubmission
    }

    /// Refuses a handle.
    pub fn register_handle(&self) -> (refusal: IoError)
        ensures
            refusal == IoError::MockRegistration,
    {
        IoError::MockRegistration
    }

    /// Refuses to change a handle.
    pub fn reregister_handle(&self) -> (refusal: IoError)
        ensures
            refusal == IoError::MockReregistration,
    {
        IoError::MockReregistration
    }

    /// Refuses to let go of a handle.
    pub fn deregister_handle(&self) -> (refusal: IoError)
        ensures
            refusal == IoError::MockDeregistration,
    {
        IoError::MockDeregistration
    }

    /// Completions are not offered.
    pub fn supports_completion(&self) -> (supported: bool)
        ensures
            !supported,
    {
        false
    }

    /// Refuses a completion-based operation.
    pub fn submit_completion(&self) -> (refusal: IoError)
        ensures
            refusal == IoError::CompletionUnsupported,
    {
        crate::driver::unsupported_completion_error()
    }

    /// What wakes this driver.
    pub fn get_interruptor(&self) -> MockInterruptor {
        MockInterruptor {  }
    }
}

/// The mock driver refuses everything, each thing with an error of its own, and offers no
/// completions.
pub proof fn law_everything_is_refused(
    driver: MockDriver,
    submitted: IoError,
    registered: IoError,
    reregistered: IoError,
    deregistered: IoError,
    completed: IoError,
    supported: bool,
)
    requires
        call_ensures(MockDriver::submit, (&driver,), submitted),
        call_ensures(MockDriver::register_handle, (&driver,), registered),
        call_ensures(MockDriver::reregister_handle, (&driver,), reregistered),
        call_ensures(MockDriver::deregister_handle, (&driver,), deregistered),
        call_ensures(MockDriver::submit_completion, (&driver,), completed),
        call_ensures(MockDriver::supports_completion, (&driver,), supported),
    ensures
        submitted == IoError::MockSubmission,
        registered == IoError::MockRegistration,
        reregistered == IoError::MockReregistration,
        deregistered == IoError::MockDeregistration,
        completed == IoError::CompletionUnsupported,
        !supported,
{
}

} // verus!
