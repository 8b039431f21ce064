//! Registered handles and their mode.

use crate::driver::{Interest, RegistrationMode};
use crate::error::IoError;
use vstd::prelude::*;

verus! {

/// The mode that a handle gets: completions where the driver offers them, readiness otherwise.
pub open spec fn effective(requested: RegistrationMode, supported: bool) -> RegistrationMode {
    if supported {
        requested
    } else {
        RegistrationMode::Poll
    }
}

/// The mode that a handle gets when it asks for one. `supported` says whether the driver offers
/// completions.
pub fn effective_mode(requested: RegistrationMode, supported: bool) -> (mode: RegistrationMode)
    ensures
        mode == effective(requested, supported),
{
    match requested {
        RegistrationMode::Completion => {
            if supported {
                RegistrationMode::Completion
            } else {
                RegistrationMode::Poll
            }
        },
        RegistrationMode::Poll => RegistrationMode::Poll,
    }
}

/// The mode that a handle gets when it asks for none. `current` says whether the driver of the
/// running runtime offers completions, if a runtime is running.
pub fn default_mode(current: Option<bool>) -> (mode: RegistrationMode)
    ensures
        mode == (if current == Some(true) {
            RegistrationMode::Completion
        } else {
            RegistrationMode::Poll
        }),
{
    match current {
        Some(supported) => {
            if supported {
                RegistrationMode::Completion
            } else {
                RegistrationMode::Poll
            }
        },
        None => RegistrationMode::Poll,
    }
}

/// The mode that a new handle is registered with. Outside a runtime there is no driver to register
/// it with.
pub fn new_with_mode(current: Option<bool>, requested: RegistrationMode) -> (mode: Result<
    RegistrationMode,
    IoError,
>)
    ensures
        mode == (match current {
            Some(supported) => Ok::<RegistrationMode, IoError>(effective(requested, supported)),
            None => Err(IoError::OutsideRuntime),
        }),
{
    match current {
        Some(supported) => Ok(effective_mode(requested, supported)),
        None => Err(IoError::OutsideRuntime),
    }
}

/// A handle that is registered with a driver.
#[derive(Clone, Copy, Debug, PartialEq, Eq, Structural)]
pub struct InnerRawHandle {
    /// The file descriptor.
    pub fd: i32,
    /// The token under which the handle is registered.
    pub token: usize,
    /// The readiness for which the handle was registered.
    pub interest: Interest,
    /// The mode for which the handle is registered.
    pub mode: RegistrationMode,
}

impl InnerRawHandle {
    /// Whether the handle's operations go through completions, with a driver that offers them or
    /// not.
    pub open spec fn by_completion(self, supported: bool) -> bool {
        supported && self.mode == RegistrationMode::Completion
    }

    /// Whether the handle's operations go through completions. If they do not, the file descriptor
    /// has to be non-blocking.
    pub fn uses_completion(&self, supported: bool) -> (used: bool)
        ensures
            used == self.by_completion(supported),
    {
        supported && match self.mode {
            RegistrationMode::Completion => true,
            RegistrationMode::Poll => false,
        }
    }

    /// The mode to which the handle has to be registered anew when it asks for one, unless it has
    /// that mode already.
    pub fn rebind_target(&self, requested: RegistrationMode, supported: bool) -> (target: Option<
        RegistrationMode,
    >)
        ensures
            target == (if effective(requested, supported) == self.mode {
                None
            } else {
                Some(effective(requested, supported))
            }),
    {
        let mode = effective_mode(requested, supported);
        if self.mode == mode {
            None
        } else {
            Some(mode)
        }
    }

    /// Ends the change to another mode, after the driver let go of the handle and was given it
    /// anew. A handle that the driver did not let go of, or did not take again, keeps its token and
    /// its mode.
    pub fn rebind_mode(
        &mut self,
        target: RegistrationMode,
        deregistered: Result<(), IoError>,
        registered: Result<usize, IoError>,
    ) -> (outcome: Result<(), IoError>)
        ensures
            match (deregistered, registered) {
                (Err(err), _) => outcome == Err::<(), IoError>(err) && *final(self) == *old(self),
                (Ok(_), Err(err)) => {
                    &&& outcome == Err::<(), IoError>(err)
                    &&& *final(self) == *old(self)
                },
                (Ok(_), Ok(token)) => outcome == Ok::<(), IoError>(()) && *final(self) == (
                InnerRawHandle { token, mode: target, ..*old(self) }),
            },
    {
        if let Err(err) = deregistered {
            return Err(err);
        }
        match registered {
            Err(err) => Err(err),
            Ok(token) => {
                self.token = token;
                self.mode = target;
                Ok(())
            },
        }
    }
}

/// A handle never asks for completions of a driver that does not offer them, and asking twice for
/// the same mode changes nothing the second time.
pub proof fn law_mode_is_stable(requested: RegistrationMode, supported: bool)
    ensures
        effective(requested, supported) == RegistrationMode::Completion ==> supported,
        effective(effective(requested, supported), supported) == effective(requested, supported),
        effective(RegistrationMode::Poll, supported) == RegistrationMode::Poll,
{
}

/// A handle gets completions just if it asks for them and the driver offers them.
pub proof fn law_completions_need_a_driver(
    requested: RegistrationMode,
    supported: bool,
    mode: RegistrationMode,
)
    requires
        call_ensures(effective_mode, (requested, supported), mode),
    ensures
        mode == RegistrationMode::Completion <==> requested == RegistrationMode::Completion
            && supported,
{
}

/// A handle that asks for no mode gets completions just if the running driver offers them.
pub proof fn law_default_is_what_the_driver_offers(
    current: Option<bool>,
    mode: RegistrationMode,
)
    requires
        call_ensures(default_mode, (current,), mode),
    ensures
        mode == RegistrationMode::Completion <==> current == Some(true),
{
}

/// A handle can be made just inside a runtime, and then gets completions just if it asks for them
/// and the driver offers them.
pub proof fn law_handles_are_made_inside_a_runtime(
    current: Option<bool>,
    requested: RegistrationMode,
    mode: Result<RegistrationMode, IoError>,
)
    requires
        call_ensures(new_with_mode, (current, requested), mode),
    ensures
        mode is Ok <==> current is Some,
        mode matches Err(err) ==> err == IoError::OutsideRuntime,
        mode matches Ok(mode) ==> (mode == RegistrationMode::Completion <==> requested
            == RegistrationMode::Completion && current == Some(true)),
{
}

/// A handle uses completions just if it is registered for them and the driver offers them.
pub proof fn law_completions_are_used_as_registered(
    handle: InnerRawHandle,
    supported: bool,
    used: bool,
)
    requires
        call_ensures(InnerRawHandle::uses_completion, (&handle, supported), used),
    ensures
        used <==> supported && handle.mode == RegistrationMode::Completion,
{
}

/// A handle is registered anew just if the mode that it would get is not the one it has.
pub proof fn law_handle_is_rebound_only_to_another_mode(
    handle: InnerRawHandle,
    requested: RegistrationMode,
    supported: bool,
    mode: RegistrationMode,
    target: Option<RegistrationMode>,
)
    requires
        call_ensures(effective_mode, (requested, supported), mode),
        call_ensures(InnerRawHandle::rebind_target, (&handle, requested, supported), target),
    ensures
        target is None <==> mode == handle.mode,
        target matches Some(other) ==> other == mode,
{
}

/// A handle changes its mode, with the token that it got, just if the driver let go of it and took
/// it again; else it stays as it is, with the first error. Its descriptor and its interest stay.
pub proof fn law_failed_rebinding_changes_nothing(
    handle: &mut InnerRawHandle,
    target: RegistrationMode,
    deregistered: Result<(), IoError>,
    registered: Result<usize, IoError>,
    outcome: Result<(), IoError>,
)
    requires
        call_ensures(
            InnerRawHandle::rebind_mode,
            (handle, target, deregistered, registered),
            outcome,
        ),
    ensures
        outcome is Ok <==> deregistered is Ok && registered is Ok,
        outcome is Ok ==> final(handle).token == registered->Ok_0 && final(handle).mode == target,
        outcome is Err ==> *final(handle) == *old(handle),
        outcome matches Err(err) ==> err == (if deregistered is Err {
            deregistered->Err_0
        } else {
            registered->Err_0
        }),
        final(handle).fd == old(handle).fd,
        final(handle).interest == old(handle).interest,
{
}

} // verus!
