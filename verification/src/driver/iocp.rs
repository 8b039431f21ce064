//! The completion port driver.
//!
//! Each submitted operation gets a token of its own, under which its result waits until it is
//! fetched. The port itself is the caller's: this module says what its packets mean.

use crate::driver::{update_waiter, CompletionIoResult, RegistrationMode};
use crate::error::IoError;
use crate::slots::{
    slab_get, slab_get_mut, slab_insert, slab_try_remove, slab_with_capacity, Slot, SlotState,
    Submission,
};
use vstd::prelude::*;

verus! {

/// The key of the packet that wakes the driver.
pub const INTERRUPT_KEY: usize = usize::MAX;

/// The error number of a wait that timed out.
pub const WAIT_TIMEOUT: i32 = 258;

/// The error number of a wait on a port that was closed.
pub const ERROR_ABANDONED_WAIT_0: i32 = 735;

/// The time that means "no limit".
pub const INFINITE: u32 = 0xffff_ffff;

/// What fetching a packet from the port came to.
#[derive(Clone, Copy, Debug, PartialEq, Eq, Structural)]
pub struct PortStatus {
    /// Whether the call succeeded.
    pub success: bool,
    /// The number of bytes that the operation transferred.
    pub transferred: u32,
    /// The key that the packet came with.
    pub completion_key: usize,
    /// The token of the operation that the packet belongs to, if it belongs to one.
    pub operation: Option<usize>,
    /// The error number of a call that failed.
    pub last_error: i32,
}

/// What one packet came to.
#[derive(Debug)]
pub struct Processed {
    /// Whether there was a packet.
    pub found: Result<bool, IoError>,
    /// The waker to wake.
    pub waker: Option<u64>,
}

impl PortStatus {
    /// The result of the operation: what it transferred, or its error number negated.
    pub open spec fn result(self) -> i32 {
        if self.success {
            self.transferred as i32
        } else {
            (-self.last_error) as i32
        }
    }

    /// Whether there was a packet, or what fetching it failed with. A wait that timed out, or
    /// whose port was closed, finds none.
    pub open spec fn found(self) -> Result<bool, IoError> {
        if self.operation is Some || self.success {
            Ok(true)
        } else if self.last_error == WAIT_TIMEOUT || self.last_error == ERROR_ABANDONED_WAIT_0 {
            Ok(false)
        } else {
            Err(IoError::Windows(self.last_error))
        }
    }

    /// The operation that the packet completes, if it completes one of those given.
    pub open spec fn completes(self, completions: Map<usize, SlotState>) -> Option<usize> {
        match self.operation {
            Some(token) => if self.completion_key != INTERRUPT_KEY && completions.contains_key(
                token,
            ) && completions[token] is Submission {
                Some(token)
            } else {
                None
            },
            None => None,
        }
    }
}

/// The operations after a packet: the one that it completes has its result, its memory is given
/// back, and nobody waits for it any more.
pub open spec fn process(completions: Map<usize, SlotState>, status: PortStatus) -> Map<
    usize,
    SlotState,
> {
    match status.completes(completions) {
        Some(token) => completions.insert(
            token,
            SlotState::Submission(
                Submission { waiter: None, completed: Some(status.result()), overlapped: false },
            ),
        ),
        None => completions,
    }
}

/// The result that waits under a token, if one does.
pub open spec fn waiting_result(completions: Map<usize, SlotState>, token: usize) -> Option<i32> {
    if completions.contains_key(token) && completions[token] is Submission {
        completions[token]->Submission_0.completed
    } else {
        None
    }
}

/// The handles and the operations of the completion port driver.
pub struct IocpDriver {
    registrations: slab::Slab<Slot>,
    completions: slab::Slab<Slot>,
}

impl IocpDriver {
    /// The handles that are registered.
    pub closed spec fn registrations(&self) -> Map<usize, SlotState> {
        crate::slots::states(crate::slots::slab_contents(self.registrations))
    }

    /// The operations whose result was not fetched yet.
    pub closed spec fn completions(&self) -> Map<usize, SlotState> {
        crate::slots::states(crate::slots::slab_contents(self.completions))
    }

    /// Every handle is registered for completions, and no token is the interrupt's key.
    pub open spec fn wf(&self) -> bool {
        &&& forall|token: usize| #[trigger]
            self.registrations().contains_key(token) ==> token < INTERRUPT_KEY
                && self.registrations()[token] == SlotState::Handle(RegistrationMode::Completion)
        &&& forall|token: usize| #[trigger]
            self.completions().contains_key(token) ==> token < INTERRUPT_KEY
                && self.completions()[token] is Submission
    }

    /// A driver with no handle and no operation.
    pub fn new() -> (driver: IocpDriver)
        ensures
            driver.wf(),
            driver.registrations() == Map::<usize, SlotState>::empty(),
            driver.completions() == Map::<usize, SlotState>::empty(),
    {
        let driver = IocpDriver {
            registrations: slab_with_capacity(1024),
            completions: slab_with_capacity(1024),
        };
        assert(driver.registrations() =~= Map::<usize, SlotState>::empty());
        assert(driver.completions() =~= Map::<usize, SlotState>::empty());
        driver
    }

    /// How long to wait for a packet, given a limit in milliseconds. A limit that does not fit
    /// becomes the longest time.
    pub fn duration_to_timeout_ms(timeout: Option<u128>) -> (millis: u32)
        ensures
            millis == (match timeout {
                Some(limit) => if limit < INFINITE {
                    limit as u32
                } else {
                    INFINITE
                },
                None => INFINITE,
            }),
    {
        match timeout {
            Some(limit) => {
                if limit < 0xffff_ffff {
                    limit as u32
                } else {
                    INFINITE
                }
            },
            None => INFINITE,
        }
    }

    /// Works off what fetching one packet came to.
    pub fn process_one(&mut self, status: PortStatus) -> (processed: Processed)
        requires
            old(self).wf(),
            status.last_error > i32::MIN,
        ensures
            final(self).wf(),
            final(self).registrations() == old(self).registrations(),
            final(self).completions() == process(old(self).completions(), status),
            processed.found == status.found(),
            processed.waker == (match status.completes(old(self).completions()) {
                Some(token) => old(self).completions()[token]->Submission_0.waiter,
                None => None,
            }),
    {
        broadcast use crate::slots::lemma_states_insert;

        let token = match status.operation {
            None => {
                if status.success {
                    return Processed { found: Ok(true), waker: None };
                }
                if status.last_error == WAIT_TIMEOUT || status.last_error
                    == ERROR_ABANDONED_WAIT_0 {
                    return Processed { found: Ok(false), waker: None };
                }
                return Processed { found: Err(IoError::Windows(status.last_error)), waker: None };
            },
            Some(token) => token,
        };
        if status.completion_key == INTERRUPT_KEY {
            return Processed { found: Ok(true), waker: None };
        }
        let result: i32 = if status.success {
            status.transferred as i32
        } else {
            -status.last_error
        };
        let mut waker: Option<u64> = None;
        if let Some(Slot::Submission(submission)) = slab_get_mut(&mut self.completions, token) {
            submission.completed = Some(result);
            submission.overlapped = false;
            waker = submission.waiter.take();
        }
        assert(self.completions() =~= process(old(self).completions(), status));
        assert forall|other: usize| #[trigger]
            self.completions().contains_key(other) implies other < INTERRUPT_KEY
            && self.completions()[other] is Submission by {
            assert(old(self).completions().contains_key(other));
        }
        Processed { found: Ok(true), waker }
    }

    /// Registers a handle for completions.
    pub fn register_handle(&mut self) -> (registered: Result<usize, IoError>)
        requires
            old(self).wf(),
        ensures
            final(self).wf(),
            final(self).completions() == old(self).completions(),
            registered matches Ok(token) && !old(self).registrations().contains_key(token)
                && final(self).registrations() == old(self).registrations().insert(
                token,
                SlotState::Handle(RegistrationMode::Completion),
            ),
    {
        self.register_handle_with_mode(RegistrationMode::Completion)
    }

    /// Registers a handle, under a token that was free. Only completions are offered.
    pub fn register_handle_with_mode(&mut self, mode: RegistrationMode) -> (registered: Result<
        usize,
        IoError,
    >)
        requires
            old(self).wf(),
        ensures
            final(self).wf(),
            final(self).completions() == old(self).completions(),
            match mode {
                RegistrationMode::Completion => {
                    &&& registered matches Ok(token)
                    &&& !old(self).registrations().contains_key(token)
                    &&& final(self).registrations() == old(self).registrations().insert(
                        token,
                        SlotState::Handle(RegistrationMode::Completion),
                    )
                },
                RegistrationMode::Poll => registered == Err::<usize, IoError>(
                    IoError::CompletionModeOnly,
                ) && final(self).registrations() == old(self).registrations(),
            },
    {
        broadcast use crate::slots::lemma_states_insert;

        match mode {
            RegistrationMode::Poll => Err(IoError::CompletionModeOnly),
            RegistrationMode::Completion => {
                let token = slab_insert(&mut self.registrations, Slot::Handle(mode));
                assert forall|other: usize| #[trigger]
                    self.registrations().contains_key(other) implies other < INTERRUPT_KEY
                    && self.registrations()[other] == SlotState::Handle(
                    RegistrationMode::Completion,
                ) by {
                    if other != token {
                        assert(old(self).registrations().contains_key(other));
                    }
                }
                Ok(token)
            },
        }
    }

    /// Ends the registration of a handle: one that the port did not take is forgotten.
    pub fn finish_register(
        &mut self,
        token: usize,
        associated: Result<(), IoError>,
    ) -> (registered: Result<usize, IoError>)
        requires
            old(self).wf(),
        ensures
            final(self).wf(),
            final(self).completions() == old(self).completions(),
            match associated {
                Ok(_) => registered == Ok::<usize, IoError>(token) && final(self).registrations()
                    == old(self).registrations(),
                Err(err) => {
                    &&& registered == Err::<usize, IoError>(err)
                    &&& final(self).registrations() == old(self).registrations().remove(token)
                },
            },
    {
        match associated {
            Ok(_) => Ok(token),
            Err(err) => {
                let _ = self.deregister_handle(token);
                Err(err)
            },
        }
    }

    /// Checks that a handle is registered. There is nothing to change about it.
    pub fn reregister_handle(&self, token: usize) -> (outcome: Result<(), IoError>)
        ensures
            outcome == (if self.registrations().contains_key(token) {
                Ok::<(), IoError>(())
            } else {
                Err(IoError::NotRegistered(token))
            }),
    {
        if slab_get(&self.registrations, token).is_none() {
            return Err(IoError::NotRegistered(token));
        }
        Ok(())
    }

    /// Forgets a handle.
    pub fn deregister_handle(&mut self, token: usize) -> (outcome: Result<(), IoError>)
        requires
            old(self).wf(),
        ensures
            final(self).wf(),
            final(self).completions() == old(self).completions(),
            final(self).registrations() == old(self).registrations().remove(token),
            outcome == (if old(self).registrations().contains_key(token) {
                Ok::<(), IoError>(())
            } else {
                Err(IoError::NotRegistered(token))
            }),
    {
        broadcast use crate::slots::lemma_states_remove;

        let removed = slab_try_remove(&mut self.registrations, token);
        assert forall|other: usize| #[trigger]
            self.registrations().contains_key(other) implies other < INTERRUPT_KEY
            && self.registrations()[other] == SlotState::Handle(RegistrationMode::Completion) by {
            assert(old(self).registrations().contains_key(other));
        }
        if removed.is_none() {
            return Err(IoError::NotRegistered(token));
        }
        Ok(())
    }

    /// The port takes completion-based operations.
    pub fn supports_completion(&self) -> (supported: bool)
        ensures
            supported,
    {
        true
    }

    /// Sets a token aside for an operation that is about to be submitted.
    pub fn start_submission(&mut self, waker: u64) -> (token: usize)
        requires
            old(self).wf(),
        ensures
            final(self).wf(),
            final(self).registrations() == old(self).registrations(),
            !old(self).completions().contains_key(token),
            final(self).completions() == old(self).completions().insert(
                token,
                SlotState::Submission(
                    Submission { waiter: Some(waker), completed: None, overlapped: true },
                ),
            ),
    {
        broadcast use crate::slots::lemma_states_insert;

        let token = slab_insert(
            &mut self.completions,
            Slot::Submission(Submission { waiter: Some(waker), completed: None, overlapped: true }),
        );
        assert forall|other: usize| #[trigger]
            self.completions().contains_key(other) implies other < INTERRUPT_KEY
            && self.completions()[other] is Submission by {
            if other != token {
                assert(old(self).completions().contains_key(other));
            }
        }
        token
    }

    /// Ends the submission of an operation: one that the system refused gives its token back.
    pub fn finish_submission(
        &mut self,
        token: usize,
        submitted: Result<(), IoError>,
    ) -> (answer: CompletionIoResult)
        requires
            old(self).wf(),
        ensures
            final(self).wf(),
            final(self).registrations() == old(self).registrations(),
            match submitted {
                Ok(_) => answer == CompletionIoResult::Retry(token) && final(self).completions()
                    == old(self).completions(),
                Err(err) => {
                    &&& answer == CompletionIoResult::SubmitErr(err)
                    &&& final(self).completions() == old(self).completions().remove(token)
                },
            },
    {
        match submitted {
            Ok(_) => CompletionIoResult::Retry(token),
            Err(err) => {
                self.forget_submission(token);
                CompletionIoResult::SubmitErr(err)
            },
        }
    }

    fn forget_submission(&mut self, token: usize)
        requires
            old(self).wf(),
        ensures
            final(self).wf(),
            final(self).registrations() == old(self).registrations(),
            final(self).completions() == old(self).completions().remove(token),
    {
        broadcast use crate::slots::lemma_states_remove;

        let _ = slab_try_remove(&mut self.completions, token);
        assert forall|other: usize| #[trigger]
            self.completions().contains_key(other) implies other < INTERRUPT_KEY
            && self.completions()[other] is Submission by {
            assert(old(self).completions().contains_key(other));
        }
    }

    /// Readiness is not offered.
    pub fn submit_poll(&self) -> (outcome: Result<(), IoError>)
        ensures
            outcome == Err::<(), IoError>(IoError::CompletionModeOnly),
    {
        Err(IoError::CompletionModeOnly)
    }

    /// Fetches the result of an operation, if it has completed. Its token is free afterwards.
    pub fn get_completion_result(&mut self, token: usize) -> (result: Option<i32>)
        requires
            old(self).wf(),
        ensures
            final(self).wf(),
            final(self).registrations() == old(self).registrations(),
            result == waiting_result(old(self).completions(), token),
            final(self).completions() == (if result is Some {
                old(self).completions().remove(token)
            } else {
                old(self).completions()
            }),
    {
        let completed = match slab_get(&self.completions, token) {
            Some(Slot::Submission(submission)) => submission.completed,
            _ => None,
        };
        if completed.is_some() {
            self.forget_submission(token);
        }
        completed
    }

    /// Makes `waker` the one that is woken when an operation completes.
    pub fn set_completion_waker(&mut self, token: usize, waker: u64)
        requires
            old(self).wf(),
        ensures
            final(self).wf(),
            final(self).registrations() == old(self).registrations(),
            final(self).completions() == (if old(self).completions().contains_key(token) {
                old(self).completions().insert(
                    token,
                    SlotState::Submission(
                        Submission {
                            waiter: Some(waker),
                            ..old(self).completions()[token]->Submission_0
                        },
                    ),
                )
            } else {
                old(self).completions()
            }),
    {
        broadcast use crate::slots::lemma_states_insert;

        assert(old(self).completions().contains_key(token)
            ==> old(self).completions()[token] is Submission);
        if let Some(Slot::Submission(submission)) = slab_get_mut(&mut self.completions, token) {
            update_waiter(&mut submission.waiter, waker);
        }
        assert forall|other: usize| #[trigger]
            self.completions().contains_key(other) implies other < INTERRUPT_KEY
            && self.completions()[other] is Submission by {
            assert(old(self).completions().contains_key(other));
        }
    }
}

/// An operation that completes is reported once: its packet wakes whoever waits, the result is
/// what the packet says, and once it was fetched its token is free.
pub proof fn law_operation_reported_once(
    completions: Map<usize, SlotState>,
    token: usize,
    waker: u64,
    status: PortStatus,
)
    requires
        !completions.contains_key(token),
        status.operation == Some(token),
        status.completion_key != INTERRUPT_KEY,
    ensures
        ({
            let started = completions.insert(
                token,
                SlotState::Submission(
                    Submission { waiter: Some(waker), completed: None, overlapped: true },
                ),
            );
            let done = process(started, status);
            &&& status.completes(started) == Some(token)
            &&& started[token]->Submission_0.waiter == Some(waker)
            &&& waiting_result(started, token) is None
            &&& waiting_result(done, token) == Some(status.result())
            &&& done.remove(token) == completions
        }),
{
    let started = completions.insert(
        token,
        SlotState::Submission(
            Submission { waiter: Some(waker), completed: None, overlapped: true },
        ),
    );
    assert(process(started, status).remove(token) =~= completions);
}

/// A packet changes no operation but its own.
pub proof fn law_packet_leaves_others(
    completions: Map<usize, SlotState>,
    status: PortStatus,
    token: usize,
)
    requires
        status.operation != Some(token),
    ensures
        process(completions, status).contains_key(token) == completions.contains_key(token),
        completions.contains_key(token) ==> process(completions, status)[token]
            == completions[token],
{
}

/// A packet that belongs to an operation leaves the operation's result: the number of bytes where it
/// succeeded, and the error number negated where it did not. It wakes whoever waits, gives the
/// memory back, and changes no other operation and no handle. Packets of no operation, of one that
/// is not known, and the one that wakes the driver, change nothing and wake nobody.
pub proof fn law_one_packet(driver: &mut IocpDriver, status: PortStatus, processed: Processed)
    requires
        old(driver).wf(),
        i32::MIN < status.last_error,
        status.transferred <= i32::MAX,
        call_ensures(IocpDriver::process_one, (driver, status), processed),
    ensures
        final(driver).registrations() == old(driver).registrations(),
        final(driver).completions().dom() == old(driver).completions().dom(),
        ({
            let before = old(driver).completions();
            let after = final(driver).completions();
            let known = status.operation matches Some(token) && status.completion_key
                != usize::MAX && before.contains_key(token);
            &&& !known ==> after == before && processed.waker is None
            &&& known ==> {
                let token = status.operation->0;
                &&& after.remove(token) == before.remove(token)
                &&& processed.waker == before[token]->Submission_0.waiter
                &&& after[token] is Submission
                &&& after[token]->Submission_0.waiter is None
                &&& !after[token]->Submission_0.overlapped
                &&& after[token]->Submission_0.completed is Some
                &&& status.success ==> after[token]->Submission_0.completed->0
                    == status.transferred
                &&& !status.success ==> after[token]->Submission_0.completed->0
                    == -status.last_error
            }
        }),
{
    let before = old(driver).completions();
    let after = final(driver).completions();
    assert(after.dom() =~= before.dom());
    if let Some(token) = status.operation {
        assert(after.remove(token) =~= before.remove(token));
        assert(before.contains_key(token) ==> before[token] is Submission);
    }
}

/// There was a packet just if the call succeeded or one came with an operation. A wait that timed
/// out, with 258, or whose port was closed, with 735, found none; any other failure is an error.
pub proof fn law_failed_fetch_is_told_apart(
    driver: &mut IocpDriver,
    status: PortStatus,
    processed: Processed,
)
    requires
        call_ensures(IocpDriver::process_one, (driver, status), processed),
    ensures
        processed.found == Ok::<bool, IoError>(true) <==> status.success
            || status.operation is Some,
        processed.found == Ok::<bool, IoError>(false) <==> !status.success
            && status.operation is None && (status.last_error == 258 || status.last_error == 735),
        processed.found is Err ==> processed.found == Err::<bool, IoError>(
            IoError::Windows(status.last_error),
        ),
{
}

/// A limit becomes a time of 32 bits: itself where it is below the largest, and no limit otherwise.
pub proof fn law_longest_time_means_no_limit(timeout: Option<u128>, millis: u32)
    requires
        call_ensures(IocpDriver::duration_to_timeout_ms, (timeout,), millis),
    ensures
        millis == 0xffff_ffff <==> (timeout is None || timeout->0 >= 0xffff_ffff),
        timeout matches Some(limit) ==> limit < 0xffff_ffff ==> millis == limit,
{
}

/// A submission gets a token that was free, under which its waker waits and nothing has come yet.
/// Other operations and all handles stay.
pub proof fn law_submission_waits(driver: &mut IocpDriver, waker: u64, token: usize)
    requires
        call_ensures(IocpDriver::start_submission, (driver, waker), token),
    ensures
        !old(driver).completions().contains_key(token),
        final(driver).completions().contains_key(token),
        final(driver).completions().remove(token) == old(driver).completions(),
        final(driver).registrations() == old(driver).registrations(),
        final(driver).completions()[token] is Submission,
        final(driver).completions()[token]->Submission_0.waiter == Some(waker),
        final(driver).completions()[token]->Submission_0.completed is None,
        final(driver).completions()[token]->Submission_0.overlapped,
{
    assert(final(driver).completions().remove(token) =~= old(driver).completions());
}

/// A submission that the system took goes on under its token; one that it refused gives the token
/// back, with the error. Other operations and all handles stay.
pub proof fn law_refused_submission_is_forgotten(
    driver: &mut IocpDriver,
    token: usize,
    submitted: Result<(), IoError>,
    answer: CompletionIoResult,
)
    requires
        call_ensures(IocpDriver::finish_submission, (driver, token, submitted), answer),
    ensures
        submitted is Ok
            ==> answer == CompletionIoResult::Retry(token)
            && final(driver).completions() == old(driver).completions(),
        submitted matches Err(err)
            ==> answer == CompletionIoResult::SubmitErr(err)
            && !final(driver).completions().contains_key(token),
        final(driver).completions().remove(token) == old(driver).completions().remove(token),
        final(driver).registrations() == old(driver).registrations(),
{
    assert(final(driver).completions().remove(token) =~= old(driver).completions().remove(token));
}

/// Fetching gives the result that is there, once: the token is free afterwards. Without a result
/// nothing changes, and other operations never do.
pub proof fn law_result_is_fetched_once(
    driver: &mut IocpDriver,
    token: usize,
    result: Option<i32>,
)
    requires
        old(driver).wf(),
        call_ensures(IocpDriver::get_completion_result, (driver, token), result),
    ensures
        old(driver).completions().contains_key(token)
            ==> result == old(driver).completions()[token]->Submission_0.completed,
        !old(driver).completions().contains_key(token) ==> result is None,
        result is Some ==> !final(driver).completions().contains_key(token),
        result is None ==> final(driver).completions() == old(driver).completions(),
        final(driver).completions().remove(token) == old(driver).completions().remove(token),
        final(driver).registrations() == old(driver).registrations(),
{
    assert(old(driver).completions().contains_key(token)
        ==> old(driver).completions()[token] is Submission);
    assert(final(driver).completions().remove(token) =~= old(driver).completions().remove(token));
}

/// The latest waker that was given is the one that is woken, and nothing else changes.
pub proof fn law_latest_waker_is_woken(driver: &mut IocpDriver, token: usize, waker: u64)
    requires
        old(driver).wf(),
        call_ensures(IocpDriver::set_completion_waker, (driver, token, waker), ()),
    ensures
        final(driver).registrations() == old(driver).registrations(),
        final(driver).completions().dom() == old(driver).completions().dom(),
        final(driver).completions().remove(token) == old(driver).completions().remove(token),
        old(driver).completions().contains_key(token) ==> {
            let before = old(driver).completions()[token];
            let after = final(driver).completions()[token];
            &&& after is Submission
            &&& after->Submission_0.waiter == Some(waker)
            &&& after->Submission_0.completed == before->Submission_0.completed
            &&& after->Submission_0.overlapped == before->Submission_0.overlapped
        },
{
    assert(final(driver).completions().dom() =~= old(driver).completions().dom());
    assert(final(driver).completions().remove(token) =~= old(driver).completions().remove(token));
}

/// An operation ends with its own result: after it was submitted, its packet wakes the waker that
/// was given last, and the result that is fetched is what the packet says.
pub proof fn law_operation_ends_with_its_result(
    starting: &mut IocpDriver,
    first: u64,
    token: usize,
    renewing: &mut IocpDriver,
    waker: u64,
    processing: &mut IocpDriver,
    status: PortStatus,
    processed: Processed,
    fetching: &mut IocpDriver,
    result: Option<i32>,
)
    requires
        old(starting).wf(),
        call_ensures(IocpDriver::start_submission, (starting, first), token),
        *old(renewing) == *final(starting),
        call_ensures(IocpDriver::set_completion_waker, (renewing, token, waker), ()),
        *old(processing) == *final(renewing),
        status.operation == Some(token),
        status.completion_key != usize::MAX,
        i32::MIN < status.last_error,
        status.transferred <= i32::MAX,
        call_ensures(IocpDriver::process_one, (processing, status), processed),
        *old(fetching) == *final(processing),
        call_ensures(IocpDriver::get_completion_result, (fetching, token), result),
    ensures
        processed.waker == Some(waker),
        result is Some,
        status.success ==> result->0 == status.transferred,
        !status.success ==> result->0 == -status.last_error,
        !final(fetching).completions().contains_key(token),
{
}

/// A handle is registered for completions, under a token that was free; readiness is refused, and
/// then nothing changes. No operation is touched.
pub proof fn law_handle_is_registered_for_completions(
    driver: &mut IocpDriver,
    mode: RegistrationMode,
    registered: Result<usize, IoError>,
)
    requires
        call_ensures(IocpDriver::register_handle_with_mode, (driver, mode), registered),
    ensures
        registered is Ok <==> mode == RegistrationMode::Completion,
        registered matches Err(err)
            ==> err == IoError::CompletionModeOnly
            && final(driver).registrations() == old(driver).registrations(),
        registered matches Ok(token) ==> !old(driver).registrations().contains_key(token)
            && final(driver).registrations().contains_key(token)
            && final(driver).registrations()[token] == SlotState::Handle(
            RegistrationMode::Completion,
        ) && final(driver).registrations().remove(token) == old(driver).registrations(),
        final(driver).completions() == old(driver).completions(),
{
    if let Ok(token) = registered {
        assert(final(driver).registrations().remove(token) =~= old(driver).registrations());
    }
}

/// A handle that asks for no mode is registered for completions.
pub proof fn law_handle_needs_no_mode(driver: &mut IocpDriver, registered: Result<usize, IoError>)
    requires
        call_ensures(IocpDriver::register_handle, (driver,), registered),
    ensures
        registered is Ok,
        !old(driver).registrations().contains_key(registered->Ok_0),
        final(driver).registrations().contains_key(registered->Ok_0),
        final(driver).registrations().remove(registered->Ok_0) == old(driver).registrations(),
        final(driver).completions() == old(driver).completions(),
{
    assert(final(driver).registrations().remove(registered->Ok_0) =~= old(driver).registrations());
}

/// A handle that the port did not take is forgotten again, and its error is reported.
pub proof fn law_refused_handle_is_forgotten(
    driver: &mut IocpDriver,
    token: usize,
    associated: Result<(), IoError>,
    registered: Result<usize, IoError>,
)
    requires
        call_ensures(IocpDriver::finish_register, (driver, token, associated), registered),
    ensures
        associated is Ok
            ==> registered == Ok::<usize, IoError>(token)
            && final(driver).registrations() == old(driver).registrations(),
        associated matches Err(err)
            ==> registered == Err::<usize, IoError>(err)
            && !final(driver).registrations().contains_key(token),
        final(driver).registrations().remove(token) == old(driver).registrations().remove(token),
        final(driver).completions() == old(driver).completions(),
{
    assert(final(driver).registrations().remove(token) =~= old(driver).registrations().remove(
        token,
    ));
}

/// A handle that is registered can be asked for anew and can be forgotten; no other can.
pub proof fn law_handle_is_forgotten(
    driver: &mut IocpDriver,
    token: usize,
    asked: Result<(), IoError>,
    outcome: Result<(), IoError>,
)
    requires
        call_ensures(IocpDriver::reregister_handle, (&*old(driver), token), asked),
        call_ensures(IocpDriver::deregister_handle, (driver, token), outcome),
    ensures
        asked == outcome,
        outcome is Ok <==> old(driver).registrations().contains_key(token),
        outcome matches Err(err) ==> err == IoError::NotRegistered(token),
        !final(driver).registrations().contains_key(token),
        final(driver).registrations().remove(token) == old(driver).registrations().remove(token),
        final(driver).completions() == old(driver).completions(),
{
    assert(final(driver).registrations().remove(token) =~= old(driver).registrations().remove(
        token,
    ));
}

/// The port offers completions, and nothing else.
pub proof fn law_only_completions_are_offered(
    driver: IocpDriver,
    supported: bool,
    outcome: Result<(), IoError>,
)
    requires
        call_ensures(IocpDriver::supports_completion, (&driver,), supported),
        call_ensures(IocpDriver::submit_poll, (&driver,), outcome),
    ensures
        supported,
        outcome == Err::<(), IoError>(IoError::CompletionModeOnly),
{
}

/// A new driver knows no handle and no operation.
pub proof fn law_new_driver_knows_nothing(driver: IocpDriver)
    requires
        call_ensures(IocpDriver::new, (), driver),
    ensures
        driver.wf(),
        forall|token: usize| !(#[trigger] driver.registrations().contains_key(token)),
        forall|token: usize| !(#[trigger] driver.completions().contains_key(token)),
{
}

} // verus!
