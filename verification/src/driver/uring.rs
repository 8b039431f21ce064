//! The completion ring driver.
//!
//! A handle is registered either for completions, and its operations go into the ring, or for
//! readiness, and a poll request goes into the ring when an operation would block. The ring
//! itself is the caller's: this module says what to put into it and what its answers mean.

use crate::driver::{push_waiter, update_waiter, Interest, RegistrationMode};
use crate::error::{IoError, EBUSY, ETIME};
use crate::slots::{
    slab_get, slab_get_mut, slab_insert, slab_try_remove, slab_with_capacity,
    CompletionRegistration, CompletionState, PollRegistration, Slot, SlotState,
};
use vstd::prelude::*;

verus! {

/// The key of the read that wakes the driver.
pub const INTERRUPT_KEY: u64 = 0xffff_ffff_ffff_ffff;

/// The key of the timeout that bounds a wait.
pub const TIMEOUT_KEY: u64 = 0xffff_ffff_ffff_fffe;

/// Readable, as poll requests spell it.
pub const POLLIN: u32 = 0x001;

/// Writable, as poll requests spell it.
pub const POLLOUT: u32 = 0x004;

/// The largest number of entries that a ring can have.
pub const MAX_ENTRIES: u32 = 32768;

/// One entry of the completion queue.
#[derive(Clone, Copy, Debug, PartialEq, Eq, Structural)]
pub struct Cqe {
    /// The key that the entry was submitted with.
    pub key: u64,
    /// The result, negative for an error number.
    pub result: i32,
}

/// A timeout, in the form in which the ring takes it.
#[derive(Clone, Copy, Debug, PartialEq, Eq, Structural)]
pub struct Timespec {
    pub secs: u64,
    pub nanos: u32,
}

/// How to submit what stands in the submission queue.
#[derive(Clone, Copy, Debug, PartialEq, Eq, Structural)]
pub enum SubmitPlan {
    /// Do not submit.
    Skip,
    /// Submit, and do not wait.
    Submit,
    /// Submit, and wait for one completion.
    SubmitAndWait,
    /// Submit, and wait for one completion or for the time given in the call's arguments.
    SubmitWithTimeout(Timespec),
    /// Push a timeout under [`TIMEOUT_KEY`], then submit and wait for one completion.
    PushTimeoutAndWait(Timespec),
}

/// What a completion-based operation has to do first.
#[derive(Clone, Copy, Debug, PartialEq, Eq, Structural)]
pub enum CompletionStart {
    /// The operation cannot be submitted.
    Refused(IoError),
    /// An earlier submission has completed; here is what was kept for it.
    Done { result: i32, aux: Option<u64> },
    /// An earlier submission is still under way.
    Pending,
    /// Build the entry under this key and push it.
    Submit { key: u64 },
}

/// What a readiness-based operation has to do after it was tried.
#[derive(Debug)]
pub enum PollSubmit<T> {
    /// The operation is over.
    Finished(Result<T, IoError>),
    /// Push a poll request of `fd` for `poll_mask` under this key, and report `blocked` if that
    /// succeeds.
    Arm { key: u64, fd: i32, poll_mask: u32, blocked: IoError },
}

/// What a pass over the completion queue found.
#[derive(Debug)]
pub struct Collected {
    /// The wakers to wake, in this order.
    pub wakers: Vec<u64>,
    /// Whether the wait had a reason to end.
    pub woke_any: bool,
    /// Whether the read that wakes the driver has to be submitted again.
    pub interrupted: bool,
}

/// The state of a pass over the completion queue.
pub struct Pass {
    pub registrations: Map<usize, SlotState>,
    pub woken: Seq<u64>,
    pub waiter_woken: bool,
    pub interrupt: bool,
    pub timeout: bool,
}

/// The waker in a slot, as a sequence.
pub open spec fn optional(waiter: Option<u64>) -> Seq<u64> {
    match waiter {
        Some(waker) => seq![waker],
        None => Seq::empty(),
    }
}

/// The token that a key stands for.
pub open spec fn key_token(key: u64) -> usize {
    (key / 2) as usize
}

/// Whether a key is that of a poll request rather than of a submitted operation.
pub open spec fn is_poll_key(key: u64) -> bool {
    key % 2 == 0
}

impl Pass {
    /// A pass that has seen nothing.
    pub open spec fn start(registrations: Map<usize, SlotState>) -> Pass {
        Pass {
            registrations,
            woken: Seq::empty(),
            waiter_woken: false,
            interrupt: false,
            timeout: false,
        }
    }

    /// The pass after one more entry of the queue.
    ///
    /// A poll request that completed is no longer armed and wakes the handle's waiter. An
    /// operation that completed leaves its result with the handle and wakes all who wait for it.
    /// Entries of handles that are gone, or that are registered for the other mode, change
    /// nothing.
    pub open spec fn step(self, cqe: Cqe) -> Pass {
        let token = key_token(cqe.key);
        if cqe.key == INTERRUPT_KEY {
            Pass { interrupt: true, ..self }
        } else if cqe.key == TIMEOUT_KEY {
            Pass { timeout: true, ..self }
        } else if !self.registrations.contains_key(token) {
            self
        } else {
            match self.registrations[token] {
                SlotState::Poll(registration) if is_poll_key(cqe.key) => Pass {
                    registrations: self.registrations.insert(
                        token,
                        SlotState::Poll(
                            PollRegistration { poll_armed: false, waiter: None, ..registration },
                        ),
                    ),
                    woken: self.woken + optional(registration.waiter),
                    ..self
                },
                SlotState::Completion(registration) if !is_poll_key(cqe.key) => Pass {
                    registrations: self.registrations.insert(
                        token,
                        SlotState::Completion(
                            CompletionState {
                                completed: Some(cqe.result),
                                inflight: false,
                                waiters: Seq::empty(),
                                ..registration
                            },
                        ),
                    ),
                    woken: self.woken + registration.waiters,
                    waiter_woken: self.waiter_woken || registration.waiters.len() > 0,
                    ..self
                },
                _ => self,
            }
        }
    }

    /// The pass after all entries of the queue, oldest first.
    pub open spec fn steps(self, cqes: Seq<Cqe>) -> Pass
        decreases cqes.len(),
    {
        if cqes.len() == 0 {
            self
        } else {
            self.steps(cqes.drop_last()).step(cqes.last())
        }
    }
}

/// The registrations and the answer when a completion-based operation starts.
///
/// A result that is there is taken, together with what was kept for the operation. An operation
/// that is under way only gains a waiter. Otherwise the handle is marked as busy.
pub open spec fn start_completion(
    registrations: Map<usize, SlotState>,
    token: usize,
    waker: u64,
) -> (Map<usize, SlotState>, CompletionStart) {
    if !registrations.contains_key(token) {
        (registrations, CompletionStart::Refused(IoError::NotRegistered(token)))
    } else {
        match registrations[token] {
            SlotState::Completion(registration) => match registration.completed {
                Some(result) => (
                    registrations.insert(
                        token,
                        SlotState::Completion(
                            CompletionState { completed: None, aux: None, ..registration },
                        ),
                    ),
                    CompletionStart::Done { result, aux: registration.aux },
                ),
                None => (
                    registrations.insert(
                        token,
                        SlotState::Completion(
                            CompletionState {
                                inflight: true,
                                waiters: crate::driver::with_waiter(registration.waiters, waker),
                                ..registration
                            },
                        ),
                    ),
                    if registration.inflight {
                        CompletionStart::Pending
                    } else {
                        CompletionStart::Submit { key: completion_key(token) }
                    },
                ),
            },
            _ => (registrations, CompletionStart::Refused(IoError::RegisteredForPoll(token))),
        }
    }
}

/// The registrations once an entry was pushed, or could not be pushed.
///
/// After a failure the handle is free again and nobody waits on it; after a success the driver
/// keeps what the operation gave it.
pub open spec fn finish_completion(
    registrations: Map<usize, SlotState>,
    token: usize,
    pushed: Result<Option<u64>, IoError>,
) -> Map<usize, SlotState> {
    if !registrations.contains_key(token) {
        registrations
    } else {
        match registrations[token] {
            SlotState::Completion(registration) => match pushed {
                Ok(None) => registrations,
                Ok(Some(storage)) => registrations.insert(
                    token,
                    SlotState::Completion(CompletionState { aux: Some(storage), ..registration }),
                ),
                Err(_) => registrations.insert(
                    token,
                    SlotState::Completion(
                        CompletionState {
                            inflight: false,
                            waiters: Seq::empty(),
                            aux: None,
                            ..registration
                        },
                    ),
                ),
            },
            _ => registrations,
        }
    }
}

/// What a readiness-based operation on a handle is refused with, if it is.
pub open spec fn poll_refusal(registrations: Map<usize, SlotState>, token: usize) -> Option<
    IoError,
> {
    if !registrations.contains_key(token) {
        Some(IoError::NotRegistered(token))
    } else if registrations[token] is Poll {
        None
    } else {
        Some(IoError::RegisteredForCompletion(token))
    }
}

/// The registrations once an operation on a handle in poll mode would block: its waker waits for
/// the readiness that the operation needs, and a poll request is armed.
pub open spec fn block_poll(
    registrations: Map<usize, SlotState>,
    token: usize,
    interest: Interest,
    waker: u64,
) -> Map<usize, SlotState> {
    registrations.insert(
        token,
        SlotState::Poll(
            PollRegistration {
                waiter: Some(waker),
                poll_mask: interest.poll_mask(),
                poll_armed: true,
                ..registrations[token]->Poll_0
            },
        ),
    )
}

/// The registrations once a poll request could not be pushed.
pub open spec fn fail_poll(registrations: Map<usize, SlotState>, token: usize) -> Map<
    usize,
    SlotState,
> {
    if registrations.contains_key(token) && registrations[token] is Poll {
        registrations.insert(
            token,
            SlotState::Poll(
                PollRegistration {
                    poll_armed: false,
                    waiter: None,
                    ..registrations[token]->Poll_0
                },
            ),
        )
    } else {
        registrations
    }
}

/// The key of an operation on a handle.
pub open spec fn completion_key(token: usize) -> u64 {
    ((2 * token + 1) % 0x1_0000_0000_0000_0000) as u64
}

/// The key of a poll request on a handle.
pub open spec fn poll_key(token: usize) -> u64 {
    ((2 * token) % 0x1_0000_0000_0000_0000) as u64
}

/// What a freshly registered handle looks like.
pub open spec fn fresh_registration(
    fd: i32,
    interest: Interest,
    mode: RegistrationMode,
) -> SlotState {
    match mode {
        RegistrationMode::Completion => SlotState::Completion(CompletionState::idle()),
        RegistrationMode::Poll => SlotState::Poll(
            PollRegistration {
                fd,
                poll_mask: interest.poll_mask(),
                waiter: None,
                poll_armed: false,
            },
        ),
    }
}

impl Interest {
    /// The readiness, as poll requests spell it.
    pub open spec fn poll_mask(self) -> u32 {
        match (self.readable, self.writable) {
            (true, true) => 5,
            (true, false) => POLLIN,
            (false, true) => POLLOUT,
            (false, false) => 0,
        }
    }
}

/// The registrations of the completion ring driver.
pub struct UringDriver {
    registrations: slab::Slab<Slot>,
    ext_arg: bool,
}

impl UringDriver {
    /// What is registered under each token.
    pub closed spec fn registrations(&self) -> Map<usize, SlotState> {
        crate::slots::states(crate::slots::slab_contents(self.registrations))
    }

    /// Whether a wait can be given its timeout in the call's arguments.
    pub closed spec fn ext_arg(&self) -> bool {
        self.ext_arg
    }

    /// Every token is a small index, and under each stands a handle of this driver.
    pub open spec fn wf(&self) -> bool {
        forall|token: usize| #[trigger]
            self.registrations().contains_key(token) ==> token < isize::MAX && (
            self.registrations()[token] is Poll || self.registrations()[token] is Completion)
    }

    /// A driver of a ring with `entries` entries, on which nothing is registered.
    pub fn new(entries: u32, ext_arg: bool) -> (driver: UringDriver)
        requires
            entries <= MAX_ENTRIES,
        ensures
            driver.wf(),
            driver.registrations() == Map::<usize, SlotState>::empty(),
            driver.ext_arg() == ext_arg,
    {
        let driver = UringDriver {
            registrations: slab_with_capacity(entries as usize),
            ext_arg,
        };
        assert(driver.registrations() =~= Map::<usize, SlotState>::empty());
        driver
    }

    /// The key of an operation on a handle.
    pub fn encode_completion_key(token: usize) -> (key: u64)
        ensures
            key == completion_key(token),
    {
        let wide: u64 = token as u64;
        assert((wide << 1u64) | 1u64 == (2 * wide + 1) % 0x1_0000_0000_0000_0000) by (bit_vector);
        (wide << 1u64) | 1u64
    }

    /// The key of a poll request on a handle.
    pub fn encode_poll_key(token: usize) -> (key: u64)
        ensures
            key == poll_key(token),
    {
        let wide: u64 = token as u64;
        assert(wide << 1u64 == (2 * wide) % 0x1_0000_0000_0000_0000) by (bit_vector);
        wide << 1u64
    }

    /// The token that a key stands for.
    pub fn decode_token(key: u64) -> (token: usize)
        ensures
            token == key_token(key),
    {
        assert(key >> 1u64 == key / 2) by (bit_vector);
        (key >> 1u64) as usize
    }

    /// The kind of a key: 0 for a poll request, 1 for an operation.
    pub fn decode_key_kind(key: u64) -> (kind: u8)
        ensures
            kind == (if is_poll_key(key) { 0u8 } else { 1u8 }),
    {
        assert(key & 1u64 == key % 2) by (bit_vector);
        (key & 1u64) as u8
    }

    /// The readiness, as poll requests spell it.
    pub fn interest_to_poll_mask(interest: Interest) -> (mask: u32)
        ensures
            mask == interest.poll_mask(),
    {
        let mut mask: u32 = 0;
        if interest.readable {
            mask = mask | POLLIN;
        }
        if interest.writable {
            mask = mask | POLLOUT;
        }
        assert(0u32 | 1u32 == 1 && 0u32 | 4u32 == 4 && 1u32 | 4u32 == 5) by (bit_vector);
        mask
    }

    /// What a submission came to: a ring that is busy, and a wait that timed out, are no errors.
    pub fn submitter_call_result(result: Result<usize, IoError>) -> (outcome: Result<(), IoError>)
        ensures
            outcome == (match result {
                Ok(_) => Ok::<(), IoError>(()),
                Err(err) => if err == IoError::Os(EBUSY) || err == IoError::Os(ETIME) {
                    Ok(())
                } else {
                    Err(err)
                },
            }),
    {
        match result {
            Ok(_) => Ok(()),
            Err(IoError::Os(code)) => {
                if code == EBUSY || code == ETIME {
                    Ok(())
                } else {
                    Err(IoError::Os(code))
                }
            },
            Err(err) => Err(err),
        }
    }

    /// What pushing an entry came to.
    ///
    /// `emptied` is what submitting the queue came to, which is done first where the queue was
    /// full; `pushed` says whether the entry then found room.
    pub fn push_entry(emptied: Option<Result<usize, IoError>>, pushed: bool) -> (outcome: Result<
        (),
        IoError,
    >)
        ensures
            outcome == (match emptied {
                Some(Err(err)) if err != IoError::Os(EBUSY) && err != IoError::Os(ETIME) => Err::<
                    (),
                    IoError,
                >(err),
                _ => if pushed {
                    Ok(())
                } else {
                    Err(IoError::SubmissionQueueFull)
                },
            }),
    {
        if let Some(result) = emptied {
            if let Err(err) = Self::submitter_call_result(result) {
                return Err(err);
            }
        }
        if pushed {
            Ok(())
        } else {
            Err(IoError::SubmissionQueueFull)
        }
    }

    /// How to submit before a pass over the completion queue.
    pub fn submit_plan(
        &self,
        wait_for_one: bool,
        timeout: Option<Timespec>,
        queue_empty: bool,
    ) -> (plan: SubmitPlan)
        ensures
            plan == (match (wait_for_one, timeout) {
                (true, Some(time)) => if self.ext_arg() {
                    SubmitPlan::SubmitWithTimeout(time)
                } else {
                    SubmitPlan::PushTimeoutAndWait(time)
                },
                (true, None) => SubmitPlan::SubmitAndWait,
                (false, _) => if queue_empty {
                    SubmitPlan::Skip
                } else {
                    SubmitPlan::Submit
                },
            }),
    {
        if wait_for_one {
            match timeout {
                Some(time) => {
                    if self.ext_arg {
                        SubmitPlan::SubmitWithTimeout(time)
                    } else {
                        SubmitPlan::PushTimeoutAndWait(time)
                    }
                },
                None => SubmitPlan::SubmitAndWait,
            }
        } else if queue_empty {
            SubmitPlan::Skip
        } else {
            SubmitPlan::Submit
        }
    }

    /// Works off the entries of the completion queue, oldest first.
    ///
    /// The wakers are to be woken in the order given. If the driver was interrupted, the read that
    /// wakes it has to be submitted again.
    pub fn collect_completions(&mut self, cqes: &Vec<Cqe>) -> (collected: Collected)
        requires
            old(self).wf(),
        ensures
            final(self).wf(),
            final(self).ext_arg() == old(self).ext_arg(),
            ({
                let pass = Pass::start(old(self).registrations()).steps(cqes@);
                &&& final(self).registrations() == pass.registrations
                &&& collected.wakers@ == pass.woken
                &&& collected.woke_any == (pass.waiter_woken || pass.interrupt || pass.timeout)
                &&& collected.interrupted == pass.interrupt
            }),
    {
        let mut wakers: Vec<u64> = Vec::new();
        let mut woke_any = false;
        let mut interrupt = false;
        let mut timeout = false;
        let mut index: usize = 0;
        let ghost start = Pass::start(self.registrations());
        assert(cqes@.take(0) =~= Seq::<Cqe>::empty());
        while index < cqes.len()
            invariant
                index <= cqes.len(),
                self.wf(),
                self.ext_arg() == old(self).ext_arg(),
                start == Pass::start(old(self).registrations()),
                start.steps(cqes@.take(index as int)) == (Pass {
                    registrations: self.registrations(),
                    woken: wakers@,
                    waiter_woken: woke_any,
                    interrupt,
                    timeout,
                }),
            decreases cqes.len() - index,
        {
            let cqe = cqes[index];
            let ghost before = start.steps(cqes@.take(index as int));
            assert(cqes@.take(index + 1).drop_last() =~= cqes@.take(index as int));
            assert(start.steps(cqes@.take(index + 1)) == before.step(cqe));
            if cqe.key == INTERRUPT_KEY {
                interrupt = true;
            } else if cqe.key == TIMEOUT_KEY {
                timeout = true;
            } else {
                let mut woken = self.complete_entry(cqe);
                if Self::decode_key_kind(cqe.key) == 1 && woken.len() > 0 {
                    woke_any = true;
                }
                wakers.append(&mut woken);
            }
            index = index + 1;
        }
        assert(cqes@.take(cqes.len() as int) =~= cqes@);
        if interrupt || timeout {
            woke_any = true;
        }
        Collected { wakers, woke_any, interrupted: interrupt }
    }

    /// Works off one entry of the completion queue that is neither an interrupt nor a timeout, and
    /// gives the wakers to wake.
    fn complete_entry(&mut self, cqe: Cqe) -> (woken: Vec<u64>)
        requires
            old(self).wf(),
            cqe.key != INTERRUPT_KEY,
            cqe.key != TIMEOUT_KEY,
        ensures
            final(self).wf(),
            final(self).ext_arg() == old(self).ext_arg(),
            ({
                let pass = Pass::start(old(self).registrations()).step(cqe);
                &&& final(self).registrations() == pass.registrations
                &&& woken@ == pass.woken
                &&& pass.waiter_woken == (!is_poll_key(cqe.key) && woken.len() > 0)
                &&& !pass.interrupt
                &&& !pass.timeout
            }),
    {
        broadcast use crate::slots::lemma_states_insert;

        let mut woken: Vec<u64> = Vec::new();
        let token = Self::decode_token(cqe.key);
        let kind = Self::decode_key_kind(cqe.key);
        match slab_get_mut(&mut self.registrations, token) {
            Some(Slot::Poll(registration)) => {
                if kind == 0 {
                    registration.poll_armed = false;
                    if let Some(waker) = registration.waiter.take() {
                        woken.push(waker);
                    }
                }
            },
            Some(Slot::Completion(registration)) => {
                if kind == 1 {
                    registration.completed = Some(cqe.result);
                    registration.inflight = false;
                    woken.append(&mut registration.waiters);
                }
            },
            _ => {},
        }
        proof {
            lemma_wf_kept(*old(self), *self);
        }
        woken
    }

    /// Starts a completion-based operation on a handle.
    pub fn start_completion(&mut self, token: usize, waker: u64) -> (start: CompletionStart)
        requires
            old(self).wf(),
        ensures
            final(self).wf(),
            final(self).ext_arg() == old(self).ext_arg(),
            (final(self).registrations(), start) == start_completion(
                old(self).registrations(),
                token,
                waker,
            ),
    {
        broadcast use crate::slots::lemma_states_insert;

        let start = match slab_get_mut(&mut self.registrations, token) {
            None => CompletionStart::Refused(IoError::NotRegistered(token)),
            Some(Slot::Completion(registration)) => {
                match registration.completed.take() {
                    Some(result) => {
                        let aux = registration.aux.take();
                        CompletionStart::Done { result, aux }
                    },
                    None => {
                        if registration.inflight {
                            push_waiter(&mut registration.waiters, waker);
                            CompletionStart::Pending
                        } else {
                            registration.inflight = true;
                            push_waiter(&mut registration.waiters, waker);
                            CompletionStart::Submit { key: Self::encode_completion_key(token) }
                        }
                    },
                }
            },
            Some(_) => CompletionStart::Refused(IoError::RegisteredForPoll(token)),
        };
        proof {
            lemma_wf_kept(*old(self), *self);
        }
        start
    }

    /// Ends the submission of a completion-based operation, and says what to report.
    ///
    /// `pushed` is what pushing the entry came to, with what the operation wants the driver to
    /// keep until it completes.
    pub fn finish_completion(
        &mut self,
        token: usize,
        pushed: Result<Option<u64>, IoError>,
    ) -> (report: IoError)
        requires
            old(self).wf(),
        ensures
            final(self).wf(),
            final(self).ext_arg() == old(self).ext_arg(),
            final(self).registrations() == finish_completion(
                old(self).registrations(),
                token,
                pushed,
            ),
            report == (match pushed {
                Ok(_) => IoError::CompletionPending,
                Err(err) => err,
            }),
    {
        broadcast use crate::slots::lemma_states_insert;

        let slot = slab_get_mut(&mut self.registrations, token);
        let report = match pushed {
            Err(err) => {
                if let Some(Slot::Completion(registration)) = slot {
                    registration.inflight = false;
                    registration.waiters.clear();
                    registration.aux = None;
                }
                err
            },
            Ok(storage) => {
                if storage.is_some() {
                    if let Some(Slot::Completion(registration)) = slot {
                        registration.aux = storage;
                    }
                }
                IoError::CompletionPending
            },
        };
        proof {
            lemma_wf_kept(*old(self), *self);
        }
        report
    }

    /// Whether a readiness-based operation on a handle may be tried.
    pub fn check_poll(&self, token: usize) -> (checked: Result<(), IoError>)
        ensures
            checked == (match poll_refusal(self.registrations(), token) {
                Some(refusal) => Err::<(), IoError>(refusal),
                None => Ok(()),
            }),
    {
        match slab_get(&self.registrations, token) {
            Some(Slot::Poll(_)) => Ok(()),
            Some(_) => Err(IoError::RegisteredForCompletion(token)),
            None => Err(IoError::NotRegistered(token)),
        }
    }

    /// Goes on with a readiness-based operation on a handle that was tried.
    ///
    /// On a handle that does not take such operations it is refused, whatever came of it. One that
    /// succeeded or failed is over. One that would block makes its waker wait, and asks
    /// for a poll request unless one is under way already.
    pub fn submit<T>(
        &mut self,
        token: usize,
        interest: Interest,
        waker: u64,
        executed: Result<T, IoError>,
    ) -> (submit: PollSubmit<T>)
        requires
            old(self).wf(),
        ensures
            final(self).wf(),
            final(self).ext_arg() == old(self).ext_arg(),
            match poll_refusal(old(self).registrations(), token) {
                Some(refusal) => final(self).registrations() == old(self).registrations() && submit
                    == PollSubmit::<T>::Finished(Err(refusal)),
                None => match executed {
                    Err(err) if err.would_block() => {
                        let registration = old(self).registrations()[token]->Poll_0;
                        &&& final(self).registrations() == block_poll(
                            old(self).registrations(),
                            token,
                            interest,
                            waker,
                        )
                        &&& submit == (if registration.poll_armed {
                            PollSubmit::<T>::Finished(Err(err))
                        } else {
                            PollSubmit::<T>::Arm {
                                key: poll_key(token),
                                fd: registration.fd,
                                poll_mask: interest.poll_mask(),
                                blocked: err,
                            }
                        })
                    },
                    _ => final(self).registrations() == old(self).registrations() && submit
                        == PollSubmit::<T>::Finished(executed),
                },
            },
    {
        broadcast use crate::slots::lemma_states_insert;

        if let Err(refusal) = self.check_poll(token) {
            return PollSubmit::Finished(Err(refusal));
        }
        let err = match executed {
            Ok(output) => {
                return PollSubmit::Finished(Ok(output));
            },
            Err(err) => err,
        };
        if !err.is_would_block() {
            return PollSubmit::Finished(Err(err));
        }
        let submit = match slab_get_mut(&mut self.registrations, token) {
            None => PollSubmit::Finished(Err(IoError::NotRegistered(token))),
            Some(Slot::Poll(registration)) => {
                update_waiter(&mut registration.waiter, waker);
                let poll_mask = Self::interest_to_poll_mask(interest);
                registration.poll_mask = poll_mask;
                if registration.poll_armed {
                    PollSubmit::Finished(Err(err))
                } else {
                    registration.poll_armed = true;
                    PollSubmit::Arm {
                        key: Self::encode_poll_key(token),
                        fd: registration.fd,
                        poll_mask,
                        blocked: err,
                    }
                }
            },
            Some(_) => PollSubmit::Finished(Err(IoError::RegisteredForCompletion(token))),
        };
        proof {
            lemma_wf_kept(*old(self), *self);
        }
        submit
    }

    /// Ends the arming of a poll request, and says what to report.
    ///
    /// `pushed` is what pushing the request came to, and `blocked` the error of the operation that
    /// would block.
    pub fn finish_arm(
        &mut self,
        token: usize,
        pushed: Result<(), IoError>,
        blocked: IoError,
    ) -> (report: IoError)
        requires
            old(self).wf(),
        ensures
            final(self).wf(),
            final(self).ext_arg() == old(self).ext_arg(),
            match pushed {
                Ok(_) => final(self).registrations() == old(self).registrations() && report
                    == blocked,
                Err(err) => final(self).registrations() == fail_poll(
                    old(self).registrations(),
                    token,
                ) && report == err,
            },
    {
        broadcast use crate::slots::lemma_states_insert;

        match pushed {
            Ok(_) => blocked,
            Err(err) => {
                if let Some(Slot::Poll(registration)) = slab_get_mut(
                    &mut self.registrations,
                    token,
                ) {
                    registration.poll_armed = false;
                    registration.waiter = None;
                }
                proof {
                    lemma_wf_kept(*old(self), *self);
                }
                err
            },
        }
    }

    /// Registers a handle for completions.
    pub fn register_handle(&mut self, fd: i32, interest: Interest) -> (token: usize)
        requires
            old(self).wf(),
        ensures
            final(self).wf(),
            final(self).ext_arg() == old(self).ext_arg(),
            !old(self).registrations().contains_key(token),
            final(self).registrations() == old(self).registrations().insert(
                token,
                fresh_registration(fd, interest, RegistrationMode::Completion),
            ),
    {
        self.register_handle_with_mode(fd, interest, RegistrationMode::Completion)
    }

    /// Registers a handle for the mode given, under a token that was free.
    pub fn register_handle_with_mode(
        &mut self,
        fd: i32,
        interest: Interest,
        mode: RegistrationMode,
    ) -> (token: usize)
        requires
            old(self).wf(),
        ensures
            final(self).wf(),
            final(self).ext_arg() == old(self).ext_arg(),
            !old(self).registrations().contains_key(token),
            final(self).registrations() == old(self).registrations().insert(
                token,
                fresh_registration(fd, interest, mode),
            ),
    {
        broadcast use crate::slots::lemma_states_insert;

        let slot = match mode {
            RegistrationMode::Completion => Slot::Completion(CompletionRegistration::new()),
            RegistrationMode::Poll => Slot::Poll(
                PollRegistration {
                    fd,
                    poll_mask: Self::interest_to_poll_mask(interest),
                    waiter: None,
                    poll_armed: false,
                },
            ),
        };
        let token = slab_insert(&mut self.registrations, slot);
        assert forall|other: usize| #[trigger]
            self.registrations().contains_key(other) implies other < isize::MAX && (
        self.registrations()[other] is Poll || self.registrations()[other] is Completion) by {
            if other != token {
                assert(old(self).registrations().contains_key(other));
            }
        }
        token
    }

    /// Changes the readiness that a handle in poll mode asks for next. One in completion mode
    /// stays as it is.
    pub fn reregister_handle(&mut self, token: usize, interest: Interest) -> (outcome: Result<
        (),
        IoError,
    >)
        requires
            old(self).wf(),
        ensures
            final(self).wf(),
            final(self).ext_arg() == old(self).ext_arg(),
            outcome == (if old(self).registrations().contains_key(token) {
                Ok::<(), IoError>(())
            } else {
                Err(IoError::NotRegistered(token))
            }),
            final(self).registrations() == (if old(self).registrations().contains_key(token)
                && old(self).registrations()[token] is Poll {
                old(self).registrations().insert(
                    token,
                    SlotState::Poll(
                        PollRegistration {
                            poll_mask: interest.poll_mask(),
                            ..old(self).registrations()[token]->Poll_0
                        },
                    ),
                )
            } else {
                old(self).registrations()
            }),
    {
        broadcast use crate::slots::lemma_states_insert;

        let outcome = match slab_get_mut(&mut self.registrations, token) {
            Some(Slot::Poll(registration)) => {
                registration.poll_mask = Self::interest_to_poll_mask(interest);
                Ok(())
            },
            Some(_) => Ok(()),
            None => Err(IoError::NotRegistered(token)),
        };
        proof {
            lemma_wf_kept(*old(self), *self);
        }
        outcome
    }

    /// Forgets a handle.
    pub fn deregister_handle(&mut self, token: usize) -> (outcome: Result<(), IoError>)
        requires
            old(self).wf(),
        ensures
            final(self).wf(),
            final(self).ext_arg() == old(self).ext_arg(),
            outcome == (if old(self).registrations().contains_key(token) {
                Ok::<(), IoError>(())
            } else {
                Err(IoError::NotRegistered(token))
            }),
            final(self).registrations() == old(self).registrations().remove(token),
    {
        broadcast use crate::slots::lemma_states_remove;

        let removed = slab_try_remove(&mut self.registrations, token);
        assert forall|other: usize| #[trigger]
            self.registrations().contains_key(other) implies other < isize::MAX && (
        self.registrations()[other] is Poll || self.registrations()[other] is Completion) by {
            assert(old(self).registrations().contains_key(other));
        }
        if removed.is_none() {
            return Err(IoError::NotRegistered(token));
        }
        Ok(())
    }

    /// The ring takes completion-based operations.
    pub fn supports_completion(&self) -> (supported: bool)
        ensures
            supported,
    {
        true
    }
}

/// A change that keeps the tokens, and the mode of each, keeps the driver well formed.
proof fn lemma_wf_kept(before: UringDriver, after: UringDriver)
    requires
        before.wf(),
        after.registrations().dom() =~= before.registrations().dom(),
        forall|token: usize| #[trigger]
            after.registrations().contains_key(token) ==> (after.registrations()[token] is Poll
                <==> before.registrations()[token] is Poll) && (
            after.registrations()[token] is Completion
                <==> before.registrations()[token] is Completion),
    ensures
        after.wf(),
{
    assert forall|token: usize| #[trigger]
        after.registrations().contains_key(token) implies token < isize::MAX && (
    after.registrations()[token] is Poll || after.registrations()[token] is Completion) by {
        assert(before.registrations().contains_key(token));
    }
}

} // verus!
