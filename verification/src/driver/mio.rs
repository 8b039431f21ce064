//! The readiness driver.
//!
//! An operation is tried first. One that would block makes its waker wait until the poller
//! reports the handle. The poller itself is the caller's: this module says what to ask of it and
//! what its events mean.

use crate::driver::{update_waiter, Interest};
use crate::error::IoError;
use crate::slots::{
    slab_get, slab_get_mut, slab_insert, slab_try_remove, slab_with_capacity,
    ReadinessRegistration, Slot, SlotState,
};
use vstd::prelude::*;

verus! {

/// The token of the event that wakes the driver.
pub const INTERRUPT_TOKEN: usize = usize::MAX;

/// What an operation has to do after it was tried.
#[derive(Debug)]
pub enum ReadinessSubmit<T> {
    /// The operation is over.
    Finished(Result<T, IoError>),
    /// Make the poller watch `fd` for `interest`, then go on with
    /// [`MioDriver::finish_submit`].
    Reregister { fd: i32, interest: Interest, blocked: IoError },
}

/// The registrations, and the wakers collected, after one event.
pub open spec fn ready_step(
    state: (Map<usize, SlotState>, Seq<u64>),
    token: usize,
) -> (Map<usize, SlotState>, Seq<u64>) {
    if token != INTERRUPT_TOKEN && state.0.contains_key(token) && state.0[token] is Readiness {
        let registration = state.0[token]->Readiness_0;
        (
            state.0.insert(
                token,
                SlotState::Readiness(ReadinessRegistration { waiter: None, ..registration }),
            ),
            state.1 + crate::driver::uring::optional(registration.waiter),
        )
    } else {
        state
    }
}

/// The registrations, and the wakers to wake, after all events, first to last.
pub open spec fn ready_steps(registrations: Map<usize, SlotState>, tokens: Seq<usize>) -> (
    Map<usize, SlotState>,
    Seq<u64>,
)
    decreases tokens.len(),
{
    if tokens.len() == 0 {
        (registrations, Seq::empty())
    } else {
        ready_step(ready_steps(registrations, tokens.drop_last()), tokens.last())
    }
}

/// The registrations once an operation on a handle waits for `interest`.
pub open spec fn blocked(
    registrations: Map<usize, SlotState>,
    token: usize,
    interest: Interest,
    waker: u64,
) -> Map<usize, SlotState> {
    registrations.insert(
        token,
        SlotState::Readiness(
            ReadinessRegistration {
                waiter: Some(waker),
                interest,
                ..registrations[token]->Readiness_0
            },
        ),
    )
}

/// The registrations of the readiness driver.
pub struct MioDriver {
    registrations: slab::Slab<Slot>,
}

impl MioDriver {
    /// What is registered under each token.
    pub closed spec fn registrations(&self) -> Map<usize, SlotState> {
        crate::slots::states(crate::slots::slab_contents(self.registrations))
    }

    /// No token is the interrupt's, and under each stands a handle of this driver.
    pub open spec fn wf(&self) -> bool {
        forall|token: usize| #[trigger]
            self.registrations().contains_key(token) ==> token < INTERRUPT_TOKEN
                && self.registrations()[token] is Readiness
    }

    /// A driver on which nothing is registered.
    pub fn new() -> (driver: MioDriver)
        ensures
            driver.wf(),
            driver.registrations() == Map::<usize, SlotState>::empty(),
    {
        let driver = MioDriver { registrations: slab_with_capacity(1024) };
        assert(driver.registrations() =~= Map::<usize, SlotState>::empty());
        driver
    }

    /// Works off the events of one wait, and gives the wakers to wake, in this order.
    pub fn wait_timeout(&mut self, tokens: &Vec<usize>) -> (wakers: Vec<u64>)
        requires
            old(self).wf(),
        ensures
            final(self).wf(),
            (final(self).registrations(), wakers@) == ready_steps(
                old(self).registrations(),
                tokens@,
            ),
    {
        broadcast use crate::slots::lemma_states_insert;

        let mut wakers: Vec<u64> = Vec::new();
        let mut index: usize = 0;
        assert(tokens@.take(0) =~= Seq::<usize>::empty());
        assert(wakers@ =~= Seq::<u64>::empty());
        while index < tokens.len()
            invariant
                index <= tokens.len(),
                self.wf(),
                (self.registrations(), wakers@) == ready_steps(
                    old(self).registrations(),
                    tokens@.take(index as int),
                ),
            decreases tokens.len() - index,
        {
            let token = tokens[index];
            let ghost before = self.registrations();
            let ghost woken = wakers@;
            assert(tokens@.take(index + 1).drop_last() =~= tokens@.take(index as int));
            if token != INTERRUPT_TOKEN {
                if let Some(Slot::Readiness(registration)) = slab_get_mut(
                    &mut self.registrations,
                    token,
                ) {
                    if let Some(waker) = registration.waiter.take() {
                        wakers.push(waker);
                    }
                }
            }
            assert(wakers@ =~= ready_step((before, woken), token).1);
            assert(self.registrations() =~= ready_step((before, woken), token).0);
            assert forall|other: usize| #[trigger]
                self.registrations().contains_key(other) implies other < INTERRUPT_TOKEN
                && self.registrations()[other] is Readiness by {
                assert(before.contains_key(other));
            }
            index = index + 1;
        }
        assert(tokens@.take(tokens.len() as int) =~= tokens@);
        wakers
    }

    /// Goes on with an operation on a handle that was tried.
    ///
    /// One that succeeded or failed is over. One that would block makes its waker wait; where the
    /// poller does not watch for what the operation needs, it has to be asked first.
    pub fn submit<T>(
        &mut self,
        token: usize,
        interest: Interest,
        waker: u64,
        executed: Result<T, IoError>,
    ) -> (submit: ReadinessSubmit<T>)
        requires
            old(self).wf(),
        ensures
            final(self).wf(),
            match executed {
                Err(err) if err.would_block() => if !old(self).registrations().contains_key(
                    token,
                ) {
                    final(self).registrations() == old(self).registrations() && submit
                        == ReadinessSubmit::<T>::Finished(Err(IoError::NotRegistered(token)))
                } else {
                    let registration = old(self).registrations()[token]->Readiness_0;
                    if registration.interest != interest {
                        final(self).registrations() == old(self).registrations() && submit
                            == ReadinessSubmit::<T>::Reregister {
                            fd: registration.fd,
                            interest,
                            blocked: err,
                        }
                    } else {
                        final(self).registrations() == blocked(
                            old(self).registrations(),
                            token,
                            interest,
                            waker,
                        ) && submit == ReadinessSubmit::<T>::Finished(Err(err))
                    }
                },
                _ => final(self).registrations() == old(self).registrations() && submit
                    == ReadinessSubmit::<T>::Finished(executed),
            },
    {
        let err = match executed {
            Ok(output) => {
                return ReadinessSubmit::Finished(Ok(output));
            },
            Err(err) => err,
        };
        if !err.is_would_block() {
            return ReadinessSubmit::Finished(Err(err));
        }
        match slab_get(&self.registrations, token) {
            Some(Slot::Readiness(registration)) => {
                if registration.interest != interest {
                    return ReadinessSubmit::Reregister {
                        fd: registration.fd,
                        interest,
                        blocked: err,
                    };
                }
            },
            _ => {
                return ReadinessSubmit::Finished(Err(IoError::NotRegistered(token)));
            },
        }
        self.wait_for(token, interest, waker);
        ReadinessSubmit::Finished(Err(err))
    }

    /// Makes `waker` wait on a handle for `interest`.
    fn wait_for(&mut self, token: usize, interest: Interest, waker: u64)
        requires
            old(self).wf(),
            old(self).registrations().contains_key(token),
        ensures
            final(self).wf(),
            final(self).registrations() == blocked(
                old(self).registrations(),
                token,
                interest,
                waker,
            ),
    {
        broadcast use crate::slots::lemma_states_insert;

        if let Some(Slot::Readiness(registration)) = slab_get_mut(&mut self.registrations, token) {
            registration.interest = interest;
            update_waiter(&mut registration.waiter, waker);
        }
        assert forall|other: usize| #[trigger]
            self.registrations().contains_key(other) implies other < INTERRUPT_TOKEN
            && self.registrations()[other] is Readiness by {
            assert(old(self).registrations().contains_key(other));
        }
    }

    /// Goes on with an operation that would block once the poller was asked, and says what to
    /// report.
    pub fn finish_submit(
        &mut self,
        token: usize,
        interest: Interest,
        waker: u64,
        reregistered: Result<(), IoError>,
        blocked_by: IoError,
    ) -> (report: IoError)
        requires
            old(self).wf(),
        ensures
            final(self).wf(),
            match reregistered {
                Err(err) => {
                    &&& report == err
                    &&& final(self).registrations() == old(self).registrations()
                },
                Ok(_) => {
                    &&& report == blocked_by
                    &&& final(self).registrations()
                        == (if old(self).registrations().contains_key(token) {
                        blocked(old(self).registrations(), token, interest, waker)
                    } else {
                        old(self).registrations()
                    })
                },
            },
    {
        match reregistered {
            Err(err) => err,
            Ok(_) => {
                if slab_get(&self.registrations, token).is_some() {
                    self.wait_for(token, interest, waker);
                }
                blocked_by
            },
        }
    }

    /// Registers a handle, under a token that was free. The poller has to be told next.
    pub fn register_handle(&mut self, fd: i32, interest: Interest) -> (token: usize)
        requires
            old(self).wf(),
        ensures
            final(self).wf(),
            !old(self).registrations().contains_key(token),
            final(self).registrations() == old(self).registrations().insert(
                token,
                SlotState::Readiness(ReadinessRegistration { fd, waiter: None, interest }),
            ),
    {
        broadcast use crate::slots::lemma_states_insert;

        let token = slab_insert(
            &mut self.registrations,
            Slot::Readiness(ReadinessRegistration { fd, waiter: None, interest }),
        );
        assert forall|other: usize| #[trigger]
            self.registrations().contains_key(other) implies other < INTERRUPT_TOKEN
            && self.registrations()[other] is Readiness by {
            if other != token {
                assert(old(self).registrations().contains_key(other));
            }
        }
        token
    }

    /// Ends the registration of a handle: one that the poller did not take is forgotten.
    pub fn finish_register(
        &mut self,
        token: usize,
        registered: Result<(), IoError>,
    ) -> (outcome: Result<usize, IoError>)
        requires
            old(self).wf(),
        ensures
            final(self).wf(),
            match registered {
                Ok(_) => outcome == Ok::<usize, IoError>(token) && final(self).registrations()
                    == old(self).registrations(),
                Err(err) => outcome == Err::<usize, IoError>(err) && final(self).registrations()
                    == old(self).registrations().remove(token),
            },
    {
        match registered {
            Ok(_) => Ok(token),
            Err(err) => {
                self.forget(token);
                Err(err)
            },
        }
    }

    /// Forgets a handle.
    fn forget(&mut self, token: usize)
        requires
            old(self).wf(),
        ensures
            final(self).wf(),
            final(self).registrations() == old(self).registrations().remove(token),
    {
        broadcast use crate::slots::lemma_states_remove;

        let _ = slab_try_remove(&mut self.registrations, token);
        assert forall|other: usize| #[trigger]
            self.registrations().contains_key(other) implies other < INTERRUPT_TOKEN
            && self.registrations()[other] is Readiness by {
            assert(old(self).registrations().contains_key(other));
        }
    }

    /// The file descriptor of a handle that is to be re-registered or deregistered.
    pub fn registered_fd(&self, token: usize) -> (fd: Result<i32, IoError>)
        requires
            self.wf(),
        ensures
            fd == (if self.registrations().contains_key(token) {
                Ok::<i32, IoError>(self.registrations()[token]->Readiness_0.fd)
            } else {
                Err(IoError::NotRegistered(token))
            }),
    {
        assert(self.registrations().contains_key(token)
            ==> self.registrations()[token] is Readiness);
        match slab_get(&self.registrations, token) {
            Some(Slot::Readiness(registration)) => Ok(registration.fd),
            _ => Err(IoError::NotRegistered(token)),
        }
    }

    /// Ends the re-registration of a handle: the new interest counts if the poller took it.
    pub fn reregister_handle(
        &mut self,
        token: usize,
        interest: Interest,
        reregistered: Result<(), IoError>,
    ) -> (outcome: Result<(), IoError>)
        requires
            old(self).wf(),
        ensures
            final(self).wf(),
            outcome == (if old(self).registrations().contains_key(token) {
                reregistered
            } else {
                Err(IoError::NotRegistered(token))
            }),
            final(self).registrations() == (if outcome is Ok {
                old(self).registrations().insert(
                    token,
                    SlotState::Readiness(
                        ReadinessRegistration {
                            interest,
                            ..old(self).registrations()[token]->Readiness_0
                        },
                    ),
                )
            } else {
                old(self).registrations()
            }),
    {
        broadcast use crate::slots::lemma_states_insert;

        if let Err(err) = self.registered_fd(token) {
            return Err(err);
        }
        if reregistered.is_ok() {
            if let Some(Slot::Readiness(registration)) = slab_get_mut(
                &mut self.registrations,
                token,
            ) {
                registration.interest = interest;
            }
            assert forall|other: usize| #[trigger]
                self.registrations().contains_key(other) implies other < INTERRUPT_TOKEN
                && self.registrations()[other] is Readiness by {
                assert(old(self).registrations().contains_key(other));
            }
        }
        reregistered
    }

    /// Ends the deregistration of a handle: it is forgotten if the poller let go of it.
    pub fn deregister_handle(
        &mut self,
        token: usize,
        deregistered: Result<(), IoError>,
    ) -> (outcome: Result<(), IoError>)
        requires
            old(self).wf(),
        ensures
            final(self).wf(),
            outcome == (if old(self).registrations().contains_key(token) {
                deregistered
            } else {
                Err(IoError::NotRegistered(token))
            }),
            final(self).registrations() == (if outcome is Ok {
                old(self).registrations().remove(token)
            } else {
                old(self).registrations()
            }),
    {
        if let Err(err) = self.registered_fd(token) {
            return Err(err);
        }
        if deregistered.is_ok() {
            self.forget(token);
        }
        deregistered
    }

    /// The waker that waits on a handle.
    pub fn waiter(&self, token: usize) -> (waiter: Option<u64>)
        requires
            self.wf(),
        ensures
            waiter == (if self.registrations().contains_key(token) {
                self.registrations()[token]->Readiness_0.waiter
            } else {
                None
            }),
    {
        assert(self.registrations().contains_key(token)
            ==> self.registrations()[token] is Readiness);
        match slab_get(&self.registrations, token) {
            Some(Slot::Readiness(registration)) => registration.waiter,
            _ => None,
        }
    }

    /// The poller takes no completion-based operations.
    pub fn supports_completion(&self) -> (supported: bool)
        ensures
            !supported,
    {
        false
    }

    /// Refuses a completion-based operation.
    pub fn submit_completion(&self) -> (refusal: IoError)
        ensures
            refusal == IoError::CompletionUnsupported,
    {
        crate::driver::unsupported_completion_error()
    }
}

/// An operation that would block is not forgotten: a wait that reports its handle wakes its waker,
/// and nobody waits on the handle any more.
pub proof fn law_blocked_operation_is_woken(
    registrations: Map<usize, SlotState>,
    token: usize,
    interest: Interest,
    waker: u64,
    tokens: Seq<usize>,
)
    requires
        token < INTERRUPT_TOKEN,
        registrations.contains_key(token),
        registrations[token] is Readiness,
        tokens.contains(token),
    ensures
        ({
            let waiting = blocked(registrations, token, interest, waker);
            let (after, woken) = ready_steps(waiting, tokens);
            &&& woken.contains(waker)
            &&& after.contains_key(token)
            &&& after[token] is Readiness
            &&& after[token]->Readiness_0.waiter is None
        }),
    decreases tokens.len(),
{
    let waiting = blocked(registrations, token, interest, waker);
    let (before, early) = ready_steps(waiting, tokens.drop_last());
    let (after, woken) = ready_steps(waiting, tokens);
    if tokens.drop_last().contains(token) {
        law_blocked_operation_is_woken(registrations, token, interest, waker, tokens.drop_last());
        let i = choose|i: int| 0 <= i < early.len() && early[i] == waker;
        assert(woken[i] == waker);
    } else {
        let at = choose|at: int| 0 <= at < tokens.len() && tokens[at] == token;
        if at < tokens.len() - 1 {
            assert(tokens.drop_last()[at] == token);
        }
        law_events_leave_others(waiting, tokens.drop_last(), token);
        assert(woken[early.len() as int] == waker);
    }
}

/// Events of other handles leave a handle alone.
pub proof fn law_events_leave_others(
    registrations: Map<usize, SlotState>,
    tokens: Seq<usize>,
    token: usize,
)
    requires
        !tokens.contains(token),
    ensures
        ready_steps(registrations, tokens).0.contains_key(token) == registrations.contains_key(
            token,
        ),
        registrations.contains_key(token) ==> ready_steps(registrations, tokens).0[token]
            == registrations[token],
    decreases tokens.len(),
{
    if tokens.len() > 0 {
        assert forall|i: int| 0 <= i < tokens.drop_last().len() implies tokens.drop_last()[i]
            != token by {
            assert(tokens.drop_last()[i] == tokens[i]);
        }
        law_events_leave_others(registrations, tokens.drop_last(), token);
        assert(tokens.last() == tokens[tokens.len() - 1]);
    }
}

/// One event makes the handle's waiter come out, and nobody waits on the handle any more; what else
/// is known of it, and other handles, stay. The event that wakes the driver, and one of a handle
/// that is not known, do nothing.
pub proof fn law_one_event(
    driver: &mut MioDriver,
    tokens: Vec<usize>,
    token: usize,
    wakers: Vec<u64>,
)
    requires
        old(driver).wf(),
        tokens@ == seq![token],
        call_ensures(MioDriver::wait_timeout, (driver, &tokens), wakers),
    ensures
        ({
            let before = old(driver).registrations();
            let after = final(driver).registrations();
            let known = token != usize::MAX && before.contains_key(token);
            &&& after.dom() == before.dom()
            &&& after.remove(token) == before.remove(token)
            &&& !known ==> wakers@.len() == 0 && after == before
            &&& known ==> {
                &&& before[token]->Readiness_0.waiter matches Some(waker) ==> wakers@
                    == seq![waker]
                &&& before[token]->Readiness_0.waiter is None ==> wakers@.len() == 0
                &&& after[token] is Readiness
                &&& after[token]->Readiness_0.waiter is None
                &&& after[token]->Readiness_0.fd == before[token]->Readiness_0.fd
                &&& after[token]->Readiness_0.interest == before[token]->Readiness_0.interest
            }
        }),
{
    let before = old(driver).registrations();
    let after = final(driver).registrations();
    assert(tokens@.drop_last() =~= Seq::<usize>::empty());
    assert(tokens@.last() == token);
    reveal_with_fuel(ready_steps, 2);
    assert(before.contains_key(token) ==> before[token] is Readiness);
    assert(after.dom() =~= before.dom());
    assert(after.remove(token) =~= before.remove(token));
}

/// Working off events is working off the first of them, and then the rest.
proof fn lemma_ready_steps_add_up(
    registrations: Map<usize, SlotState>,
    first: Seq<usize>,
    second: Seq<usize>,
)
    ensures
        ({
            let (middle, early) = ready_steps(registrations, first);
            let (after, late) = ready_steps(middle, second);
            &&& ready_steps(registrations, first + second).0 == after
            &&& ready_steps(registrations, first + second).1 == early + late
        }),
    decreases second.len(),
{
    let (middle, early) = ready_steps(registrations, first);
    if second.len() > 0 {
        lemma_ready_steps_add_up(registrations, first, second.drop_last());
        assert((first + second).drop_last() =~= first + second.drop_last());
        assert((first + second).last() == second.last());
        assert(ready_steps(registrations, first + second).1 =~= early + ready_steps(
            middle,
            second,
        ).1);
    } else {
        assert(first + second =~= first);
        assert(early + Seq::<u64>::empty() =~= early);
    }
}

/// It does not matter how events are divided over waits: one wait with all of them leaves the same
/// handles and wakes the same wakers in the same order as two waits.
pub proof fn law_waits_add_up(
    whole: &mut MioDriver,
    all: Vec<usize>,
    woken: Vec<u64>,
    one: &mut MioDriver,
    first: Vec<usize>,
    early: Vec<u64>,
    two: &mut MioDriver,
    second: Vec<usize>,
    late: Vec<u64>,
)
    requires
        old(whole).registrations() == old(one).registrations(),
        old(two).registrations() == final(one).registrations(),
        all@ == first@ + second@,
        call_ensures(MioDriver::wait_timeout, (whole, &all), woken),
        call_ensures(MioDriver::wait_timeout, (one, &first), early),
        call_ensures(MioDriver::wait_timeout, (two, &second), late),
    ensures
        final(whole).registrations() == final(two).registrations(),
        woken@ == early@ + late@,
{
    lemma_ready_steps_add_up(old(whole).registrations(), first@, second@);
}

/// An operation that was tried is over unless it would block. One that would block on a known
/// handle makes its waker wait if the poller watches for what it needs, and otherwise has the
/// poller asked, with nothing changed yet. One on an unknown handle is refused.
pub proof fn law_blocked_operation_waits<T>(
    driver: &mut MioDriver,
    token: usize,
    interest: Interest,
    waker: u64,
    executed: Result<T, IoError>,
    submit: ReadinessSubmit<T>,
)
    requires
        old(driver).wf(),
        call_ensures(
            MioDriver::submit::<T>,
            (driver, token, interest, waker, executed),
            submit,
        ),
    ensures
        ({
            let before = old(driver).registrations();
            let after = final(driver).registrations();
            let blocks = executed matches Err(err) && (err == IoError::Os(11) || err
                == IoError::Windows(10035) || err == IoError::CompletionPending);
            let watched = before.contains_key(token) && before[token]->Readiness_0.interest
                == interest;
            &&& after.dom() == before.dom()
            &&& after.remove(token) == before.remove(token)
            &&& !blocks ==> submit == ReadinessSubmit::<T>::Finished(executed) && after == before
            &&& blocks && !before.contains_key(token) ==> submit == ReadinessSubmit::<T>::Finished(
                Err(IoError::NotRegistered(token)),
            ) && after == before
            &&& blocks && before.contains_key(token) && !watched ==> submit
                == ReadinessSubmit::<T>::Reregister {
                fd: before[token]->Readiness_0.fd,
                interest,
                blocked: executed->Err_0,
            } && after == before
            &&& blocks && watched ==> {
                &&& submit == ReadinessSubmit::<T>::Finished(executed)
                &&& after[token] is Readiness
                &&& after[token]->Readiness_0.waiter == Some(waker)
                &&& after[token]->Readiness_0.interest == interest
                &&& after[token]->Readiness_0.fd == before[token]->Readiness_0.fd
            }
        }),
{
    let before = old(driver).registrations();
    let after = final(driver).registrations();
    assert(after.dom() =~= before.dom());
    assert(after.remove(token) =~= before.remove(token));
}

/// Once the poller was asked, the waker of a blocked operation waits for what it needs, and it is
/// reported that the operation would block; where the poller refused, its error is reported, and
/// nothing changes.
pub proof fn law_poller_is_asked_first(
    driver: &mut MioDriver,
    token: usize,
    interest: Interest,
    waker: u64,
    reregistered: Result<(), IoError>,
    blocked_by: IoError,
    report: IoError,
)
    requires
        old(driver).wf(),
        call_ensures(
            MioDriver::finish_submit,
            (driver, token, interest, waker, reregistered, blocked_by),
            report,
        ),
    ensures
        reregistered is Ok ==> report == blocked_by,
        reregistered matches Err(err)
            ==> report == err && final(driver).registrations() == old(driver).registrations(),
        final(driver).registrations().dom() == old(driver).registrations().dom(),
        final(driver).registrations().remove(token) == old(driver).registrations().remove(token),
        reregistered is Ok && old(driver).registrations().contains_key(token) ==> {
            let before = old(driver).registrations()[token];
            let after = final(driver).registrations()[token];
            &&& after is Readiness
            &&& after->Readiness_0.waiter == Some(waker)
            &&& after->Readiness_0.interest == interest
            &&& after->Readiness_0.fd == before->Readiness_0.fd
        },
{
    let before = old(driver).registrations();
    let after = final(driver).registrations();
    assert(after.dom() =~= before.dom());
    assert(after.remove(token) =~= before.remove(token));
}

/// A blocked operation is not forgotten: whether the poller watched already or had to be asked, the
/// wait that reports the handle wakes the operation's waker.
pub proof fn law_blocked_operation_wakes_its_waker<T>(
    blocking: &mut MioDriver,
    token: usize,
    interest: Interest,
    waker: u64,
    submit: ReadinessSubmit<T>,
    asking: &mut MioDriver,
    report: IoError,
    waiting: &mut MioDriver,
    tokens: Vec<usize>,
    wakers: Vec<u64>,
)
    requires
        old(blocking).wf(),
        old(blocking).registrations().contains_key(token),
        call_ensures(
            MioDriver::submit::<T>,
            (blocking, token, interest, waker, Err(IoError::Os(11))),
            submit,
        ),
        match submit {
            ReadinessSubmit::Finished(_) => *old(waiting) == *final(blocking),
            ReadinessSubmit::Reregister { .. } => {
                &&& *old(asking) == *final(blocking)
                &&& call_ensures(
                    MioDriver::finish_submit,
                    (asking, token, interest, waker, Ok(()), IoError::Os(11)),
                    report,
                )
                &&& *old(waiting) == *final(asking)
            },
        },
        tokens@.contains(token),
        call_ensures(MioDriver::wait_timeout, (waiting, &tokens), wakers),
    ensures
        wakers@.contains(waker),
        final(waiting).registrations().contains_key(token),
        final(waiting).registrations()[token]->Readiness_0.waiter is None,
{
    law_blocked_operation_is_woken(
        old(blocking).registrations(),
        token,
        interest,
        waker,
        tokens@,
    );
}

/// A handle is registered under a token that was free, with nobody waiting on it. Other handles
/// stay as they are.
pub proof fn law_handle_is_registered_idle(
    driver: &mut MioDriver,
    fd: i32,
    interest: Interest,
    token: usize,
)
    requires
        call_ensures(MioDriver::register_handle, (driver, fd, interest), token),
    ensures
        !old(driver).registrations().contains_key(token),
        final(driver).registrations().contains_key(token),
        final(driver).registrations().remove(token) == old(driver).registrations(),
        final(driver).registrations()[token] is Readiness,
        final(driver).registrations()[token]->Readiness_0.fd == fd,
        final(driver).registrations()[token]->Readiness_0.interest == interest,
        final(driver).registrations()[token]->Readiness_0.waiter is None,
{
    assert(final(driver).registrations().remove(token) =~= old(driver).registrations());
}

/// A handle that the poller did not take is forgotten again, and its error is reported.
pub proof fn law_refused_handle_is_forgotten(
    driver: &mut MioDriver,
    token: usize,
    registered: Result<(), IoError>,
    outcome: Result<usize, IoError>,
)
    requires
        call_ensures(MioDriver::finish_register, (driver, token, registered), outcome),
    ensures
        registered is Ok
            ==> outcome == Ok::<usize, IoError>(token)
            && final(driver).registrations() == old(driver).registrations(),
        registered matches Err(err)
            ==> outcome == Err::<usize, IoError>(err)
            && !final(driver).registrations().contains_key(token),
        final(driver).registrations().remove(token) == old(driver).registrations().remove(token),
{
    assert(final(driver).registrations().remove(token) =~= old(driver).registrations().remove(
        token,
    ));
}

/// The poller is asked under the descriptor with which the handle was registered.
pub proof fn law_descriptor_is_that_of_the_handle(
    driver: MioDriver,
    token: usize,
    fd: Result<i32, IoError>,
)
    requires
        call_ensures(MioDriver::registered_fd, (&driver, token), fd),
    ensures
        fd is Ok <==> driver.registrations().contains_key(token),
        fd matches Ok(fd) ==> fd == driver.registrations()[token]->Readiness_0.fd,
        fd matches Err(err) ==> err == IoError::NotRegistered(token),
{
}

/// A change of interest counts just if the handle is known and the poller took it, and changes
/// nothing else.
pub proof fn law_interest_is_changed_alone(
    driver: &mut MioDriver,
    token: usize,
    interest: Interest,
    reregistered: Result<(), IoError>,
    outcome: Result<(), IoError>,
)
    requires
        old(driver).wf(),
        call_ensures(
            MioDriver::reregister_handle,
            (driver, token, interest, reregistered),
            outcome,
        ),
    ensures
        outcome is Ok <==> old(driver).registrations().contains_key(token) && reregistered is Ok,
        outcome matches Err(err) ==> err == (if old(driver).registrations().contains_key(token) {
            reregistered->Err_0
        } else {
            IoError::NotRegistered(token)
        }),
        outcome is Err ==> final(driver).registrations() == old(driver).registrations(),
        final(driver).registrations().remove(token) == old(driver).registrations().remove(token),
        outcome is Ok ==> {
            let before = old(driver).registrations()[token];
            let after = final(driver).registrations()[token];
            &&& final(driver).registrations().contains_key(token)
            &&& after is Readiness
            &&& after->Readiness_0.interest == interest
            &&& after->Readiness_0.fd == before->Readiness_0.fd
            &&& after->Readiness_0.waiter == before->Readiness_0.waiter
        },
{
    assert(final(driver).registrations().remove(token) =~= old(driver).registrations().remove(
        token,
    ));
}

/// A handle is forgotten just if it is known and the poller let go of it. Other handles stay.
pub proof fn law_handle_is_forgotten(
    driver: &mut MioDriver,
    token: usize,
    deregistered: Result<(), IoError>,
    outcome: Result<(), IoError>,
)
    requires
        call_ensures(MioDriver::deregister_handle, (driver, token, deregistered), outcome),
    ensures
        outcome is Ok <==> old(driver).registrations().contains_key(token) && deregistered is Ok,
        outcome matches Err(err) ==> err == (if old(driver).registrations().contains_key(token) {
            deregistered->Err_0
        } else {
            IoError::NotRegistered(token)
        }),
        outcome is Ok ==> !final(driver).registrations().contains_key(token),
        outcome is Err ==> final(driver).registrations() == old(driver).registrations(),
        final(driver).registrations().remove(token) == old(driver).registrations().remove(token),
{
    assert(final(driver).registrations().remove(token) =~= old(driver).registrations().remove(
        token,
    ));
}

/// The waiter of a handle is the one that waits on it, and an unknown handle has none.
pub proof fn law_waiter_is_that_of_the_handle(
    driver: MioDriver,
    token: usize,
    waiter: Option<u64>,
)
    requires
        call_ensures(MioDriver::waiter, (&driver, token), waiter),
    ensures
        driver.registrations().contains_key(token) ==> waiter
            == driver.registrations()[token]->Readiness_0.waiter,
        !driver.registrations().contains_key(token) ==> waiter is None,
{
}

/// The readiness driver takes no completions, and says so.
pub proof fn law_completions_are_not_offered(
    driver: MioDriver,
    supported: bool,
    refusal: IoError,
)
    requires
        call_ensures(MioDriver::supports_completion, (&driver,), supported),
        call_ensures(MioDriver::submit_completion, (&driver,), refusal),
    ensures
        !supported,
        refusal == IoError::CompletionUnsupported,
{
}

/// A new driver knows no handle.
pub proof fn law_new_driver_knows_no_handle(driver: MioDriver)
    requires
        call_ensures(MioDriver::new, (), driver),
    ensures
        driver.wf(),
        forall|token: usize| !(#[trigger] driver.registrations().contains_key(token)),
{
}

/// A wait without events wakes nobody, and changes nothing.
pub proof fn law_no_event_does_nothing(
    driver: &mut MioDriver,
    tokens: Vec<usize>,
    wakers: Vec<u64>,
)
    requires
        tokens@.len() == 0,
        call_ensures(MioDriver::wait_timeout, (driver, &tokens), wakers),
    ensures
        final(driver).registrations() == old(driver).registrations(),
        wakers@.len() == 0,
{
}

} // verus!
