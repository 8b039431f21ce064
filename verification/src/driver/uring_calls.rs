//! What the calls of the completion ring driver answer, and how one call bears on the next.

use crate::driver::uring::{
    Collected, CompletionStart, Cqe, Pass, PollSubmit, SubmitPlan, Timespec, UringDriver,
};
use crate::driver::uring_laws;
use crate::driver::{Interest, RegistrationMode};
use crate::error::IoError;
use vstd::prelude::*;

verus! {

/// The key of an operation is twice the token and one, that of a poll request twice the token.
pub proof fn law_keys_are_numbered(token: usize, operation: u64, request: u64)
    requires
        token < isize::MAX,
        call_ensures(UringDriver::encode_completion_key, (token,), operation),
        call_ensures(UringDriver::encode_poll_key, (token,), request),
    ensures
        operation == 2 * token + 1,
        request == 2 * token,
{
}

/// Half of a key is the token, and the rest says whether it is a poll request or an operation.
pub proof fn law_keys_are_read(key: u64, token: usize, kind: u8)
    requires
        key / 2 <= usize::MAX,
        call_ensures(UringDriver::decode_token, (key,), token),
        call_ensures(UringDriver::decode_key_kind, (key,), kind),
    ensures
        key == 2 * token + kind,
        kind < 2,
{
}

/// A poll request asks for reading by 1 and for writing by 4.
pub proof fn law_mask_spells_interest(interest: Interest, mask: u32)
    requires
        call_ensures(UringDriver::interest_to_poll_mask, (interest,), mask),
    ensures
        mask == (if interest.readable {
            1int
        } else {
            0
        }) + (if interest.writable {
            4int
        } else {
            0
        }),
{
}

/// A submission is an error just if it failed with another number than that of a busy ring, 16, or
/// of a wait that timed out, 62; the error stays what it was.
pub proof fn law_submission_errors_are_passed_on(
    result: Result<usize, IoError>,
    outcome: Result<(), IoError>,
)
    requires
        call_ensures(UringDriver::submitter_call_result, (result,), outcome),
    ensures
        result is Ok ==> outcome is Ok,
        result matches Err(err) ==> (outcome is Ok <==> err == IoError::Os(16) || err
            == IoError::Os(62)),
        outcome matches Err(err) ==> result == Err::<usize, IoError>(err),
{
}

/// Pushing an entry succeeds just if it found room, and the submission that was to make room did
/// not fail. A failed submission is what is reported, whether there was room or not.
pub proof fn law_pushing_needs_room(
    emptied: Option<Result<usize, IoError>>,
    pushed: bool,
    outcome: Result<(), IoError>,
)
    requires
        call_ensures(UringDriver::push_entry, (emptied, pushed), outcome),
    ensures
        !(emptied matches Some(Err(_))) ==> (outcome is Ok <==> pushed),
        emptied matches Some(Err(err)) ==> if err == IoError::Os(16) || err == IoError::Os(62) {
            outcome is Ok <==> pushed
        } else {
            outcome == Err::<(), IoError>(err)
        },
        outcome == Err::<(), IoError>(IoError::SubmissionQueueFull) || outcome is Ok || (
        emptied matches Some(Err(err)) && outcome == Err::<(), IoError>(err)),
{
}

/// A wait is made just if one was asked for, and ends at the time given, if one was. Without a
/// wait, the queue is submitted just if it holds something.
pub proof fn law_plan_waits_as_asked(
    driver: UringDriver,
    wait_for_one: bool,
    timeout: Option<Timespec>,
    queue_empty: bool,
    plan: SubmitPlan,
)
    requires
        call_ensures(
            UringDriver::submit_plan,
            (&driver, wait_for_one, timeout, queue_empty),
            plan,
        ),
    ensures
        wait_for_one <==> plan is SubmitAndWait || plan is SubmitWithTimeout
            || plan is PushTimeoutAndWait,
        wait_for_one ==> (timeout is None <==> plan is SubmitAndWait),
        plan matches SubmitPlan::SubmitWithTimeout(time) ==> timeout == Some(time)
            && driver.ext_arg(),
        plan matches SubmitPlan::PushTimeoutAndWait(time) ==> timeout == Some(time)
            && !driver.ext_arg(),
        plan is Skip <==> !wait_for_one && queue_empty,
        plan is Submit <==> !wait_for_one && !queue_empty,
{
}

/// A new driver knows no handle.
pub proof fn law_new_driver_knows_no_handle(entries: u32, ext_arg: bool, driver: UringDriver)
    requires
        call_ensures(UringDriver::new, (entries, ext_arg), driver),
    ensures
        driver.wf(),
        driver.ext_arg() == ext_arg,
        forall|token: usize| !(#[trigger] driver.registrations().contains_key(token)),
{
}

/// A handle is registered under a token that was free, in the mode asked for, idle, and with no
/// one waiting. Other handles stay as they are.
pub proof fn law_handle_is_registered_idle(
    driver: &mut UringDriver,
    fd: i32,
    interest: Interest,
    mode: RegistrationMode,
    token: usize,
)
    requires
        call_ensures(
            UringDriver::register_handle_with_mode,
            (driver, fd, interest, mode),
            token,
        ),
    ensures
        !old(driver).registrations().contains_key(token),
        final(driver).registrations().contains_key(token),
        final(driver).registrations().remove(token) == old(driver).registrations(),
        mode == RegistrationMode::Completion ==> {
            let state = final(driver).registrations()[token];
            &&& state is Completion
            &&& !state->Completion_0.inflight
            &&& state->Completion_0.waiters.len() == 0
            &&& state->Completion_0.completed is None
            &&& state->Completion_0.aux is None
        },
        mode == RegistrationMode::Poll ==> {
            let state = final(driver).registrations()[token];
            &&& state is Poll
            &&& state->Poll_0.fd == fd
            &&& !state->Poll_0.poll_armed
            &&& state->Poll_0.waiter is None
            &&& state->Poll_0.poll_mask == interest.poll_mask()
        },
{
    assert(final(driver).registrations().remove(token) =~= old(driver).registrations());
}

/// A handle that asks for no mode is registered for completions.
pub proof fn law_handle_is_registered_for_completions(
    driver: &mut UringDriver,
    fd: i32,
    interest: Interest,
    token: usize,
)
    requires
        call_ensures(UringDriver::register_handle, (driver, fd, interest), token),
    ensures
        !old(driver).registrations().contains_key(token),
        final(driver).registrations().contains_key(token),
        final(driver).registrations()[token] is Completion,
        !final(driver).registrations()[token]->Completion_0.inflight,
        final(driver).registrations()[token]->Completion_0.waiters.len() == 0,
        final(driver).registrations()[token]->Completion_0.completed is None,
        final(driver).registrations()[token]->Completion_0.aux is None,
        final(driver).registrations().remove(token) == old(driver).registrations(),
{
    assert(final(driver).registrations().remove(token) =~= old(driver).registrations());
}

/// A handle that is registered can be forgotten, and then its token is free; no other can. Other
/// handles stay as they are.
pub proof fn law_handle_is_forgotten(
    driver: &mut UringDriver,
    token: usize,
    outcome: Result<(), IoError>,
)
    requires
        call_ensures(UringDriver::deregister_handle, (driver, token), outcome),
    ensures
        outcome is Ok <==> old(driver).registrations().contains_key(token),
        outcome matches Err(err) ==> err == IoError::NotRegistered(token),
        !final(driver).registrations().contains_key(token),
        forall|other: usize|
            other != token ==> (#[trigger] final(driver).registrations().contains_key(other)
                <==> old(driver).registrations().contains_key(other)),
        forall|other: usize| #[trigger]
            final(driver).registrations().contains_key(other)
                ==> final(driver).registrations()[other] == old(driver).registrations()[other],
{
}

/// A change of interest succeeds just if the handle is registered. It changes what a handle in
/// poll mode asks for next, and nothing else.
pub proof fn law_interest_is_changed_alone(
    driver: &mut UringDriver,
    token: usize,
    interest: Interest,
    outcome: Result<(), IoError>,
)
    requires
        call_ensures(UringDriver::reregister_handle, (driver, token, interest), outcome),
    ensures
        outcome is Ok <==> old(driver).registrations().contains_key(token),
        outcome matches Err(err) ==> err == IoError::NotRegistered(token),
        final(driver).registrations().dom() == old(driver).registrations().dom(),
        final(driver).registrations().remove(token) == old(driver).registrations().remove(token),
        old(driver).registrations().contains_key(token) ==> {
            let before = old(driver).registrations()[token];
            let after = final(driver).registrations()[token];
            if before is Poll {
                &&& after is Poll
                &&& after->Poll_0.poll_mask == interest.poll_mask()
                &&& after->Poll_0.fd == before->Poll_0.fd
                &&& after->Poll_0.waiter == before->Poll_0.waiter
                &&& after->Poll_0.poll_armed == before->Poll_0.poll_armed
            } else {
                after == before
            }
        },
{
    assert(final(driver).registrations().dom() =~= old(driver).registrations().dom());
    assert(final(driver).registrations().remove(token) =~= old(driver).registrations().remove(
        token,
    ));
}

/// Starting an operation finds out how its handle stands: an unknown handle and one in poll mode
/// are refused, a result that is there is handed out, an operation that is under way is joined,
/// and only otherwise is one submitted, under the handle's key.
pub proof fn law_start_finds_out_how_handle_stands(
    driver: &mut UringDriver,
    token: usize,
    waker: u64,
    start: CompletionStart,
)
    requires
        old(driver).wf(),
        call_ensures(UringDriver::start_completion, (driver, token, waker), start),
    ensures
        !old(driver).registrations().contains_key(token) <==> start == CompletionStart::Refused(
            IoError::NotRegistered(token),
        ),
        old(driver).registrations().contains_key(token)
            && old(driver).registrations()[token] is Poll
            <==> start == CompletionStart::Refused(IoError::RegisteredForPoll(token)),
        old(driver).registrations().contains_key(token)
            && old(driver).registrations()[token] is Completion ==> {
            let before = old(driver).registrations()[token]->Completion_0;
            match before.completed {
                Some(result) => start == CompletionStart::Done { result, aux: before.aux },
                None => if before.inflight {
                    start is Pending
                } else {
                    start == CompletionStart::Submit { key: (2 * token + 1) as u64 }
                },
            }
        },
{
}

/// Starting an operation makes its waker wait, or hands a result out, and does nothing else: who
/// waited before still waits, before the new waker; a result that is handed out is gone, with what
/// was kept for it; other handles, and a handle that is refused, stay as they are.
pub proof fn law_start_makes_waker_wait(
    driver: &mut UringDriver,
    token: usize,
    waker: u64,
    start: CompletionStart,
)
    requires
        old(driver).wf(),
        call_ensures(UringDriver::start_completion, (driver, token, waker), start),
    ensures
        final(driver).registrations().dom() == old(driver).registrations().dom(),
        final(driver).registrations().remove(token) == old(driver).registrations().remove(token),
        start is Refused ==> final(driver).registrations() == old(driver).registrations(),
        start is Pending || start is Submit ==> {
            let before = old(driver).registrations()[token]->Completion_0;
            let after = final(driver).registrations()[token]->Completion_0;
            &&& final(driver).registrations()[token] is Completion
            &&& after.inflight
            &&& after.waiters.contains(waker)
            &&& before.waiters.len() <= after.waiters.len() <= before.waiters.len() + 1
            &&& after.waiters.take(before.waiters.len() as int) == before.waiters
            &&& after.waiters.last() == waker
            &&& after.completed is None
            &&& after.aux == before.aux
        },
        start is Done ==> {
            let before = old(driver).registrations()[token]->Completion_0;
            let after = final(driver).registrations()[token]->Completion_0;
            &&& final(driver).registrations()[token] is Completion
            &&& after.completed is None
            &&& after.aux is None
            &&& after.inflight == before.inflight
            &&& after.waiters == before.waiters
        },
{
    let before = old(driver).registrations();
    let after = final(driver).registrations();
    assert(after.dom() =~= before.dom());
    assert(after.remove(token) =~= before.remove(token));
    if start is Pending || start is Submit {
        let old_waiters = before[token]->Completion_0.waiters;
        let waiters = after[token]->Completion_0.waiters;
        assert(waiters.take(old_waiters.len() as int) =~= old_waiters);
        assert(waiters[waiters.len() - 1] == waker);
    }
}

/// An entry that was pushed leaves everyone waiting and the handle busy; what the operation gave is
/// kept, and where it gave nothing what was kept before stays. One that could not be pushed leaves
/// nobody waiting, the handle free and nothing kept. Other handles stay as they are.
pub proof fn law_pushed_entry_keeps_waiters(
    driver: &mut UringDriver,
    token: usize,
    pushed: Result<Option<u64>, IoError>,
    report: IoError,
)
    requires
        old(driver).wf(),
        call_ensures(UringDriver::finish_completion, (driver, token, pushed), report),
    ensures
        pushed is Ok ==> report == IoError::CompletionPending,
        pushed matches Err(err) ==> report == err,
        final(driver).registrations().dom() == old(driver).registrations().dom(),
        final(driver).registrations().remove(token) == old(driver).registrations().remove(token),
        old(driver).registrations().contains_key(token)
            && old(driver).registrations()[token] is Completion ==> {
            let before = old(driver).registrations()[token]->Completion_0;
            let after = final(driver).registrations()[token]->Completion_0;
            &&& final(driver).registrations()[token] is Completion
            &&& after.completed == before.completed
            &&& pushed is Ok ==> after.waiters == before.waiters && after.inflight
                == before.inflight
            &&& pushed matches Ok(Some(storage)) ==> after.aux == Some(storage)
            &&& pushed matches Ok(None) ==> after.aux == before.aux
            &&& pushed is Err ==> after.waiters.len() == 0 && !after.inflight && after.aux is None
        },
        old(driver).registrations().contains_key(token)
            && !(old(driver).registrations()[token] is Completion)
            ==> final(driver).registrations()[token] == old(driver).registrations()[token],
{
    assert(final(driver).registrations().dom() =~= old(driver).registrations().dom());
    assert(final(driver).registrations().remove(token) =~= old(driver).registrations().remove(
        token,
    ));
}

/// An operation that was submitted is not forgotten: whoever starts it, or joins it while it is
/// under way, is woken by the pass that finds its entry, whether the operation gave the driver
/// something to keep or not. The handle is free then, nobody waits on it, and a result is there.
pub proof fn law_submitted_operation_wakes_its_waker(
    starting: &mut UringDriver,
    token: usize,
    waker: u64,
    start: CompletionStart,
    pushing: &mut UringDriver,
    storage: Option<u64>,
    report: IoError,
    collecting: &mut UringDriver,
    cqes: Vec<Cqe>,
    at: int,
    collected: Collected,
)
    requires
        old(starting).wf(),
        call_ensures(UringDriver::start_completion, (starting, token, waker), start),
        start is Submit || start is Pending,
        *old(pushing) == *final(starting),
        call_ensures(UringDriver::finish_completion, (pushing, token, Ok(storage)), report),
        *old(collecting) == *final(pushing),
        0 <= at < cqes@.len(),
        cqes@[at].key == 2 * token + 1,
        call_ensures(UringDriver::collect_completions, (collecting, &cqes), collected),
    ensures
        collected.wakers@.contains(waker),
        collected.woke_any,
        final(collecting).registrations().contains_key(token),
        final(collecting).registrations()[token] is Completion,
        final(collecting).registrations()[token]->Completion_0.completed is Some,
        final(collecting).registrations()[token]->Completion_0.waiters.len() == 0,
        !final(collecting).registrations()[token]->Completion_0.inflight,
{
    law_start_makes_waker_wait(starting, token, waker, start);
    law_pushed_entry_keeps_waiters(pushing, token, Ok(storage), report);
    let registrations = old(collecting).registrations();
    assert(final(starting).registrations().contains_key(token));
    assert(registrations.contains_key(token));
    let pass = Pass::start(registrations);
    uring_laws::law_waiters_are_woken(pass, cqes@, token, at);
    uring_laws::law_pass_keeps_handles(pass, cqes@);
    let waiters = registrations[token]->Completion_0.waiters;
    let i = choose|i: int| 0 <= i < waiters.len() && waiters[i] == waker;
    assert(pass.steps(cqes@).woken.contains(waiters[i]));
}

/// What one entry of the queue does. The driver's own keys interrupt it, or end its wait, and wake
/// nobody. An operation's entry leaves its result with the handle, and wakes all who wait, oldest
/// first. A poll request's entry wakes the handle's waiter, and the request is no longer armed. An
/// entry of a handle that is gone, or of the other mode, does nothing.
pub proof fn law_one_entry(
    driver: &mut UringDriver,
    cqes: Vec<Cqe>,
    cqe: Cqe,
    collected: Collected,
)
    requires
        old(driver).wf(),
        cqes@ == seq![cqe],
        cqe.key / 2 <= usize::MAX,
        call_ensures(UringDriver::collect_completions, (driver, &cqes), collected),
    ensures
        ({
            let token = (cqe.key / 2) as usize;
            let before = old(driver).registrations();
            let after = final(driver).registrations();
            let own = cqe.key >= 0xffff_ffff_ffff_fffe;
            let operation = !own && cqe.key % 2 == 1 && before.contains_key(token)
                && before[token] is Completion;
            let request = !own && cqe.key % 2 == 0 && before.contains_key(token)
                && before[token] is Poll;
            &&& collected.interrupted == (cqe.key == 0xffff_ffff_ffff_ffff)
            &&& collected.woke_any == (own || (operation
                && before[token]->Completion_0.waiters.len() > 0))
            &&& after.dom() == before.dom()
            &&& after.remove(token) == before.remove(token)
            &&& operation ==> {
                &&& collected.wakers@ == before[token]->Completion_0.waiters
                &&& after[token] is Completion
                &&& after[token]->Completion_0.completed == Some(cqe.result)
                &&& after[token]->Completion_0.aux == before[token]->Completion_0.aux
                &&& after[token]->Completion_0.waiters.len() == 0
                &&& !after[token]->Completion_0.inflight
            }
            &&& request ==> {
                &&& before[token]->Poll_0.waiter matches Some(waker) ==> collected.wakers@
                    == seq![waker]
                &&& before[token]->Poll_0.waiter is None ==> collected.wakers@.len() == 0
                &&& after[token] is Poll
                &&& after[token]->Poll_0.waiter is None
                &&& !after[token]->Poll_0.poll_armed
                &&& after[token]->Poll_0.fd == before[token]->Poll_0.fd
                &&& after[token]->Poll_0.poll_mask == before[token]->Poll_0.poll_mask
            }
            &&& !operation && !request ==> collected.wakers@.len() == 0 && after == before
        }),
{
    let token = (cqe.key / 2) as usize;
    let start = Pass::start(old(driver).registrations());
    assert(cqes@.drop_last() =~= Seq::<Cqe>::empty());
    assert(cqes@.last() == cqe);
    reveal_with_fuel(Pass::steps, 2);
    assert(start.steps(cqes@) == start.step(cqe));
    assert(final(driver).registrations().dom() =~= old(driver).registrations().dom());
    assert(final(driver).registrations().remove(token) =~= old(driver).registrations().remove(
        token,
    ));
}

/// A pass does with its registrations what a fresh pass does, adds to the wakers that it has, and
/// forgets none of its flags.
proof fn lemma_steps_from(pass: Pass, cqes: Seq<Cqe>)
    ensures
        ({
            let fresh = Pass::start(pass.registrations).steps(cqes);
            let after = pass.steps(cqes);
            &&& after.registrations == fresh.registrations
            &&& after.woken == pass.woken + fresh.woken
            &&& after.waiter_woken == (pass.waiter_woken || fresh.waiter_woken)
            &&& after.interrupt == (pass.interrupt || fresh.interrupt)
            &&& after.timeout == (pass.timeout || fresh.timeout)
        }),
    decreases cqes.len(),
{
    if cqes.len() > 0 {
        lemma_steps_from(pass, cqes.drop_last());
        let fresh = Pass::start(pass.registrations);
        assert(pass.steps(cqes).woken =~= pass.woken + fresh.steps(cqes).woken);
    } else {
        assert(pass.woken + Seq::<u64>::empty() =~= pass.woken);
    }
}

/// Working off a queue is working off its beginning, and then the rest.
proof fn lemma_steps_add_up(pass: Pass, first: Seq<Cqe>, second: Seq<Cqe>)
    ensures
        pass.steps(first + second) == pass.steps(first).steps(second),
    decreases second.len(),
{
    if second.len() > 0 {
        lemma_steps_add_up(pass, first, second.drop_last());
        assert((first + second).drop_last() =~= first + second.drop_last());
        assert((first + second).last() == second.last());
    } else {
        assert(first + second =~= first);
    }
}

/// It does not matter how the entries are divided over passes: one pass over all of them leaves the
/// same handles, wakes the same wakers in the same order, and finds the same reasons to end a wait
/// as two passes, one over the first entries and one over the rest.
pub proof fn law_passes_add_up(
    whole: &mut UringDriver,
    all: Vec<Cqe>,
    collected: Collected,
    one: &mut UringDriver,
    first: Vec<Cqe>,
    early: Collected,
    two: &mut UringDriver,
    second: Vec<Cqe>,
    late: Collected,
)
    requires
        old(whole).registrations() == old(one).registrations(),
        old(two).registrations() == final(one).registrations(),
        all@ == first@ + second@,
        call_ensures(UringDriver::collect_completions, (whole, &all), collected),
        call_ensures(UringDriver::collect_completions, (one, &first), early),
        call_ensures(UringDriver::collect_completions, (two, &second), late),
    ensures
        final(whole).registrations() == final(two).registrations(),
        collected.wakers@ == early.wakers@ + late.wakers@,
        collected.woke_any == (early.woke_any || late.woke_any),
        collected.interrupted == (early.interrupted || late.interrupted),
{
    let start = Pass::start(old(whole).registrations());
    lemma_steps_add_up(start, first@, second@);
    lemma_steps_from(start.steps(first@), second@);
}

/// A readiness-based operation may be tried just on a handle in poll mode.
pub proof fn law_poll_mode_is_checked(
    driver: UringDriver,
    token: usize,
    checked: Result<(), IoError>,
)
    requires
        driver.wf(),
        call_ensures(UringDriver::check_poll, (&driver, token), checked),
    ensures
        checked is Ok <==> driver.registrations().contains_key(token)
            && driver.registrations()[token] is Poll,
        checked == Err::<(), IoError>(IoError::NotRegistered(token))
            <==> !driver.registrations().contains_key(token),
        checked == Err::<(), IoError>(IoError::RegisteredForCompletion(token))
            <==> driver.registrations().contains_key(token)
            && driver.registrations()[token] is Completion,
{
}

/// An operation that was tried on a handle in poll mode is over unless it would block. One that
/// would block makes its waker wait for what it needs, and has a request armed unless one is under
/// way. On any other handle it is refused, and nothing changes.
pub proof fn law_blocked_operation_waits<T>(
    driver: &mut UringDriver,
    token: usize,
    interest: Interest,
    waker: u64,
    executed: Result<T, IoError>,
    submit: PollSubmit<T>,
)
    requires
        old(driver).wf(),
        call_ensures(
            UringDriver::submit::<T>,
            (driver, token, interest, waker, executed),
            submit,
        ),
    ensures
        ({
            let before = old(driver).registrations();
            let after = final(driver).registrations();
            let polled = before.contains_key(token) && before[token] is Poll;
            let blocks = executed matches Err(err) && (err == IoError::Os(11) || err
                == IoError::Windows(10035) || err == IoError::CompletionPending);
            &&& after.dom() == before.dom()
            &&& after.remove(token) == before.remove(token)
            &&& !before.contains_key(token) ==> submit == PollSubmit::<T>::Finished(
                Err(IoError::NotRegistered(token)),
            )
            &&& before.contains_key(token) && !polled ==> submit == PollSubmit::<T>::Finished(
                Err(IoError::RegisteredForCompletion(token)),
            )
            &&& polled && !blocks ==> submit == PollSubmit::<T>::Finished(executed)
            &&& !polled || !blocks ==> after == before
            &&& polled && blocks ==> {
                &&& after[token] is Poll
                &&& after[token]->Poll_0.waiter == Some(waker)
                &&& after[token]->Poll_0.poll_armed
                &&& after[token]->Poll_0.poll_mask == interest.poll_mask()
                &&& after[token]->Poll_0.fd == before[token]->Poll_0.fd
                &&& before[token]->Poll_0.poll_armed ==> submit == PollSubmit::<T>::Finished(
                    executed,
                )
                &&& !before[token]->Poll_0.poll_armed ==> submit == PollSubmit::<T>::Arm {
                    key: (2 * token) as u64,
                    fd: before[token]->Poll_0.fd,
                    poll_mask: interest.poll_mask(),
                    blocked: executed->Err_0,
                }
            }
        }),
{
    assert(final(driver).registrations().dom() =~= old(driver).registrations().dom());
    assert(final(driver).registrations().remove(token) =~= old(driver).registrations().remove(
        token,
    ));
}

/// The readiness that a poll request asks for, in numbers.
pub proof fn law_interest_has_its_number(interest: Interest)
    ensures
        interest.poll_mask() == (if interest.readable {
            1int
        } else {
            0
        }) + (if interest.writable {
            4int
        } else {
            0
        }),
{
}

/// A poll request that was pushed leaves the operation waiting, and reports that it would block.
/// One that could not be pushed reports why, and leaves nobody waiting on the handle. Other
/// handles, and what else is known of the handle, stay as they are.
pub proof fn law_failed_request_is_taken_back(
    driver: &mut UringDriver,
    token: usize,
    pushed: Result<(), IoError>,
    blocked: IoError,
    report: IoError,
)
    requires
        call_ensures(UringDriver::finish_arm, (driver, token, pushed, blocked), report),
    ensures
        pushed is Ok
            ==> report == blocked && final(driver).registrations() == old(driver).registrations(),
        pushed matches Err(err) ==> report == err,
        final(driver).registrations().dom() == old(driver).registrations().dom(),
        final(driver).registrations().remove(token) == old(driver).registrations().remove(token),
        old(driver).registrations().contains_key(token) && pushed is Err ==> {
            let before = old(driver).registrations()[token];
            let after = final(driver).registrations()[token];
            if before is Poll {
                &&& after is Poll
                &&& after->Poll_0.waiter is None
                &&& !after->Poll_0.poll_armed
                &&& after->Poll_0.fd == before->Poll_0.fd
                &&& after->Poll_0.poll_mask == before->Poll_0.poll_mask
            } else {
                after == before
            }
        },
{
    assert(final(driver).registrations().dom() =~= old(driver).registrations().dom());
    assert(final(driver).registrations().remove(token) =~= old(driver).registrations().remove(
        token,
    ));
}

/// A blocked operation is not forgotten: whether it armed a request or found one under way, the
/// pass that finds the request's entry wakes its waker, and the next operation arms anew.
pub proof fn law_blocked_operation_wakes_its_waker<T>(
    blocking: &mut UringDriver,
    token: usize,
    interest: Interest,
    waker: u64,
    err: IoError,
    submit: PollSubmit<T>,
    collecting: &mut UringDriver,
    cqes: Vec<Cqe>,
    at: int,
    collected: Collected,
)
    requires
        old(blocking).wf(),
        old(blocking).registrations().contains_key(token),
        old(blocking).registrations()[token] is Poll,
        err == IoError::Os(11),
        call_ensures(
            UringDriver::submit::<T>,
            (blocking, token, interest, waker, Err(err)),
            submit,
        ),
        *old(collecting) == *final(blocking),
        0 <= at < cqes@.len(),
        cqes@[at].key == 2 * token,
        call_ensures(UringDriver::collect_completions, (collecting, &cqes), collected),
    ensures
        collected.wakers@.contains(waker),
        final(collecting).registrations().contains_key(token),
        final(collecting).registrations()[token] is Poll,
        final(collecting).registrations()[token]->Poll_0.waiter is None,
        !final(collecting).registrations()[token]->Poll_0.poll_armed,
{
    uring_laws::law_blocked_operation_is_woken(
        old(blocking).registrations(),
        token,
        interest,
        waker,
        cqes@,
        at,
    );
}

/// The ring offers completions.
pub proof fn law_completions_are_offered(driver: UringDriver, supported: bool)
    requires
        call_ensures(UringDriver::supports_completion, (&driver,), supported),
    ensures
        supported,
{
}

/// A pass over an empty queue does nothing.
pub proof fn law_empty_queue_does_nothing(
    driver: &mut UringDriver,
    cqes: Vec<Cqe>,
    collected: Collected,
)
    requires
        cqes@.len() == 0,
        call_ensures(UringDriver::collect_completions, (driver, &cqes), collected),
    ensures
        final(driver).registrations() == old(driver).registrations(),
        collected.wakers@.len() == 0,
        !collected.woke_any,
        !collected.interrupted,
{
}

/// How a wait can be given its timeout never changes.
pub proof fn law_timeouts_stay_as_they_were(
    driver: &mut UringDriver,
    token: usize,
    fd: i32,
    interest: Interest,
    mode: RegistrationMode,
    waker: u64,
    start: CompletionStart,
    pushed: Result<Option<u64>, IoError>,
    armed: Result<(), IoError>,
    blocked: IoError,
    report: IoError,
    cqes: Vec<Cqe>,
    collected: Collected,
    outcome: Result<(), IoError>,
)
    ensures
        call_ensures(UringDriver::register_handle_with_mode, (driver, fd, interest, mode), token)
            ==> final(driver).ext_arg() == old(driver).ext_arg(),
        call_ensures(UringDriver::start_completion, (driver, token, waker), start)
            ==> final(driver).ext_arg() == old(driver).ext_arg(),
        call_ensures(UringDriver::finish_completion, (driver, token, pushed), report)
            ==> final(driver).ext_arg() == old(driver).ext_arg(),
        call_ensures(UringDriver::finish_arm, (driver, token, armed, blocked), report)
            ==> final(driver).ext_arg() == old(driver).ext_arg(),
        call_ensures(UringDriver::collect_completions, (driver, &cqes), collected)
            ==> final(driver).ext_arg() == old(driver).ext_arg(),
        call_ensures(UringDriver::reregister_handle, (driver, token, interest), outcome)
            ==> final(driver).ext_arg() == old(driver).ext_arg(),
        call_ensures(UringDriver::deregister_handle, (driver, token), outcome)
            ==> final(driver).ext_arg() == old(driver).ext_arg(),
{
}

} // verus!
