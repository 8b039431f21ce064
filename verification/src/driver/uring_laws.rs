//! What holds of the completion ring driver as a whole.

use crate::driver::uring::{self, CompletionStart, Cqe, Pass, INTERRUPT_KEY, TIMEOUT_KEY};
use crate::driver::{Interest, RegistrationMode};
use crate::error::IoError;
use crate::slots::{CompletionState, SlotState};
use vstd::prelude::*;

verus! {

/// The keys of a registered handle give back its token and their kind, and neither is one of the
/// keys that the driver keeps for itself.
pub proof fn law_keys_round_trip(token: usize)
    requires
        token < isize::MAX,
    ensures
        uring::key_token(uring::completion_key(token)) == token,
        uring::key_token(uring::poll_key(token)) == token,
        !uring::is_poll_key(uring::completion_key(token)),
        uring::is_poll_key(uring::poll_key(token)),
        uring::completion_key(token) < TIMEOUT_KEY < INTERRUPT_KEY,
        uring::poll_key(token) < TIMEOUT_KEY,
{
}

/// Two handles never share a key, whatever the kinds of the keys.
pub proof fn law_keys_distinct(one: usize, other: usize)
    requires
        one < isize::MAX,
        other < isize::MAX,
    ensures
        uring::completion_key(one) != uring::poll_key(other),
        one != other ==> uring::completion_key(one) != uring::completion_key(other),
        one != other ==> uring::poll_key(one) != uring::poll_key(other),
{
}

/// A pass over the completion queue neither adds nor removes a handle, nor changes its mode.
pub proof fn law_pass_keeps_handles(pass: Pass, cqes: Seq<Cqe>)
    ensures
        pass.steps(cqes).registrations.dom() == pass.registrations.dom(),
        forall|token: usize| #[trigger]
            pass.registrations.contains_key(token) ==> (
            pass.steps(cqes).registrations[token] is Poll
                <==> pass.registrations[token] is Poll) && (
            pass.steps(cqes).registrations[token] is Completion
                <==> pass.registrations[token] is Completion),
    decreases cqes.len(),
{
    if cqes.len() > 0 {
        law_pass_keeps_handles(pass, cqes.drop_last());
        let before = pass.steps(cqes.drop_last());
        assert(before.step(cqes.last()).registrations.dom() =~= before.registrations.dom());
        assert forall|token: usize| #[trigger]
            pass.registrations.contains_key(token) implies (
        pass.steps(cqes).registrations[token] is Poll <==> pass.registrations[token] is Poll) && (
        pass.steps(cqes).registrations[token] is Completion
            <==> pass.registrations[token] is Completion) by {
            assert(before.registrations.contains_key(token));
        }
    }
}

/// A pass leaves a handle alone when no entry of the queue is the handle's.
pub proof fn law_pass_leaves_others(pass: Pass, cqes: Seq<Cqe>, token: usize)
    requires
        forall|i: int|
            0 <= i < cqes.len() ==> uring::key_token((#[trigger] cqes[i]).key)
                != token || cqes[i].key >= TIMEOUT_KEY,
    ensures
        pass.steps(cqes).registrations.contains_key(token) == pass.registrations.contains_key(
            token,
        ),
        pass.registrations.contains_key(token) ==> pass.steps(cqes).registrations[token]
            == pass.registrations[token],
    decreases cqes.len(),
{
    if cqes.len() > 0 {
        assert forall|i: int| 0 <= i < cqes.drop_last().len() implies
            uring::key_token((#[trigger] cqes.drop_last()[i]).key) != token
            || cqes.drop_last()[i].key >= TIMEOUT_KEY by {
            assert(cqes.drop_last()[i] == cqes[i]);
        }
        law_pass_leaves_others(pass, cqes.drop_last(), token);
        assert(cqes.last() == cqes[cqes.len() - 1]);
    }
}

/// Nobody who waits for an operation is forgotten: once the operation's entry was in the queue,
/// everyone who waited is woken, nobody waits any more, the handle is free, and a result is there.
pub proof fn law_waiters_are_woken(pass: Pass, cqes: Seq<Cqe>, token: usize, at: int)
    requires
        token < isize::MAX,
        pass.registrations.contains_key(token),
        pass.registrations[token] is Completion,
        0 <= at < cqes.len(),
        cqes[at].key == uring::completion_key(token),
    ensures
        forall|i: int|
            0 <= i < pass.registrations[token]->Completion_0.waiters.len()
                ==> pass.steps(cqes).woken.contains(
                #[trigger] pass.registrations[token]->Completion_0.waiters[i],
            ),
        pass.steps(cqes).registrations[token] is Completion,
        pass.steps(cqes).registrations[token]->Completion_0.waiters.len() == 0,
        !pass.steps(cqes).registrations[token]->Completion_0.inflight,
        pass.steps(cqes).registrations[token]->Completion_0.completed is Some,
        pass.registrations[token]->Completion_0.waiters.len() > 0 ==> pass.steps(
            cqes,
        ).waiter_woken,
    decreases cqes.len(),
{
    law_keys_round_trip(token);
    law_pass_keeps_handles(pass, cqes.drop_last());
    let before = pass.steps(cqes.drop_last());
    let waiters = pass.registrations[token]->Completion_0.waiters;
    assert(before.registrations.contains_key(token));
    if at == cqes.len() - 1 {
        lemma_waiting_or_woken(pass, cqes.drop_last(), token);
        let now = before.registrations[token]->Completion_0.waiters;
        assert forall|i: int| 0 <= i < waiters.len() implies pass.steps(cqes).woken.contains(
            #[trigger] waiters[i],
        ) by {
            if before.woken.contains(waiters[i]) {
                let j = choose|j: int|
                    0 <= j < before.woken.len() && before.woken[j] == waiters[i];
                assert(pass.steps(cqes).woken[j] == waiters[i]);
            } else {
                assert(now.contains(waiters[i]));
                let j = choose|j: int| 0 <= j < now.len() && now[j] == waiters[i];
                assert(pass.steps(cqes).woken[before.woken.len() + j] == waiters[i]);
            }
        }
    } else {
        assert(cqes.drop_last()[at] == cqes[at]);
        law_waiters_are_woken(pass, cqes.drop_last(), token, at);
        assert forall|i: int| 0 <= i < waiters.len() implies pass.steps(cqes).woken.contains(
            #[trigger] waiters[i],
        ) by {
            let j = choose|j: int| 0 <= j < before.woken.len() && before.woken[j] == waiters[i];
            assert(pass.steps(cqes).woken[j] == waiters[i]);
        }
    }
}

/// Whoever waited for an operation before a pass has been woken by it or waits still.
proof fn lemma_waiting_or_woken(pass: Pass, cqes: Seq<Cqe>, token: usize)
    requires
        pass.registrations.contains_key(token),
        pass.registrations[token] is Completion,
    ensures
        pass.steps(cqes).registrations.contains_key(token),
        pass.steps(cqes).registrations[token] is Completion,
        forall|i: int|
            0 <= i < pass.registrations[token]->Completion_0.waiters.len()
                ==> pass.steps(cqes).woken.contains(
                #[trigger] pass.registrations[token]->Completion_0.waiters[i],
            ) || pass.steps(cqes).registrations[token]->Completion_0.waiters.contains(
                pass.registrations[token]->Completion_0.waiters[i],
            ),
        pass.steps(cqes).registrations[token]->Completion_0.waiters.len() > 0 || pass.steps(
            cqes,
        ).waiter_woken || pass.registrations[token]->Completion_0.waiters.len() == 0,
    decreases cqes.len(),
{
    if cqes.len() > 0 {
        lemma_waiting_or_woken(pass, cqes.drop_last(), token);
        let before = pass.steps(cqes.drop_last());
        let after = pass.steps(cqes);
        let waiters = pass.registrations[token]->Completion_0.waiters;
        let now = before.registrations[token]->Completion_0.waiters;
        assert forall|i: int| 0 <= i < waiters.len() implies after.woken.contains(
            #[trigger] waiters[i],
        ) || after.registrations[token]->Completion_0.waiters.contains(waiters[i]) by {
            if before.woken.contains(waiters[i]) {
                let j = choose|j: int|
                    0 <= j < before.woken.len() && before.woken[j] == waiters[i];
                assert(after.woken[j] == waiters[i]);
            } else {
                let j = choose|j: int| 0 <= j < now.len() && now[j] == waiters[i];
                if after.registrations[token] != before.registrations[token] {
                    assert(after.woken[before.woken.len() + j] == waiters[i]);
                }
            }
        }
    }
}

/// The result of an operation is handed out once: the start after its completion takes the result
/// with what was kept for it, and the start after that submits anew.
pub proof fn law_result_taken_once(
    registrations: Map<usize, SlotState>,
    token: usize,
    result: i32,
    first: u64,
    second: u64,
)
    requires
        token < isize::MAX,
        registrations.contains_key(token),
        registrations[token] is Completion,
    ensures
        ({
            let cqe = Cqe { key: uring::completion_key(token), result };
            let collected = Pass::start(registrations).steps(seq![cqe]).registrations;
            let (taken, start) = uring::start_completion(collected, token, first);
            let (_, again) = uring::start_completion(taken, token, second);
            &&& start == CompletionStart::Done {
                result,
                aux: registrations[token]->Completion_0.aux,
            }
            &&& again == CompletionStart::Submit {
                key: uring::completion_key(token),
            }
        }),
{
    law_keys_round_trip(token);
    let cqe = Cqe { key: uring::completion_key(token), result };
    assert(seq![cqe].drop_last() =~= Seq::<Cqe>::empty());
    assert(seq![cqe].last() == cqe);
    reveal_with_fuel(Pass::steps, 2);
}

/// A submission that fails leaves an idle handle as if it had never been tried.
pub proof fn law_failed_submission_undone(
    registrations: Map<usize, SlotState>,
    token: usize,
    waker: u64,
    err: IoError,
)
    requires
        registrations.contains_key(token),
        registrations[token] == SlotState::Completion(CompletionState::idle()),
    ensures
        ({
            let (started, start) = uring::start_completion(
                registrations,
                token,
                waker,
            );
            &&& start == CompletionStart::Submit {
                key: uring::completion_key(token),
            }
            &&& uring::finish_completion(started, token, Err(err)) == registrations
        }),
{
    let (started, _) = uring::start_completion(registrations, token, waker);
    assert(uring::finish_completion(started, token, Err(err)) =~= registrations);
}

/// A registered handle takes operations of one mode, the one it was registered for.
pub proof fn law_one_mode_per_handle(
    registrations: Map<usize, SlotState>,
    token: usize,
    fd: i32,
    interest: Interest,
    mode: RegistrationMode,
    waker: u64,
)
    ensures
        ({
            let registered = registrations.insert(
                token,
                uring::fresh_registration(fd, interest, mode),
            );
            let start = uring::start_completion(registered, token, waker).1;
            &&& (mode == RegistrationMode::Completion) == (start is Submit)
            &&& (mode == RegistrationMode::Poll) == (start == CompletionStart::Refused(
                IoError::RegisteredForPoll(token),
            ))
            &&& (mode == RegistrationMode::Completion) == (uring::poll_refusal(
                registered,
                token,
            ) == Some(IoError::RegisteredForCompletion(token)))
            &&& (mode == RegistrationMode::Poll) == (uring::poll_refusal(
                registered,
                token,
            ) is None)
        }),
{
}

/// Whoever waited for a handle to become ready before a pass has been woken by it or waits still.
proof fn lemma_blocked_or_woken(pass: Pass, cqes: Seq<Cqe>, token: usize, waker: u64)
    requires
        pass.registrations.contains_key(token),
        pass.registrations[token] is Poll,
        pass.registrations[token]->Poll_0.waiter == Some(waker),
    ensures
        pass.steps(cqes).registrations.contains_key(token),
        pass.steps(cqes).registrations[token] is Poll,
        pass.steps(cqes).registrations[token]->Poll_0.waiter == Some(waker) || pass.steps(
            cqes,
        ).woken.contains(waker),
    decreases cqes.len(),
{
    if cqes.len() > 0 {
        lemma_blocked_or_woken(pass, cqes.drop_last(), token, waker);
        let before = pass.steps(cqes.drop_last());
        let after = pass.steps(cqes);
        if before.woken.contains(waker) {
            let i = choose|i: int| 0 <= i < before.woken.len() && before.woken[i] == waker;
            assert(after.woken[i] == waker);
        } else if after.registrations[token] != before.registrations[token] {
            assert(after.woken[before.woken.len() as int] == waker);
        }
    }
}

/// An operation that would block is not forgotten: a pass in which the poll request that it armed
/// completes wakes its waker, and the next operation arms a new request.
pub proof fn law_blocked_operation_is_woken(
    registrations: Map<usize, SlotState>,
    token: usize,
    interest: Interest,
    waker: u64,
    cqes: Seq<Cqe>,
    at: int,
)
    requires
        token < isize::MAX,
        uring::poll_refusal(registrations, token) is None,
        0 <= at < cqes.len(),
        cqes[at].key == uring::poll_key(token),
    ensures
        ({
            let blocked = uring::block_poll(registrations, token, interest, waker);
            let pass = Pass::start(blocked).steps(cqes);
            &&& pass.woken.contains(waker)
            &&& pass.registrations.contains_key(token)
            &&& pass.registrations[token] is Poll
            &&& !pass.registrations[token]->Poll_0.poll_armed
            &&& pass.registrations[token]->Poll_0.waiter is None
        }),
    decreases cqes.len(),
{
    law_keys_round_trip(token);
    let start = Pass::start(uring::block_poll(registrations, token, interest, waker));
    let before = start.steps(cqes.drop_last());
    let after = start.steps(cqes);
    if at < cqes.len() - 1 {
        assert(cqes.drop_last()[at] == cqes[at]);
        law_blocked_operation_is_woken(
            registrations,
            token,
            interest,
            waker,
            cqes.drop_last(),
            at,
        );
    } else {
        lemma_blocked_or_woken(start, cqes.drop_last(), token, waker);
    }
    if before.woken.contains(waker) {
        let i = choose|i: int| 0 <= i < before.woken.len() && before.woken[i] == waker;
        assert(after.woken[i] == waker);
    } else {
        assert(after.woken[before.woken.len() as int] == waker);
    }
}

} // verus!
