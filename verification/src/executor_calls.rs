//! What the calls of the scheduler answer, and how one call bears on the next.

use crate::executor::{self, after_spin, Round, RuntimeInner, Schedule, TaskRef};
use crate::executor_laws;
use vstd::prelude::*;

verus! {

/// A new scheduler has no tasks, nothing to run, and does not wait.
pub proof fn law_new_scheduler_is_idle(inner: RuntimeInner)
    requires
        call_ensures(RuntimeInner::new, (), inner),
    ensures
        inner.wf(),
        forall|token: usize| !(#[trigger] inner@.tasks.contains_key(token)),
        forall|id: u64| !(#[trigger] inner@.queued.contains(id)),
        inner@.next_task is None,
        inner@.ready.len() == 0,
        inner@.remote.len() == 0,
        !inner@.waiting,
        inner@.next_id == 0,
{
}

/// A task can be spawned as long as there is a number for it.
pub proof fn law_tasks_can_be_spawned_while_numbers_last(inner: RuntimeInner, possible: bool)
    requires
        call_ensures(RuntimeInner::can_spawn, (&inner,), possible),
    ensures
        possible <==> inner@.next_id < u64::MAX,
{
}

/// A spawned task is alive under a token that was free and has a number that no task had before. It
/// counts as queued, and is ready after all others. Nothing else changes.
pub proof fn law_spawned_task_is_ready_last(inner: &mut RuntimeInner, task: TaskRef)
    requires
        old(inner)@.next_id < u64::MAX,
        call_ensures(RuntimeInner::spawn, (inner,), task),
    ensures
        !old(inner)@.tasks.contains_key(task.token),
        final(inner)@.tasks.contains_key(task.token),
        final(inner)@.tasks[task.token] == task.id,
        final(inner)@.tasks.remove(task.token) == old(inner)@.tasks,
        task.id == old(inner)@.next_id,
        final(inner)@.next_id == old(inner)@.next_id + 1,
        final(inner)@.ready.len() == old(inner)@.ready.len() + 1,
        final(inner)@.ready.drop_last() == old(inner)@.ready,
        final(inner)@.ready.last() == task,
        forall|id: u64| #[trigger]
            final(inner)@.queued.contains(id) <==> old(inner)@.queued.contains(id) || id
                == task.id,
        final(inner)@.next_task == old(inner)@.next_task,
        final(inner)@.remote == old(inner)@.remote,
        final(inner)@.waiting == old(inner)@.waiting,
{
    assert(final(inner)@.tasks.remove(task.token) =~= old(inner)@.tasks);
    assert(final(inner)@.ready.drop_last() =~= old(inner)@.ready);
}

/// Two tasks never have the same number, whatever happens between their spawning.
pub proof fn law_numbers_are_never_used_twice(
    earlier: &mut RuntimeInner,
    first: TaskRef,
    later: &mut RuntimeInner,
    second: TaskRef,
)
    requires
        old(earlier)@.next_id < u64::MAX,
        call_ensures(RuntimeInner::spawn, (earlier,), first),
        old(later)@.next_id >= final(earlier)@.next_id,
        call_ensures(RuntimeInner::spawn, (later,), second),
    ensures
        first.id < second.id,
{
}

/// A wake queues a task that does not count as queued, in one place, and otherwise changes nothing.
/// From the runtime's own thread the task becomes the next, or the last that is ready if there is
/// a next already; from another thread its token comes last of those on their way.
pub proof fn law_wake_queues_task_once(
    inner: &mut RuntimeInner,
    task: TaskRef,
    same_thread: bool,
    interrupt: bool,
)
    requires
        call_ensures(RuntimeInner::enqueue_if_needed, (inner, task, same_thread), interrupt),
    ensures
        ({
            let before = old(inner)@;
            let after = final(inner)@;
            let queued = before.queued.contains(task.id);
            &&& after.tasks == before.tasks
            &&& after.next_id == before.next_id
            &&& after.waiting == before.waiting
            &&& forall|id: u64| #[trigger]
                after.queued.contains(id) <==> before.queued.contains(id) || id == task.id
            &&& queued ==> after.next_task == before.next_task && after.ready == before.ready
                && after.remote == before.remote
            &&& !queued && !same_thread ==> {
                &&& after.next_task == before.next_task
                &&& after.ready == before.ready
                &&& after.remote.len() == before.remote.len() + 1
                &&& after.remote.drop_last() == before.remote
                &&& after.remote.last() == task.token
            }
            &&& !queued && same_thread && before.next_task is None ==> {
                &&& after.next_task == Some(task)
                &&& after.ready == before.ready
                &&& after.remote == before.remote
            }
            &&& !queued && same_thread && before.next_task is Some ==> {
                &&& after.next_task == before.next_task
                &&& after.ready.len() == before.ready.len() + 1
                &&& after.ready.drop_last() == before.ready
                &&& after.ready.last() == task
                &&& after.remote == before.remote
            }
        }),
{
    if !old(inner)@.queued.contains(task.id) {
        assert(!same_thread ==> final(inner)@.remote.drop_last() =~= old(inner)@.remote);
        assert(same_thread && old(inner)@.next_task is Some ==> final(inner)@.ready.drop_last()
            =~= old(inner)@.ready);
    }
}

/// A wake asks for an interrupt just if it comes from another thread while the driver waits, also
/// when the task counts as queued already.
pub proof fn law_wake_interrupts_a_wait(
    inner: &mut RuntimeInner,
    task: TaskRef,
    same_thread: bool,
    interrupt: bool,
    waiting: bool,
)
    requires
        call_ensures(RuntimeInner::is_waiting, (&*old(inner),), waiting),
        call_ensures(RuntimeInner::enqueue_if_needed, (inner, task, same_thread), interrupt),
    ensures
        interrupt <==> !same_thread && waiting,
{
}

/// The wakes of other threads come before the ready tasks.
proof fn lemma_woken_elsewhere_come_first(
    tasks: Map<usize, u64>,
    remote: Seq<usize>,
    ready: Seq<TaskRef>,
)
    ensures
        executor::with_remote(tasks, remote, ready) == remote.filter(
            |token: usize| tasks.contains_key(token),
        ).reverse().map_values(|token: usize| TaskRef { id: tasks[token], token }) + ready,
    decreases remote.len(),
{
    reveal(Seq::filter);
    let live = |token: usize| tasks.contains_key(token);
    let task = |token: usize| TaskRef { id: tasks[token], token };
    let front = remote.filter(live).reverse().map_values(task);
    if remote.len() > 0 {
        let shorter = remote.drop_last();
        lemma_woken_elsewhere_come_first(tasks, shorter, ready);
        let rest = shorter.filter(live).reverse().map_values(task);
        if live(remote.last()) {
            assert(remote.filter(live) == shorter.filter(live).push(remote.last()));
            assert(front =~= seq![task(remote.last())] + rest);
            assert(front + ready =~= seq![task(remote.last())] + (rest + ready));
        }
    } else {
        assert(front + ready =~= ready);
    }
}

/// Draining first puts the tasks that other threads woke in front of the ready ones, the latest
/// first, and then takes up to 256 tasks from the front. What it takes no longer counts as queued,
/// what is left stays ready in its order, and no token is on its way any more. Nothing else
/// changes.
pub proof fn law_draining_takes_from_the_front(
    inner: &mut RuntimeInner,
    batch: &mut Vec<TaskRef>,
)
    requires
        call_ensures(RuntimeInner::drain_ready, (inner, batch), ()),
    ensures
        ({
            let before = old(inner)@;
            let after = final(inner)@;
            let taken = final(batch)@.skip(old(batch)@.len() as int);
            let all = before.remote.filter(
                |token: usize| before.tasks.contains_key(token),
            ).reverse().map_values(
                |token: usize| TaskRef { id: before.tasks[token], token },
            ) + before.ready;
            &&& final(batch)@ == old(batch)@ + taken
            &&& taken + after.ready == all
            &&& taken.len() <= 256
            &&& taken.len() < 256 ==> after.ready.len() == 0
            &&& after.remote.len() == 0
            &&& forall|id: u64| #[trigger]
                after.queued.contains(id) <==> before.queued.contains(id) && (forall|i: int|
                    0 <= i < taken.len() ==> (#[trigger] taken[i]).id != id)
            &&& after.tasks == before.tasks
            &&& after.next_task == before.next_task
            &&& after.waiting == before.waiting
            &&& after.next_id == before.next_id
        }),
{
    let before = old(inner)@;
    let after = final(inner)@;
    let taken = before.drained_batch();
    lemma_woken_elsewhere_come_first(before.tasks, before.remote, before.ready);
    assert(final(batch)@.skip(old(batch)@.len() as int) =~= taken);
    assert(taken + after.ready =~= before.all_ready());
    assert forall|id: u64| #[trigger]
        after.queued.contains(id) <==> before.queued.contains(id) && (forall|i: int|
            0 <= i < taken.len() ==> (#[trigger] taken[i]).id != id) by {
        lemma_taken_ids(taken, id);
    }
}

/// A number is that of one of the tasks just if one of them has it.
proof fn lemma_taken_ids(taken: Seq<TaskRef>, id: u64)
    ensures
        executor::ids(taken).contains(id) <==> !(forall|i: int|
            0 <= i < taken.len() ==> (#[trigger] taken[i]).id != id),
{
    if executor::ids(taken).contains(id) {
        let i = choose|i: int| 0 <= i < executor::ids(taken).len() && executor::ids(taken)[i] == id;
        assert(taken[i].id == id);
    }
    if !(forall|i: int| 0 <= i < taken.len() ==> (#[trigger] taken[i]).id != id) {
        let i = choose|i: int| 0 <= i < taken.len() && (#[trigger] taken[i]).id == id;
        assert(executor::ids(taken)[i] == id);
    }
}

/// Taking the next task leaves no next task, and that task no longer counts as queued. Nothing else
/// changes.
pub proof fn law_next_task_is_taken_alone(inner: &mut RuntimeInner, task: Option<TaskRef>)
    requires
        call_ensures(RuntimeInner::take_next_task, (inner,), task),
    ensures
        task == old(inner)@.next_task,
        final(inner)@.next_task is None,
        forall|id: u64| #[trigger]
            final(inner)@.queued.contains(id) <==> old(inner)@.queued.contains(id) && !(
            task matches Some(task) && task.id == id),
        final(inner)@.ready == old(inner)@.ready,
        final(inner)@.remote == old(inner)@.remote,
        final(inner)@.tasks == old(inner)@.tasks,
        final(inner)@.waiting == old(inner)@.waiting,
        final(inner)@.next_id == old(inner)@.next_id,
{
}

/// A round ends the loop just if the main task is done, and then nothing is touched.
pub proof fn law_round_ends_with_the_main_task(
    inner: &mut RuntimeInner,
    batch: &mut Vec<TaskRef>,
    output_ready: bool,
    has_timer: bool,
    round: Round,
)
    requires
        call_ensures(
            RuntimeInner::start_round,
            (inner, batch, output_ready, has_timer),
            round,
        ),
    ensures
        round == Round::Finished <==> output_ready,
        output_ready ==> final(inner)@ == old(inner)@ && final(batch)@ == old(batch)@,
{
}

/// A round runs the next task alone if there is one, and leaves everything else in its place. It
/// neither looks at the timers nor flushes the driver then.
pub proof fn law_round_runs_the_next_task_alone(
    inner: &mut RuntimeInner,
    batch: &mut Vec<TaskRef>,
    has_timer: bool,
    round: Round,
)
    requires
        old(inner)@.next_task is Some,
        call_ensures(RuntimeInner::start_round, (inner, batch, false, has_timer), round),
    ensures
        final(batch)@ == seq![old(inner)@.next_task->0],
        round == (Round::Run { spin_timer: false, flush: false }),
        final(inner)@.next_task is None,
        final(inner)@.ready == old(inner)@.ready,
        final(inner)@.remote == old(inner)@.remote,
        final(inner)@.tasks == old(inner)@.tasks,
        final(inner)@.next_id == old(inner)@.next_id,
        final(inner)@.waiting == old(inner)@.waiting,
        forall|id: u64| #[trigger]
            final(inner)@.queued.contains(id) <==> old(inner)@.queued.contains(id)
                && id != old(inner)@.next_task->0.id,
{
}

/// Without a next task a round runs what draining takes, and flushes the driver afterwards; it looks
/// at the timers first just if there are timers and it runs more than 64 tasks. With nothing to run
/// it waits.
pub proof fn law_round_drains_without_a_next_task(
    inner: &mut RuntimeInner,
    batch: &mut Vec<TaskRef>,
    has_timer: bool,
    round: Round,
    other: &mut RuntimeInner,
    drained: &mut Vec<TaskRef>,
)
    requires
        old(inner)@.next_task is None,
        call_ensures(RuntimeInner::start_round, (inner, batch, false, has_timer), round),
        old(other)@ == old(inner)@,
        old(drained)@.len() == 0,
        call_ensures(RuntimeInner::drain_ready, (other, drained), ()),
    ensures
        final(batch)@ == final(drained)@,
        round is Wait <==> final(batch)@.len() == 0,
        round matches Round::Run { spin_timer, flush } ==> flush && (spin_timer <==> has_timer
            && final(batch)@.len() > 64),
        final(inner)@.next_task is None,
        final(inner)@.ready == final(other)@.ready,
        final(inner)@.remote == final(other)@.remote,
        final(inner)@.tasks == final(other)@.tasks,
        final(inner)@.queued == final(other)@.queued,
        final(inner)@.next_id == final(other)@.next_id,
{
    assert(final(drained)@ =~= old(inner)@.drained_batch());
}

/// A round that waits leaves the driver known as waiting, so that a wake from another thread
/// interrupts it; no other round changes whether it is.
pub proof fn law_round_that_waits_can_be_interrupted(
    inner: &mut RuntimeInner,
    batch: &mut Vec<TaskRef>,
    output_ready: bool,
    has_timer: bool,
    round: Round,
    waiting: bool,
)
    requires
        call_ensures(
            RuntimeInner::start_round,
            (inner, batch, output_ready, has_timer),
            round,
        ),
        call_ensures(RuntimeInner::is_waiting, (&*final(inner),), waiting),
    ensures
        round is Wait ==> waiting,
        !(round is Wait) ==> waiting == old(inner)@.waiting,
{
}

/// A wait goes on until it is ended: no task that is spawned, woken, taken, drained or completed
/// meanwhile ends it, and only the call that ends it does, which changes nothing else. So every
/// wake from another thread in between asks for an interrupt.
pub proof fn law_wait_goes_on_until_it_is_ended(
    inner: &mut RuntimeInner,
    task: TaskRef,
    same_thread: bool,
    interrupt: bool,
    taken: Option<TaskRef>,
    batch: &mut Vec<TaskRef>,
)
    ensures
        call_ensures(RuntimeInner::spawn, (inner,), task)
            ==> final(inner)@.waiting == old(inner)@.waiting,
        call_ensures(RuntimeInner::enqueue_if_needed, (inner, task, same_thread), interrupt)
            ==> final(inner)@.waiting == old(inner)@.waiting,
        call_ensures(RuntimeInner::take_next_task, (inner,), taken) ==> final(inner)@.waiting
            == old(inner)@.waiting,
        call_ensures(RuntimeInner::drain_ready, (inner, batch), ()) ==> final(inner)@.waiting
            == old(inner)@.waiting,
        call_ensures(RuntimeInner::complete, (inner, task), ())
            ==> final(inner)@.waiting == old(inner)@.waiting,
        call_ensures(RuntimeInner::finish_wait, (inner,), ())
            ==> !final(inner)@.waiting
            && final(inner)@ == (Schedule { waiting: final(inner)@.waiting, ..old(inner)@ }),
{
}

/// A wake that finds the driver in a wait is never missed: after a round that waits, a wake of any
/// task from another thread asks for an interrupt, and the next round runs the task first if it is
/// alive and was not queued.
pub proof fn law_wake_during_a_wait_is_not_missed(
    inner: &mut RuntimeInner,
    batch: &mut Vec<TaskRef>,
    has_timer: bool,
    waking: &mut RuntimeInner,
    task: TaskRef,
    interrupt: bool,
    ending: &mut RuntimeInner,
    next: &mut RuntimeInner,
    next_batch: &mut Vec<TaskRef>,
    round: Round,
)
    requires
        call_ensures(RuntimeInner::start_round, (inner, batch, false, has_timer), Round::Wait),
        *old(waking) == *final(inner),
        call_ensures(RuntimeInner::enqueue_if_needed, (waking, task, false), interrupt),
        *old(ending) == *final(waking),
        call_ensures(RuntimeInner::finish_wait, (ending,), ()),
        *old(next) == *final(ending),
        call_ensures(RuntimeInner::start_round, (next, next_batch, false, has_timer), round),
    ensures
        interrupt,
        old(waking)@.tasks.contains_key(task.token) && old(waking)@.tasks[task.token] == task.id
            && !old(waking)@.queued.contains(task.id)
                ==> round is Run && final(next_batch)@.len() > 0 && final(next_batch)@[0] == task,
{
    let before = old(waking)@;
    if before.tasks.contains_key(task.token) && before.tasks[task.token] == task.id
        && !before.queued.contains(task.id) {
        executor_laws::law_remote_wake_runs_first(before, task);
        let after = before.woken_remotely(task);
        let ended = Schedule { waiting: false, ..after };
        assert(ended.all_ready() == after.all_ready());
        assert(old(inner)@.next_task is None);
    }
}

/// Ending a task frees its token, and changes nothing else.
pub proof fn law_ended_task_frees_its_token(inner: &mut RuntimeInner, task: TaskRef)
    requires
        call_ensures(RuntimeInner::complete, (inner, task), ()),
    ensures
        !final(inner)@.tasks.contains_key(task.token),
        forall|token: usize|
            token != task.token
                ==> (#[trigger] final(inner)@.tasks.contains_key(token) <==> old(inner)@.tasks.contains_key(token)),
        forall|token: usize| #[trigger]
            final(inner)@.tasks.contains_key(token)
                ==> final(inner)@.tasks[token] == old(inner)@.tasks[token],
        final(inner)@.queued == old(inner)@.queued,
        final(inner)@.next_task == old(inner)@.next_task,
        final(inner)@.ready == old(inner)@.ready,
        final(inner)@.remote == old(inner)@.remote,
        final(inner)@.waiting == old(inner)@.waiting,
        final(inner)@.next_id == old(inner)@.next_id,
{
}

/// The wait for I/O is left out just if a timer fired, and otherwise ends with the timers' time.
pub proof fn law_fired_timers_leave_no_time_to_wait(
    woken: bool,
    deadline: Option<u64>,
    wait: Option<Option<u64>>,
)
    requires
        call_ensures(after_spin, (woken, deadline), wait),
    ensures
        wait is None <==> woken,
        wait matches Some(limit) ==> limit == deadline,
{
}

} // verus!
