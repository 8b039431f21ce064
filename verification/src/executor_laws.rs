//! What holds of the scheduler as a whole.

use crate::executor::{self, Round, Schedule, TaskRef, BATCH_BUDGET};
use vstd::prelude::*;

verus! {

/// A new scheduler has lost no wake.
pub proof fn law_new_loses_none()
    ensures
        Schedule::empty().none_lost(),
{
}

/// The numbers of the ready tasks after one more was put behind them.
proof fn lemma_pushed(ready: Seq<TaskRef>, task: TaskRef)
    ensures
        executor::ids(ready.push(task)) == executor::ids(ready).push(task.id),
        forall|id: u64| #[trigger]
            executor::ids(ready.push(task)).contains(id) <==> executor::ids(ready).contains(id)
                || id == task.id,
{
    let old_ids = executor::ids(ready);
    assert(executor::ids(ready.push(task)) =~= old_ids.push(task.id));
    assert forall|id: u64| #[trigger]
        executor::ids(ready.push(task)).contains(id) <==> old_ids.contains(id) || id == task.id by {
        if old_ids.contains(id) {
            let i = choose|i: int| 0 <= i < old_ids.len() && old_ids[i] == id;
            assert(old_ids.push(task.id)[i] == id);
        }
        assert(old_ids.push(task.id)[old_ids.len() as int] == task.id);
    }
}

/// Spawning loses no wake, and the new task waits to be run.
pub proof fn law_spawn_loses_none(schedule: Schedule, token: usize)
    requires
        schedule.none_lost(),
        schedule.next_id < u64::MAX,
        !schedule.tasks.contains_key(token),
    ensures
        schedule.spawned(token).none_lost(),
        schedule.spawned(token).waits(token),
        schedule.spawned(token).knows(TaskRef { id: schedule.next_id, token }),
{
    let after = schedule.spawned(token);
    let task = TaskRef { id: schedule.next_id, token };
    lemma_pushed(schedule.ready, task);
    assert forall|other: usize| #[trigger]
        after.tasks.contains_key(other) && after.queued.contains(
            after.tasks[other],
        ) implies after.waits(other) by {
        if other != token {
            assert(schedule.tasks.contains_key(other));
            assert(schedule.waits(other));
        }
    }
}

/// A task that was spawned stays known, whatever happens afterwards.
pub proof fn law_tasks_stay_known(schedule: Schedule, task: TaskRef, other: TaskRef)
    requires
        schedule.knows(task),
    ensures
        schedule.next_id < u64::MAX && !schedule.tasks.contains_key(other.token)
            ==> schedule.spawned(other.token).knows(task),
        schedule.woken(other).knows(task),
        schedule.woken_remotely(other).knows(task),
        schedule.drained().knows(task),
        schedule.next_taken().knows(task),
        schedule.round_taken().knows(task),
        schedule.completed(other.token).knows(task),
{
    assert forall|token: usize| #[trigger]
        schedule.spawned(other.token).tasks.contains_key(token) && schedule.spawned(
            other.token,
        ).tasks[token] == task.id implies token == task.token by {
        if token != other.token {
            assert(schedule.tasks.contains_key(token));
        }
    }
    assert forall|token: usize| #[trigger]
        schedule.completed(other.token).tasks.contains_key(token) && schedule.completed(
            other.token,
        ).tasks[token] == task.id implies token == task.token by {
        assert(schedule.tasks.contains_key(token));
    }
}

/// Waking from the runtime's own thread loses no wake, and the task counts as queued.
pub proof fn law_wake_loses_none(schedule: Schedule, task: TaskRef)
    requires
        schedule.none_lost(),
        schedule.knows(task),
    ensures
        schedule.woken(task).none_lost(),
        schedule.woken(task).queued.contains(task.id),
{
    let after = schedule.woken(task);
    lemma_pushed(schedule.ready, task);
    assert forall|token: usize| #[trigger]
        after.tasks.contains_key(token) && after.queued.contains(
            after.tasks[token],
        ) implies after.waits(token) by {
        assert(schedule.tasks.contains_key(token));
        if schedule.queued.contains(schedule.tasks[token]) {
            assert(schedule.waits(token));
        }
    }
}

/// Waking from another thread loses no wake, and the task counts as queued.
pub proof fn law_remote_wake_loses_none(schedule: Schedule, task: TaskRef)
    requires
        schedule.none_lost(),
        schedule.knows(task),
    ensures
        schedule.woken_remotely(task).none_lost(),
        schedule.woken_remotely(task).queued.contains(task.id),
{
    let after = schedule.woken_remotely(task);
    assert forall|token: usize| #[trigger]
        after.tasks.contains_key(token) && after.queued.contains(
            after.tasks[token],
        ) implies after.waits(token) by {
        assert(schedule.tasks.contains_key(token));
        if schedule.queued.contains(schedule.tasks[token]) {
            assert(schedule.waits(token));
            if schedule.remote.contains(token) && !schedule.queued.contains(task.id) {
                let i = choose|i: int|
                    0 <= i < schedule.remote.len() && schedule.remote[i] == token;
                assert(after.remote[i] == token);
            }
        } else {
            assert(token == task.token);
            assert(after.remote[schedule.remote.len() as int] == token);
        }
    }
}

/// What the ready tasks become when the wakes of other threads are put in front of them: in front
/// stand live tasks whose tokens were handed over, each of these tasks is there, and the ready
/// tasks follow as they were.
proof fn lemma_with_remote(tasks: Map<usize, u64>, remote: Seq<usize>, ready: Seq<TaskRef>)
    ensures
        ({
            let all = executor::with_remote(tasks, remote, ready);
            let front = all.len() - ready.len();
            &&& front >= 0
            &&& all.skip(front) == ready
            &&& forall|i: int|
                0 <= i < front ==> tasks.contains_key((#[trigger] all[i]).token) && all[i].id
                    == tasks[all[i].token] && remote.contains(all[i].token)
            &&& forall|token: usize| #[trigger]
                remote.contains(token) && tasks.contains_key(token) ==> all.take(front).contains(
                    TaskRef { id: tasks[token], token },
                )
        }),
    decreases remote.len(),
{
    let all = executor::with_remote(tasks, remote, ready);
    if remote.len() == 0 {
        assert(all.skip(0) =~= ready);
    } else {
        let shorter = remote.drop_last();
        let last = remote.last();
        let rest = executor::with_remote(tasks, shorter, ready);
        let rest_front = rest.len() - ready.len();
        lemma_with_remote(tasks, shorter, ready);
        let front = all.len() - ready.len();
        let offset = front - rest_front;
        assert(offset == if tasks.contains_key(last) {
            1int
        } else {
            0int
        });
        assert forall|i: int| offset <= i < all.len() implies #[trigger] all[i] == rest[i - offset]
            by {}
        assert(all.skip(front) =~= rest.skip(rest_front));
        assert forall|i: int| 0 <= i < front implies tasks.contains_key((#[trigger] all[i]).token)
            && all[i].id == tasks[all[i].token] && remote.contains(all[i].token) by {
            if i < offset {
                assert(remote[remote.len() - 1] == last);
            } else {
                let token = rest[i - offset].token;
                let j = choose|j: int| 0 <= j < shorter.len() && shorter[j] == token;
                assert(remote[j] == token);
            }
        }
        assert forall|token: usize| #[trigger]
            remote.contains(token) && tasks.contains_key(token) implies all.take(front).contains(
            TaskRef { id: tasks[token], token },
        ) by {
            let task = TaskRef { id: tasks[token], token };
            if token == last {
                assert(all.take(front)[0] == task);
            } else {
                let j = choose|j: int| 0 <= j < remote.len() && remote[j] == token;
                assert(shorter[j] == token);
                assert(shorter.contains(token));
                assert(rest.take(rest_front).contains(task));
                let k = choose|k: int|
                    0 <= k < rest.take(rest_front).len() && rest.take(rest_front)[k] == task;
                assert(all.take(front)[k + offset] == task);
            }
        }
    }
}

/// The tasks that could run are those that are ready, and the live ones whose wake is on its way.
proof fn lemma_all_ready(schedule: Schedule)
    ensures
        forall|i: int|
            0 <= i < schedule.ready.len() ==> executor::ids(schedule.all_ready()).contains(
                (#[trigger] schedule.ready[i]).id,
            ),
        forall|token: usize| #[trigger]
            schedule.remote.contains(token) && schedule.tasks.contains_key(token)
                ==> executor::ids(schedule.all_ready()).contains(schedule.tasks[token]),
{
    lemma_with_remote(schedule.tasks, schedule.remote, schedule.ready);
    let all = schedule.all_ready();
    let all_ids = executor::ids(all);
    let front = all.len() - schedule.ready.len();
    assert forall|i: int| 0 <= i < schedule.ready.len() implies all_ids.contains(
        (#[trigger] schedule.ready[i]).id,
    ) by {
        assert(all.skip(front)[i] == schedule.ready[i]);
        assert(all_ids[i + front] == schedule.ready[i].id);
    }
    assert forall|token: usize| #[trigger]
        schedule.remote.contains(token) && schedule.tasks.contains_key(
            token,
        ) implies all_ids.contains(schedule.tasks[token]) by {
        let task = TaskRef { id: schedule.tasks[token], token };
        let k = choose|k: int| 0 <= k < all.take(front).len() && all.take(front)[k] == task;
        assert(all_ids[k] == schedule.tasks[token]);
    }
}

/// What draining does not take stays ready.
proof fn lemma_drained_split(all: Seq<TaskRef>, len: int, id: u64)
    requires
        0 <= len <= all.len(),
        executor::ids(all).contains(id),
    ensures
        executor::ids(all.take(len)).contains(id) || executor::ids(all.skip(len)).contains(id),
{
    let i = choose|i: int| 0 <= i < executor::ids(all).len() && executor::ids(all)[i] == id;
    if i < len {
        assert(executor::ids(all.take(len))[i] == id);
    } else {
        assert(executor::ids(all.skip(len))[i - len] == id);
    }
}

/// Draining loses no wake: a live task that still counts as queued still waits.
pub proof fn law_drain_loses_none(schedule: Schedule)
    requires
        schedule.none_lost(),
    ensures
        schedule.drained().none_lost(),
{
    let after = schedule.drained();
    let all = schedule.all_ready();
    lemma_all_ready(schedule);
    assert forall|token: usize| #[trigger]
        after.tasks.contains_key(token) && after.queued.contains(
            after.tasks[token],
        ) implies after.waits(token) by {
        let id = schedule.tasks[token];
        assert(schedule.tasks.contains_key(token));
        assert(schedule.waits(token));
        if executor::ids(schedule.ready).contains(id) {
            let i = choose|i: int|
                0 <= i < executor::ids(schedule.ready).len() && executor::ids(schedule.ready)[i]
                    == id;
            assert(schedule.ready[i].id == id);
        }
        if executor::ids(all).contains(id) {
            lemma_drained_split(all, executor::batch_len(all), id);
        }
    }
}

/// Taking the next task loses no wake.
pub proof fn law_take_next_loses_none(schedule: Schedule)
    requires
        schedule.none_lost(),
    ensures
        schedule.next_taken().none_lost(),
{
    let after = schedule.next_taken();
    assert forall|token: usize| #[trigger]
        after.tasks.contains_key(token) && after.queued.contains(
            after.tasks[token],
        ) implies after.waits(token) by {
        assert(schedule.tasks.contains_key(token));
        assert(schedule.waits(token));
    }
}

/// A round loses no wake.
pub proof fn law_round_loses_none(schedule: Schedule)
    requires
        schedule.none_lost(),
    ensures
        schedule.round_taken().none_lost(),
{
    law_take_next_loses_none(schedule);
    law_drain_loses_none(schedule);
    let after = schedule.round_taken();
    assert forall|token: usize| #[trigger]
        after.tasks.contains_key(token) && after.queued.contains(
            after.tasks[token],
        ) implies after.waits(token) by {
        if schedule.next_task is None {
            assert(schedule.drained().tasks.contains_key(token));
            assert(schedule.drained().waits(token));
        }
    }
}

/// Ending a task loses no wake of another.
pub proof fn law_complete_loses_none(schedule: Schedule, token: usize)
    requires
        schedule.none_lost(),
    ensures
        schedule.completed(token).none_lost(),
{
    let after = schedule.completed(token);
    assert forall|other: usize| #[trigger]
        after.tasks.contains_key(other) && after.queued.contains(
            after.tasks[other],
        ) implies after.waits(other) by {
        assert(schedule.tasks.contains_key(other));
        assert(schedule.waits(other));
    }
}

/// Each live task that waits to be run counts as queued, and waits once.
///
/// A token that is on its way counts for whoever stands under it when it is taken, so the order is
/// disturbed where a token reaches another task than the one that was woken: a task is spawned
/// under a token that is still on its way, or a task that has ended is woken from another thread
/// after its token was given away. Draining all that is ready brings the order back.
pub open spec fn orderly(schedule: Schedule) -> bool {
    &&& schedule.none_lost()
    &&& forall|i: int|
        0 <= i < schedule.ready.len() ==> schedule.queued.contains(
            (#[trigger] schedule.ready[i]).id,
        )
    &&& executor::ids(schedule.ready).no_duplicates()
    &&& schedule.next_task matches Some(next) ==> schedule.queued.contains(next.id)
        && !executor::ids(schedule.ready).contains(next.id)
    &&& forall|token: usize| #[trigger]
        schedule.remote.contains(token) && schedule.tasks.contains_key(token) ==> {
            &&& schedule.queued.contains(schedule.tasks[token])
            &&& !executor::ids(schedule.ready).contains(schedule.tasks[token])
            &&& schedule.next_task matches Some(next) ==> next.id != schedule.tasks[token]
        }
    &&& forall|i: int, j: int|
        0 <= i < j < schedule.remote.len() && #[trigger] schedule.remote[i]
            == #[trigger] schedule.remote[j] ==> !schedule.tasks.contains_key(schedule.remote[i])
}

/// Whether a task stands in exactly one of three places, and there once: it is the next, it is
/// ready, or its token is on its way from another thread.
pub open spec fn waits_once(schedule: Schedule, task: TaskRef) -> bool {
    let next = schedule.next_task is Some && schedule.next_task->0.id == task.id;
    let ready = executor::ids(schedule.ready).contains(task.id);
    let remote = schedule.remote.contains(task.token);
    &&& next || ready || remote
    &&& !(next && ready)
    &&& !(next && remote)
    &&& !(ready && remote)
    &&& forall|i: int, j: int|
        0 <= i < schedule.ready.len() && 0 <= j < schedule.ready.len() && (
        #[trigger] schedule.ready[i]).id == task.id && (#[trigger] schedule.ready[j]).id == task.id
            ==> i == j
    &&& forall|i: int, j: int|
        0 <= i < schedule.remote.len() && 0 <= j < schedule.remote.len()
            && #[trigger] schedule.remote[i] == task.token && #[trigger] schedule.remote[j]
            == task.token ==> i == j
}

/// A new scheduler is in order.
pub proof fn law_new_is_orderly()
    ensures
        orderly(Schedule::empty()),
{
}

/// In order, a live task that counts as queued waits once.
pub proof fn law_queued_task_waits_once(schedule: Schedule, task: TaskRef)
    requires
        orderly(schedule),
        schedule.tasks.contains_key(task.token),
        schedule.tasks[task.token] == task.id,
        schedule.queued.contains(task.id),
    ensures
        waits_once(schedule, task),
{
    assert(schedule.waits(task.token));
    let ready_ids = executor::ids(schedule.ready);
    assert forall|i: int, j: int|
        0 <= i < schedule.ready.len() && 0 <= j < schedule.ready.len() && (
        #[trigger] schedule.ready[i]).id == task.id && (#[trigger] schedule.ready[j]).id
            == task.id implies i == j by {
        assert(ready_ids[i] == ready_ids[j]);
    }
    assert forall|i: int, j: int|
        0 <= i < schedule.remote.len() && 0 <= j < schedule.remote.len()
            && #[trigger] schedule.remote[i] == task.token && #[trigger] schedule.remote[j]
            == task.token implies i == j by {
        if i < j {
            assert(schedule.remote[i] == schedule.remote[j]);
        } else if j < i {
            assert(schedule.remote[j] == schedule.remote[i]);
        }
    }
}

/// Spawning keeps the order, unless the token is still on its way.
pub proof fn law_spawn_is_orderly(schedule: Schedule, token: usize)
    requires
        orderly(schedule),
        schedule.next_id < u64::MAX,
        !schedule.tasks.contains_key(token),
        !schedule.remote.contains(token),
    ensures
        orderly(schedule.spawned(token)),
{
    let after = schedule.spawned(token);
    let task = TaskRef { id: schedule.next_id, token };
    law_spawn_loses_none(schedule, token);
    lemma_pushed(schedule.ready, task);
    lemma_ready_is_new(schedule, task.id);
    assert forall|other: usize| #[trigger]
        after.remote.contains(other) && after.tasks.contains_key(other) implies {
        &&& after.queued.contains(after.tasks[other])
        &&& !executor::ids(after.ready).contains(after.tasks[other])
        &&& after.next_task matches Some(next) ==> next.id != after.tasks[other]
    } by {
        assert(schedule.remote.contains(other) && schedule.tasks.contains_key(other));
    }
    assert forall|i: int, j: int|
        0 <= i < j < after.remote.len() && #[trigger] after.remote[i]
            == #[trigger] after.remote[j] implies !after.tasks.contains_key(after.remote[i]) by {
        assert(schedule.remote[i] == schedule.remote[j]);
        assert(schedule.remote.contains(schedule.remote[i]));
    }
}

/// In order, a task that does not count as queued is not ready.
proof fn lemma_ready_is_new(schedule: Schedule, id: u64)
    requires
        orderly(schedule),
        !schedule.queued.contains(id),
    ensures
        !executor::ids(schedule.ready).contains(id),
{
    if executor::ids(schedule.ready).contains(id) {
        let i = choose|i: int|
            0 <= i < executor::ids(schedule.ready).len() && executor::ids(schedule.ready)[i] == id;
        assert(schedule.queued.contains(schedule.ready[i].id));
    }
}

/// Waking from the runtime's own thread keeps the order. A live task then waits once: where it
/// waited before, or else as the next task, or behind the ready ones if there is a next already.
pub proof fn law_wake_is_orderly(schedule: Schedule, task: TaskRef)
    requires
        orderly(schedule),
        schedule.knows(task),
    ensures
        orderly(schedule.woken(task)),
        schedule.tasks.contains_key(task.token) && schedule.tasks[task.token] == task.id
            ==> waits_once(schedule.woken(task), task),
{
    let after = schedule.woken(task);
    law_wake_loses_none(schedule, task);
    if !schedule.queued.contains(task.id) {
        lemma_pushed(schedule.ready, task);
        lemma_ready_is_new(schedule, task.id);
        assert forall|token: usize| #[trigger]
            after.remote.contains(token) && after.tasks.contains_key(token) implies {
            &&& after.queued.contains(after.tasks[token])
            &&& !executor::ids(after.ready).contains(after.tasks[token])
            &&& after.next_task matches Some(next) ==> next.id != after.tasks[token]
        } by {
            assert(schedule.remote.contains(token) && schedule.tasks.contains_key(token));
        }
    }
    if schedule.tasks.contains_key(task.token) && schedule.tasks[task.token] == task.id {
        law_queued_task_waits_once(after, task);
    }
}

/// Waking from another thread keeps the order, unless the task has ended and its token was given
/// to another. A live task then waits once: where it waited before, or else with its token on its
/// way.
pub proof fn law_remote_wake_is_orderly(schedule: Schedule, task: TaskRef)
    requires
        orderly(schedule),
        schedule.knows(task),
        schedule.tasks.contains_key(task.token) ==> schedule.tasks[task.token] == task.id,
    ensures
        orderly(schedule.woken_remotely(task)),
        schedule.tasks.contains_key(task.token) ==> waits_once(
            schedule.woken_remotely(task),
            task,
        ),
{
    let after = schedule.woken_remotely(task);
    law_remote_wake_loses_none(schedule, task);
    if !schedule.queued.contains(task.id) {
        lemma_ready_is_new(schedule, task.id);
        assert forall|token: usize| #[trigger]
            after.remote.contains(token) && after.tasks.contains_key(token) implies {
            &&& after.queued.contains(after.tasks[token])
            &&& !executor::ids(after.ready).contains(after.tasks[token])
            &&& after.next_task matches Some(next) ==> next.id != after.tasks[token]
        } by {
            if token != task.token {
                let i = choose|i: int| 0 <= i < after.remote.len() && after.remote[i] == token;
                assert(schedule.remote[i] == token);
                assert(schedule.remote.contains(token));
            }
        }
        assert forall|i: int, j: int|
            0 <= i < j < after.remote.len() && #[trigger] after.remote[i]
                == #[trigger] after.remote[j] implies !after.tasks.contains_key(
            after.remote[i],
        ) by {
            assert(schedule.remote[i] == after.remote[i]);
            if j < schedule.remote.len() {
                assert(schedule.remote[i] == schedule.remote[j]);
            } else {
                assert(schedule.remote.contains(task.token));
            }
        }
    }
    if schedule.tasks.contains_key(task.token) {
        law_queued_task_waits_once(after, task);
    }
}

/// In order, the tasks that are put in front are all different.
proof fn lemma_front_is_distinct(tasks: Map<usize, u64>, remote: Seq<usize>, ready: Seq<TaskRef>)
    requires
        forall|i: int, j: int|
            0 <= i < j < remote.len() && #[trigger] remote[i] == #[trigger] remote[j]
                ==> !tasks.contains_key(remote[i]),
    ensures
        ({
            let all = executor::with_remote(tasks, remote, ready);
            forall|i: int, j: int|
                0 <= i < j < all.len() - ready.len() ==> (#[trigger] all[i]).token != (
                #[trigger] all[j]).token
        }),
    decreases remote.len(),
{
    if remote.len() > 0 {
        let shorter = remote.drop_last();
        let last = remote.last();
        let rest = executor::with_remote(tasks, shorter, ready);
        let all = executor::with_remote(tasks, remote, ready);
        assert forall|i: int, j: int|
            0 <= i < j < shorter.len() && #[trigger] shorter[i]
                == #[trigger] shorter[j] implies !tasks.contains_key(shorter[i]) by {
            assert(remote[i] == remote[j]);
        }
        lemma_front_is_distinct(tasks, shorter, ready);
        lemma_with_remote(tasks, shorter, ready);
        if tasks.contains_key(last) {
            assert forall|i: int, j: int| 0 <= i < j < all.len() - ready.len() implies (
            #[trigger] all[i]).token != (#[trigger] all[j]).token by {
                assert(all[j] == rest[j - 1]);
                if i == 0 {
                    let token = rest[j - 1].token;
                    let k = choose|k: int| 0 <= k < shorter.len() && shorter[k] == token;
                    assert(remote[k] == token);
                    assert(remote[remote.len() - 1] == last);
                } else {
                    assert(all[i] == rest[i - 1]);
                }
            }
        }
    }
}

/// In order, the tasks that could run are all different, all of them count as queued, and the next
/// task is not among them.
proof fn lemma_all_ready_in_order(schedule: Schedule)
    requires
        orderly(schedule),
    ensures
        executor::ids(schedule.all_ready()).no_duplicates(),
        forall|i: int|
            0 <= i < schedule.all_ready().len() ==> schedule.queued.contains(
                (#[trigger] schedule.all_ready()[i]).id,
            ) && (schedule.next_task matches Some(next) ==> next.id
                != schedule.all_ready()[i].id),
{
    lemma_with_remote(schedule.tasks, schedule.remote, schedule.ready);
    lemma_front_is_distinct(schedule.tasks, schedule.remote, schedule.ready);
    let all = schedule.all_ready();
    let all_ids = executor::ids(all);
    let ready_ids = executor::ids(schedule.ready);
    let front = all.len() - schedule.ready.len();
    assert forall|i: int| front <= i < all.len() implies #[trigger] all[i] == schedule.ready[i
        - front] by {
        assert(all.skip(front)[i - front] == all[i]);
    }
    assert forall|i: int| front <= i < all.len() implies #[trigger] all_ids[i] == ready_ids[i
        - front] by {
        assert(all[i] == schedule.ready[i - front]);
    }
    assert forall|i: int, j: int| 0 <= i < j < all_ids.len() implies all_ids[i] != all_ids[j] by {
        if j < front {
            assert(all[i].token != all[j].token);
            assert(schedule.tasks[all[i].token] != schedule.tasks[all[j].token]);
        } else if i < front {
            assert(schedule.remote.contains(all[i].token));
            assert(all_ids[j] == ready_ids[j - front]);
            assert(ready_ids.contains(all_ids[j]));
        } else {
            assert(ready_ids[i - front] != ready_ids[j - front]);
        }
    }
    assert forall|i: int| 0 <= i < all.len() implies schedule.queued.contains(
        (#[trigger] all[i]).id,
    ) && (schedule.next_task matches Some(next) ==> next.id != all[i].id) by {
        if i < front {
            assert(schedule.remote.contains(all[i].token));
        } else {
            assert(schedule.queued.contains(schedule.ready[i - front].id));
            assert(ready_ids[i - front] == all[i].id);
            assert(ready_ids.contains(all[i].id));
        }
    }
}

/// Draining keeps the order, takes no more than the budget, and takes no task twice. What it takes
/// counted as queued before, and no longer does.
pub proof fn law_drain_is_orderly(schedule: Schedule)
    requires
        orderly(schedule),
    ensures
        orderly(schedule.drained()),
        schedule.drained_batch().len() <= BATCH_BUDGET,
        executor::ids(schedule.drained_batch()).no_duplicates(),
        forall|i: int|
            0 <= i < schedule.drained_batch().len() ==> schedule.queued.contains(
                (#[trigger] schedule.drained_batch()[i]).id,
            ) && !schedule.drained().queued.contains(schedule.drained_batch()[i].id),
{
    law_drain_loses_none(schedule);
    lemma_all_ready_in_order(schedule);
    let all = schedule.all_ready();
    let len = executor::batch_len(all);
    let batch = schedule.drained_batch();
    let batch_ids = executor::ids(batch);
    let after = schedule.drained();
    let rest_ids = executor::ids(after.ready);
    let all_ids = executor::ids(all);
    assert forall|i: int, j: int| 0 <= i < j < batch_ids.len() implies batch_ids[i]
        != batch_ids[j] by {
        assert(all_ids[i] != all_ids[j]);
    }
    assert forall|i: int| 0 <= i < batch.len() implies schedule.queued.contains(
        (#[trigger] batch[i]).id,
    ) && !after.queued.contains(batch[i].id) by {
        assert(all[i] == batch[i]);
        assert(batch_ids[i] == batch[i].id);
        assert(batch_ids.contains(batch[i].id));
    }
    assert forall|i: int, j: int| 0 <= i < j < rest_ids.len() implies rest_ids[i]
        != rest_ids[j] by {
        assert(all_ids[i + len] != all_ids[j + len]);
    }
    assert forall|i: int| 0 <= i < after.ready.len() implies after.queued.contains(
        (#[trigger] after.ready[i]).id,
    ) by {
        assert(all[i + len] == after.ready[i]);
        if batch_ids.contains(after.ready[i].id) {
            let j = choose|j: int|
                0 <= j < batch_ids.len() && batch_ids[j] == after.ready[i].id;
            assert(all_ids[j] != all_ids[i + len]);
        }
    }
    if schedule.next_task is Some {
        let id = schedule.next_task->0.id;
        if batch_ids.contains(id) {
            let j = choose|j: int| 0 <= j < batch_ids.len() && batch_ids[j] == id;
            assert(all[j].id == id);
        }
        if rest_ids.contains(id) {
            let j = choose|j: int| 0 <= j < rest_ids.len() && rest_ids[j] == id;
            assert(all[j + len].id == id);
        }
    }
}

/// Draining all that is ready, with no next task, brings the order back, whatever disturbed it.
pub proof fn law_draining_all_brings_order(schedule: Schedule)
    requires
        schedule.none_lost(),
        schedule.next_task is None,
        schedule.all_ready().len() <= BATCH_BUDGET,
    ensures
        orderly(schedule.drained()),
{
    law_drain_loses_none(schedule);
    assert(schedule.drained().ready.len() == 0);
}

/// Taking the next task keeps the order.
pub proof fn law_take_next_is_orderly(schedule: Schedule)
    requires
        orderly(schedule),
    ensures
        orderly(schedule.next_taken()),
{
    law_take_next_loses_none(schedule);
    let after = schedule.next_taken();
    if schedule.next_task is Some {
        assert forall|i: int| 0 <= i < after.ready.len() implies after.queued.contains(
            (#[trigger] after.ready[i]).id,
        ) by {
            assert(schedule.queued.contains(schedule.ready[i].id));
            assert(executor::ids(schedule.ready)[i] == schedule.ready[i].id);
            assert(executor::ids(schedule.ready).contains(schedule.ready[i].id));
        }
        assert forall|token: usize| #[trigger]
            after.remote.contains(token) && after.tasks.contains_key(token) implies {
            &&& after.queued.contains(after.tasks[token])
            &&& !executor::ids(after.ready).contains(after.tasks[token])
        } by {
            assert(schedule.remote.contains(token));
        }
    }
}

/// Whether the driver waits does not matter for the order.
proof fn lemma_waiting_does_not_matter(schedule: Schedule, waiting: bool)
    requires
        orderly(schedule),
    ensures
        orderly(Schedule { waiting, ..schedule }),
{
    let after = Schedule { waiting, ..schedule };
    assert forall|token: usize| #[trigger]
        after.tasks.contains_key(token) && after.queued.contains(
            after.tasks[token],
        ) implies after.waits(token) by {
        assert(schedule.waits(token));
    }
}

/// A round keeps the order, and so does the end of a wait.
pub proof fn law_round_is_orderly(schedule: Schedule)
    requires
        orderly(schedule),
    ensures
        orderly(schedule.round_taken()),
        orderly(Schedule { waiting: false, ..schedule }),
{
    law_take_next_is_orderly(schedule);
    law_drain_is_orderly(schedule);
    lemma_waiting_does_not_matter(schedule.drained(), true);
    lemma_waiting_does_not_matter(schedule, false);
}

/// Ending a task keeps the order, also while its wake is on its way.
pub proof fn law_complete_is_orderly(schedule: Schedule, token: usize)
    requires
        orderly(schedule),
    ensures
        orderly(schedule.completed(token)),
{
    law_complete_loses_none(schedule, token);
    let after = schedule.completed(token);
    assert forall|other: usize| #[trigger]
        after.remote.contains(other) && after.tasks.contains_key(other) implies {
        &&& after.queued.contains(after.tasks[other])
        &&& !executor::ids(after.ready).contains(after.tasks[other])
        &&& after.next_task matches Some(next) ==> next.id != after.tasks[other]
    } by {
        assert(schedule.remote.contains(other));
    }
    assert forall|i: int, j: int|
        0 <= i < j < after.remote.len() && #[trigger] after.remote[i]
            == #[trigger] after.remote[j] implies !after.tasks.contains_key(after.remote[i]) by {
        assert(schedule.remote[i] == schedule.remote[j]);
    }
}

/// Waking a task twice is the same as waking it once, from either thread.
pub proof fn law_wake_is_idempotent(schedule: Schedule, task: TaskRef)
    ensures
        schedule.woken(task).woken(task) == schedule.woken(task),
        schedule.woken_remotely(task).woken_remotely(task) == schedule.woken_remotely(task),
        schedule.woken(task).woken_remotely(task) == schedule.woken(task),
        schedule.woken_remotely(task).woken(task) == schedule.woken_remotely(task),
{
}

/// A wake puts a task that does not count as queued into one place, once, and leaves the other
/// places as they were: from the runtime's own thread it becomes the next, or the last that is
/// ready if there is a next already; from another thread its token comes last of those on their
/// way. A task that counts as queued is put nowhere.
pub proof fn law_wake_puts_task_in_one_place(schedule: Schedule, task: TaskRef)
    ensures
        ({
            let after = schedule.woken(task);
            let queued = schedule.queued.contains(task.id);
            &&& after.next_task == (if !queued && schedule.next_task is None {
                Some(task)
            } else {
                schedule.next_task
            })
            &&& after.ready == (if !queued && schedule.next_task is Some {
                schedule.ready.push(task)
            } else {
                schedule.ready
            })
            &&& after.remote == schedule.remote
        }),
        ({
            let after = schedule.woken_remotely(task);
            &&& after.next_task == schedule.next_task
            &&& after.ready == schedule.ready
            &&& after.remote == (if !schedule.queued.contains(task.id) {
                schedule.remote.push(task.token)
            } else {
                schedule.remote
            })
        }),
{
}

/// The scheduler waits only when no task could run: none is next, none is ready, and under no token
/// that is on its way a task is alive.
pub proof fn law_waits_only_when_idle(schedule: Schedule, has_timer: bool)
    ensures
        schedule.round(has_timer) == Round::Wait <==> schedule.next_task is None
            && schedule.ready.len() == 0 && (forall|i: int|
            0 <= i < schedule.remote.len() ==> !schedule.tasks.contains_key(
                #[trigger] schedule.remote[i],
            )),
{
    let all = schedule.all_ready();
    lemma_with_remote(schedule.tasks, schedule.remote, schedule.ready);
    if all.len() == 0 {
        assert forall|i: int|
            0 <= i < schedule.remote.len() implies !schedule.tasks.contains_key(
            #[trigger] schedule.remote[i],
        ) by {
            assert(schedule.remote.contains(schedule.remote[i]));
        }
    } else if schedule.ready.len() == 0 {
        assert(schedule.remote.contains(all[0].token));
    }
}

/// When the scheduler waits, no wake of a live task is left to be carried out.
pub proof fn law_waits_with_no_wake_left(schedule: Schedule, has_timer: bool, token: usize)
    requires
        schedule.none_lost(),
        schedule.round(has_timer) == Round::Wait,
        schedule.tasks.contains_key(token),
    ensures
        !schedule.queued.contains(schedule.tasks[token]),
{
    law_waits_only_when_idle(schedule, has_timer);
    if schedule.remote.contains(token) {
        let i = choose|i: int| 0 <= i < schedule.remote.len() && schedule.remote[i] == token;
        assert(schedule.tasks.contains_key(schedule.remote[i]));
    }
    assert(executor::ids(schedule.ready) =~= Seq::<u64>::empty());
}

/// A wake from another thread is not lost: the task runs first in the next round that drains.
pub proof fn law_remote_wake_runs_first(schedule: Schedule, task: TaskRef)
    requires
        schedule.tasks.contains_key(task.token),
        schedule.tasks[task.token] == task.id,
        !schedule.queued.contains(task.id),
    ensures
        schedule.woken_remotely(task).drained_batch().len() > 0,
        schedule.woken_remotely(task).drained_batch()[0] == task,
        schedule.next_task is None ==> schedule.woken_remotely(task).round_batch()[0] == task,
{
    let after = schedule.woken_remotely(task);
    assert(after.remote.drop_last() =~= schedule.remote);
    assert(after.all_ready()[0] == task);
}

/// A wake from the runtime's own thread runs next when nothing was next before.
pub proof fn law_wake_runs_next(schedule: Schedule, task: TaskRef)
    requires
        !schedule.queued.contains(task.id),
        schedule.next_task is None,
    ensures
        schedule.woken(task).round_batch() == seq![task],
{
}

/// A draining takes what stands within the budget, in its order, and moves whatever stands behind
/// forward by the budget.
pub proof fn law_drain_moves_forward(schedule: Schedule, at: int)
    requires
        0 <= at < schedule.all_ready().len(),
    ensures
        at < BATCH_BUDGET ==> at < schedule.drained_batch().len() && schedule.drained_batch()[at]
            == schedule.all_ready()[at],
        at >= BATCH_BUDGET ==> {
            &&& schedule.drained().all_ready().len() == schedule.all_ready().len() - BATCH_BUDGET
            &&& schedule.drained().all_ready()[at - BATCH_BUDGET] == schedule.all_ready()[at]
        },
{
}

/// After draining a number of times, with nothing in between.
pub open spec fn drained_times(schedule: Schedule, times: nat) -> Schedule
    decreases times,
{
    if times == 0 {
        schedule
    } else {
        drained_times(schedule.drained(), (times - 1) as nat)
    }
}

/// Whatever could run is reached in its turn: after as many drainings as the budget goes into its
/// place, the next draining takes it.
pub proof fn law_each_ready_task_is_reached(schedule: Schedule, at: int)
    requires
        0 <= at < schedule.all_ready().len(),
    ensures
        ({
            let batch = drained_times(schedule, (at / (BATCH_BUDGET as int)) as nat).drained_batch();
            &&& at % (BATCH_BUDGET as int) < batch.len()
            &&& batch[at % (BATCH_BUDGET as int)] == schedule.all_ready()[at]
        }),
    decreases at,
{
    law_drain_moves_forward(schedule, at);
    if at >= BATCH_BUDGET {
        let moved = at - BATCH_BUDGET;
        law_each_ready_task_is_reached(schedule.drained(), moved);
        assert(at / 256 == moved / 256 + 1 && at % 256 == moved % 256);
    }
}

/// A spawned task runs in its turn: it stands behind all that could run before, and is reached
/// after as many drainings as the budget goes into their number.
pub proof fn law_spawned_task_runs(schedule: Schedule, token: usize)
    ensures
        ({
            let after = schedule.spawned(token);
            let task = TaskRef { id: schedule.next_id, token };
            let at = after.all_ready().len() - 1;
            let batch = drained_times(after, (at / (BATCH_BUDGET as int)) as nat).drained_batch();
            &&& after.all_ready().len() > 0
            &&& after.all_ready().last() == task
            &&& batch.contains(task)
        }),
        !schedule.remote.contains(token) ==> schedule.spawned(token).all_ready()
            == schedule.all_ready().push(TaskRef { id: schedule.next_id, token }),
{
    let after = schedule.spawned(token);
    let task = TaskRef { id: schedule.next_id, token };
    let all = after.all_ready();
    let front = all.len() - after.ready.len();
    lemma_with_remote(after.tasks, after.remote, after.ready);
    assert(all.skip(front)[after.ready.len() - 1] == task);
    law_each_ready_task_is_reached(after, all.len() - 1);
    if !schedule.remote.contains(token) {
        lemma_spawned_ready(schedule, token, schedule.remote);
    }
}

/// A task that is spawned stands behind what could run before, unless its token is on its way.
proof fn lemma_spawned_ready(schedule: Schedule, token: usize, remote: Seq<usize>)
    requires
        !remote.contains(token),
    ensures
        executor::with_remote(schedule.spawned(token).tasks, remote, schedule.spawned(token).ready)
            == executor::with_remote(schedule.tasks, remote, schedule.ready).push(
            TaskRef { id: schedule.next_id, token },
        ),
    decreases remote.len(),
{
    if remote.len() > 0 {
        let shorter = remote.drop_last();
        assert(remote[remote.len() - 1] != token);
        if shorter.contains(token) {
            let i = choose|i: int| 0 <= i < shorter.len() && shorter[i] == token;
            assert(remote[i] == token);
        }
        lemma_spawned_ready(schedule, token, shorter);
    }
}

/// A round that waits leaves the driver known as waiting, and any other round leaves that as it
/// was. So every wake from another thread until the end of the wait asks for an interrupt.
pub proof fn law_round_that_waits_is_known(schedule: Schedule, has_timer: bool)
    ensures
        schedule.round(has_timer) is Wait ==> schedule.round_taken().waiting,
        !(schedule.round(has_timer) is Wait) ==> schedule.round_taken().waiting
            == schedule.waiting,
{
}

} // verus!
