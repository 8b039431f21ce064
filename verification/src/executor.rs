//! The scheduler: which task runs next, who gets queued by a wake, and when to wait.
//!
//! The futures themselves are the caller's. A task is known by its number, which is never used
//! twice, and by the token under which it stands while it is alive. Wakes that come from other
//! threads go through a queue of their own, from which they are taken when the ready tasks are
//! drained.

use crate::executor_laws;
use crate::slots::{
    slab_get, slab_insert, slab_try_remove, slab_with_capacity, Slot, SlotState,
};
use std::collections::{HashSet, VecDeque};
use vstd::prelude::*;

verus! {

/// The most tasks that one round takes out of the ready queue.
pub const BATCH_BUDGET: usize = 256;

/// A round with more tasks than this looks at the timers before it runs.
pub const TIMER_BATCH: usize = 64;

/// A task.
#[derive(Clone, Copy, Debug, PartialEq, Eq, Structural)]
pub struct TaskRef {
    /// The number of the task.
    pub id: u64,
    /// The token under which the task stands, or stood.
    pub token: usize,
}

/// What a round of the main loop has to do.
#[derive(Clone, Copy, Debug, PartialEq, Eq, Structural)]
pub enum Round {
    /// The main task is done.
    Finished,
    /// Nothing is ready: look at the timers, and wait for I/O unless one of them fired.
    Wait,
    /// Run the tasks of the batch, after looking at the timers where `spin_timer` says so, and
    /// flush the driver afterwards where `flush` says so.
    Run { spin_timer: bool, flush: bool },
}

/// A queue of the crate `crossbeam_queue`.
#[verifier::external_type_specification]
#[verifier::external_body]
#[verifier::reject_recursive_types(T)]
pub struct ExSegQueue<T>(crossbeam_queue::SegQueue<T>);

/// What a queue holds, next to come out first.
pub uninterp spec fn queue_contents(queue: crossbeam_queue::SegQueue<usize>) -> Seq<usize>;

/// Calls `crossbeam_queue::SegQueue::new`: the new queue is empty.
#[verifier::external_body]
fn queue_new() -> (created: crossbeam_queue::SegQueue<usize>)
    ensures
        queue_contents(created).len() == 0,
{
    crossbeam_queue::SegQueue::new()
}

/// Calls `crossbeam_queue::SegQueue::push` on a queue that nobody else uses meanwhile: the value
/// comes last.
#[verifier::external_body]
fn queue_push(queue: &mut crossbeam_queue::SegQueue<usize>, value: usize)
    ensures
        queue_contents(*final(queue)) == queue_contents(*old(queue)).push(value),
{
    queue.push(value)
}

/// Calls `crossbeam_queue::SegQueue::pop` on a queue that nobody else uses meanwhile: takes out
/// what came first, or finds the queue empty.
#[verifier::external_body]
fn queue_pop(queue: &mut crossbeam_queue::SegQueue<usize>) -> (value: Option<usize>)
    ensures
        match value {
            Some(value) => queue_contents(*old(queue)).len() > 0 && value == queue_contents(
                *old(queue),
            )[0] && queue_contents(*final(queue)) == queue_contents(*old(queue)).drop_first(),
            None => queue_contents(*old(queue)).len() == 0 && queue_contents(*final(queue)).len()
                == 0,
        },
{
    queue.pop()
}

/// The state of the scheduler.
#[verifier::ext_equal]
pub struct Schedule {
    /// The live tasks, by token.
    pub tasks: Map<usize, u64>,
    /// The tasks that wait to be run, or whose wake is under way.
    pub queued: Set<u64>,
    /// The task that runs before all others.
    pub next_task: Option<TaskRef>,
    /// The tasks that are ready, first to run first.
    pub ready: Seq<TaskRef>,
    /// The tokens of tasks that other threads woke, oldest first.
    pub remote: Seq<usize>,
    /// Whether the driver waits, or is about to.
    pub waiting: bool,
    /// The number that the next task gets.
    pub next_id: u64,
}

/// The numbers of tasks.
pub open spec fn ids(tasks: Seq<TaskRef>) -> Seq<u64> {
    tasks.map_values(|task: TaskRef| task.id)
}

/// The ready tasks once the wakes of other threads are put in front of them, each before the one
/// that came earlier. Tokens under which no task stands are passed over.
pub open spec fn with_remote(
    tasks: Map<usize, u64>,
    remote: Seq<usize>,
    ready: Seq<TaskRef>,
) -> Seq<TaskRef>
    decreases remote.len(),
{
    if remote.len() == 0 {
        ready
    } else {
        let rest = with_remote(tasks, remote.drop_last(), ready);
        if tasks.contains_key(remote.last()) {
            seq![TaskRef { id: tasks[remote.last()], token: remote.last() }] + rest
        } else {
            rest
        }
    }
}

/// How many of the ready tasks one round takes.
pub open spec fn batch_len(ready: Seq<TaskRef>) -> int {
    if ready.len() < BATCH_BUDGET {
        ready.len() as int
    } else {
        BATCH_BUDGET as int
    }
}

impl Schedule {
    /// Whether a task was spawned here: its number has been handed out, and while it is alive it
    /// keeps its token.
    pub open spec fn knows(self, task: TaskRef) -> bool {
        &&& task.id < self.next_id
        &&& forall|token: usize| #[trigger]
            self.tasks.contains_key(token) && self.tasks[token] == task.id ==> token == task.token
    }

    /// Whether the task under a token waits to be run: it is the next, it is ready, or its wake is
    /// on its way from another thread.
    pub open spec fn waits(self, token: usize) -> bool {
        ||| self.next_task is Some && self.next_task->0.id == self.tasks[token]
        ||| ids(self.ready).contains(self.tasks[token])
        ||| self.remote.contains(token)
    }

    /// No wake is lost: a live task that counts as queued waits to be run. Each live task has a
    /// number of its own, and no number is used before it is handed out.
    ///
    /// Of a task that has ended nothing is said. Its number can count as queued for good, when its
    /// last wake came from another thread and found nobody under its token.
    pub open spec fn none_lost(self) -> bool {
        &&& forall|token: usize| #[trigger]
            self.tasks.contains_key(token) ==> self.tasks[token] < self.next_id
        &&& forall|one: usize, other: usize|
            self.tasks.contains_key(one) && self.tasks.contains_key(other) && one != other
                ==> #[trigger] self.tasks[one] != #[trigger] self.tasks[other]
        &&& forall|id: u64| #[trigger] self.queued.contains(id) ==> id < self.next_id
        &&& forall|token: usize| #[trigger]
            self.tasks.contains_key(token) && self.queued.contains(self.tasks[token])
                ==> self.waits(token)
    }

    /// The scheduler of a new runtime.
    pub open spec fn empty() -> Schedule {
        Schedule {
            tasks: Map::empty(),
            queued: Set::empty(),
            next_task: None,
            ready: Seq::empty(),
            remote: Seq::empty(),
            waiting: false,
            next_id: 0,
        }
    }

    /// After a task is spawned: it is alive under `token`, and ready after all others.
    pub open spec fn spawned(self, token: usize) -> Schedule {
        Schedule {
            tasks: self.tasks.insert(token, self.next_id),
            queued: self.queued.insert(self.next_id),
            ready: self.ready.push(TaskRef { id: self.next_id, token }),
            next_id: (self.next_id + 1) as u64,
            ..self
        }
    }

    /// After a task is woken from the runtime's own thread. One that waits to be run already is
    /// not queued again; another becomes the next to run, or the last if there is a next already.
    pub open spec fn woken(self, task: TaskRef) -> Schedule {
        if self.queued.contains(task.id) {
            self
        } else if self.next_task is None {
            Schedule {
                queued: self.queued.insert(task.id),
                next_task: Some(task),
                ..self
            }
        } else {
            Schedule {
                queued: self.queued.insert(task.id),
                ready: self.ready.push(task),
                ..self
            }
        }
    }

    /// After a task is woken from another thread. One that waits to be run already is not queued
    /// again; of another the token is handed over.
    pub open spec fn woken_remotely(self, task: TaskRef) -> Schedule {
        if self.queued.contains(task.id) {
            self
        } else {
            Schedule {
                queued: self.queued.insert(task.id),
                remote: self.remote.push(task.token),
                ..self
            }
        }
    }

    /// The ready tasks together with those that other threads woke.
    pub open spec fn all_ready(self) -> Seq<TaskRef> {
        with_remote(self.tasks, self.remote, self.ready)
    }

    /// The tasks that draining takes out.
    pub open spec fn drained_batch(self) -> Seq<TaskRef> {
        self.all_ready().take(batch_len(self.all_ready()))
    }

    /// After the ready tasks are drained, up to a budget.
    pub open spec fn drained(self) -> Schedule {
        Schedule {
            queued: self.queued.filter(|id: u64| !ids(self.drained_batch()).contains(id)),
            ready: self.all_ready().skip(batch_len(self.all_ready())),
            remote: Seq::empty(),
            ..self
        }
    }

    /// After the next task is taken.
    pub open spec fn next_taken(self) -> Schedule {
        match self.next_task {
            Some(task) => Schedule {
                queued: self.queued.remove(task.id),
                next_task: None,
                ..self
            },
            None => self,
        }
    }

    /// After a task is done.
    pub open spec fn completed(self, token: usize) -> Schedule {
        Schedule { tasks: self.tasks.remove(token), ..self }
    }

    /// The tasks that one round runs.
    pub open spec fn round_batch(self) -> Seq<TaskRef> {
        match self.next_task {
            Some(task) => seq![task],
            None => self.drained_batch(),
        }
    }

    /// After the tasks of one round are taken. With none to take, the driver waits.
    pub open spec fn round_taken(self) -> Schedule {
        match self.next_task {
            Some(_) => self.next_taken(),
            None => if self.drained_batch().len() == 0 {
                Schedule { waiting: true, ..self.drained() }
            } else {
                self.drained()
            },
        }
    }

    /// What one round does with the tasks that it took.
    pub open spec fn round(self, has_timer: bool) -> Round {
        if self.round_batch().len() == 0 {
            Round::Wait
        } else {
            Round::Run {
                spin_timer: has_timer && self.next_task is None && self.round_batch().len()
                    > TIMER_BATCH,
                flush: self.next_task is None,
            }
        }
    }
}

/// The scheduler of a runtime.
pub struct RuntimeInner {
    token_to_task: slab::Slab<Slot>,
    queued: HashSet<u64>,
    next_task: Option<TaskRef>,
    queue: VecDeque<TaskRef>,
    remote_queue: crossbeam_queue::SegQueue<usize>,
    waiting: bool,
    next_id: u64,
}

impl View for RuntimeInner {
    type V = Schedule;

    closed spec fn view(&self) -> Schedule {
        Schedule {
            tasks: Map::new(
                |token: usize| self.states().contains_key(token),
                |token: usize| self.states()[token]->Task_0,
            ),
            queued: self.queued@,
            next_task: self.next_task,
            ready: self.queue@,
            remote: queue_contents(self.remote_queue),
            waiting: self.waiting,
            next_id: self.next_id,
        }
    }
}

impl RuntimeInner {
    spec fn states(&self) -> Map<usize, SlotState> {
        crate::slots::states(crate::slots::slab_contents(self.token_to_task))
    }

    /// Under each token stands a task.
    spec fn holds_tasks(&self) -> bool {
        forall|token: usize| #[trigger]
            self.states().contains_key(token) ==> self.states()[token] is Task
    }

    /// Under each token stands a task, and no wake is lost.
    pub closed spec fn wf(&self) -> bool {
        self.holds_tasks() && self@.none_lost()
    }

    /// In a runtime no wake is lost, whatever happened to it.
    pub proof fn law_runtime_loses_none(&self)
        requires
            self.wf(),
        ensures
            self@.none_lost(),
    {
    }

    /// The scheduler of a new runtime.
    pub fn new() -> (inner: RuntimeInner)
        ensures
            inner.wf(),
            inner@ == Schedule::empty(),
    {
        let inner = RuntimeInner {
            token_to_task: slab_with_capacity(4096),
            queued: HashSet::new(),
            next_task: None,
            queue: VecDeque::with_capacity(4096),
            remote_queue: queue_new(),
            waiting: false,
            next_id: 0,
        };
        assert(inner@ =~= Schedule::empty());
        proof {
            executor_laws::law_new_loses_none();
        }
        inner
    }

    /// Whether there is a number left for another task.
    pub fn can_spawn(&self) -> (possible: bool)
        ensures
            possible == (self@.next_id < u64::MAX),
    {
        self.next_id < u64::MAX
    }

    /// Spawns a task: it gets a number and a token, and is ready after all others.
    pub fn spawn(&mut self) -> (task: TaskRef)
        requires
            old(self).wf(),
            old(self)@.next_id < u64::MAX,
        ensures
            final(self).wf(),
            task.id == old(self)@.next_id,
            !old(self)@.tasks.contains_key(task.token),
            final(self)@ == old(self)@.spawned(task.token),
            final(self)@.knows(task),
    {
        broadcast use crate::slots::lemma_states_insert;
        broadcast use vstd::std_specs::hash::group_hash_axioms;

        let id = self.next_id;
        let token = slab_insert(&mut self.token_to_task, Slot::Task(id));
        let task = TaskRef { id, token };
        self.next_id = id + 1;
        let _ = self.queued.insert(id);
        self.enqueue(task);
        assert forall|other: usize| #[trigger]
            self.states().contains_key(other) implies self.states()[other] is Task by {
            if other != token {
                assert(old(self).states().contains_key(other));
            }
        }
        assert(self@ =~= old(self)@.spawned(token));
        proof {
            executor_laws::law_spawn_loses_none(old(self)@, token);
        }
        task
    }

    /// Puts a task behind all that are ready.
    fn enqueue(&mut self, task: TaskRef)
        ensures
            final(self)@ == (Schedule { ready: old(self)@.ready.push(task), ..old(self)@ }),
            final(self).token_to_task == old(self).token_to_task,
            final(self).next_id == old(self).next_id,
    {
        self.queue.push_back(task);
        assert(self@.tasks =~= old(self)@.tasks);
    }

    /// Wakes a task. The answer says whether the driver has to be interrupted.
    pub fn enqueue_if_needed(&mut self, task: TaskRef, same_thread: bool) -> (interrupt: bool)
        requires
            old(self).wf(),
            old(self)@.knows(task),
        ensures
            final(self).wf(),
            final(self)@ == (if same_thread {
                old(self)@.woken(task)
            } else {
                old(self)@.woken_remotely(task)
            }),
            interrupt == (!same_thread && old(self)@.waiting),
    {
        broadcast use vstd::std_specs::hash::group_hash_axioms;

        let newly_queued = self.queued.insert(task.id);
        if !newly_queued {
            assert(self.queued@ =~= old(self).queued@);
        }
        if same_thread {
            if newly_queued {
                if self.next_task.is_none() {
                    self.next_task = Some(task);
                } else {
                    self.enqueue(task);
                }
            }
            assert(self@ =~= old(self)@.woken(task));
            proof {
                executor_laws::law_wake_loses_none(old(self)@, task);
            }
            return false;
        }
        if newly_queued {
            queue_push(&mut self.remote_queue, task.token);
        }
        assert(self@ =~= old(self)@.woken_remotely(task));
        proof {
            executor_laws::law_remote_wake_loses_none(old(self)@, task);
        }
        self.waiting
    }

    /// Moves the wakes of other threads in front of the ready tasks, then takes ready tasks up to
    /// the budget.
    pub fn drain_ready(&mut self, batch: &mut Vec<TaskRef>)
        requires
            old(self).wf(),
        ensures
            final(self).wf(),
            final(self)@ == old(self)@.drained(),
            final(batch)@ == old(batch)@ + old(self)@.drained_batch(),
    {
        self.take_remote();
        self.take_batch(batch);
        assert(batch@ =~= old(batch)@ + old(self)@.drained_batch());
        assert(self@ =~= old(self)@.drained());
        proof {
            executor_laws::law_drain_loses_none(old(self)@);
        }
    }

    /// Moves the wakes of other threads in front of the ready tasks.
    fn take_remote(&mut self)
        requires
            old(self).holds_tasks(),
        ensures
            final(self).holds_tasks(),
            final(self)@ == (Schedule {
                ready: old(self)@.all_ready(),
                remote: Seq::empty(),
                ..old(self)@
            }),
    {
        let ghost before = self@;
        let ghost mut taken: int = 0;
        assert(before.remote.take(0) =~= Seq::<usize>::empty());
        loop
            invariant
                self.holds_tasks(),
                0 <= taken <= before.remote.len(),
                self@ == (Schedule {
                    ready: with_remote(
                        before.tasks,
                        before.remote.take(taken),
                        before.ready,
                    ),
                    remote: before.remote.skip(taken),
                    ..before
                }),
            ensures
                self.holds_tasks(),
                self@ == (Schedule {
                    ready: with_remote(before.tasks, before.remote, before.ready),
                    remote: Seq::empty(),
                    ..before
                }),
            decreases self@.remote.len(),
        {
            let ghost round = self@;
            match queue_pop(&mut self.remote_queue) {
                None => {
                    assert(before.remote.take(taken) =~= before.remote);
                    assert(self@ =~= (Schedule {
                        ready: with_remote(before.tasks, before.remote, before.ready),
                        remote: Seq::empty(),
                        ..before
                    }));
                    break;
                },
                Some(token) => {
                    if let Some(Slot::Task(id)) = slab_get(&self.token_to_task, token) {
                        let task = TaskRef { id: *id, token };
                        self.queue.push_front(task);
                    }
                    proof {
                        assert(self@.tasks =~= round.tasks);
                        assert(before.remote.take(taken + 1).drop_last() =~= before.remote.take(
                            taken,
                        ));
                        assert(before.remote.take(taken + 1).last() == token);
                        assert(round.remote.drop_first() =~= before.remote.skip(taken + 1));
                        taken = taken + 1;
                        assert(self@ =~= (Schedule {
                            ready: with_remote(
                                before.tasks,
                                before.remote.take(taken),
                                before.ready,
                            ),
                            remote: before.remote.skip(taken),
                            ..before
                        }));
                    }
                },
            }
        }
    }

    /// Takes ready tasks up to the budget.
    fn take_batch(&mut self, batch: &mut Vec<TaskRef>)
        requires
            old(self).holds_tasks(),
        ensures
            final(self).holds_tasks(),
            ({
                let taken = old(self)@.ready.take(batch_len(old(self)@.ready));
                &&& final(batch)@ == old(batch)@ + taken
                &&& final(self)@ == (Schedule {
                    ready: old(self)@.ready.skip(batch_len(old(self)@.ready)),
                    queued: old(self)@.queued.filter(|id: u64| !ids(taken).contains(id)),
                    ..old(self)@
                })
            }),
    {
        broadcast use vstd::std_specs::hash::group_hash_axioms;

        let ghost before = self@;
        let ghost start = batch@;
        let mut taken: usize = 0;
        assert(before.ready.skip(0) =~= before.ready);
        assert(self@ =~= (Schedule {
            ready: before.ready.skip(0),
            queued: before.queued.filter(|id: u64| !ids(before.ready.take(0)).contains(id)),
            ..before
        }));
        while taken < BATCH_BUDGET && self.queue.len() > 0
            invariant
                self.holds_tasks(),
                taken <= BATCH_BUDGET,
                taken <= before.ready.len(),
                batch@ == start + before.ready.take(taken as int),
                self@ == (Schedule {
                    ready: before.ready.skip(taken as int),
                    queued: before.queued.filter(
                        |id: u64| !ids(before.ready.take(taken as int)).contains(id),
                    ),
                    ..before
                }),
            decreases BATCH_BUDGET - taken,
        {
            let ghost round = self@;
            assert(self.queue@.len() == before.ready.len() - taken);
            match self.queue.pop_front() {
                Some(task) => {
                    assert(task == before.ready[taken as int]);
                    self.mark_dequeued(task);
                    batch.push(task);
                    proof {
                        assert(self@.tasks =~= round.tasks);
                        assert(before.ready.take(taken + 1) =~= before.ready.take(
                            taken as int,
                        ).push(task));
                        lemma_dequeued(
                            before.queued,
                            before.ready.take(taken as int),
                            task,
                        );
                        assert(round.ready.subrange(1, round.ready.len() as int)
                            =~= before.ready.skip(taken + 1));
                        assert(batch@ =~= start + before.ready.take(taken + 1));
                        assert(self@ =~= (Schedule {
                            ready: before.ready.skip(taken + 1),
                            queued: before.queued.filter(
                                |id: u64| !ids(before.ready.take(taken + 1)).contains(id),
                            ),
                            ..before
                        }));
                    }
                    taken = taken + 1;
                },
                None => {},
            }
        }
    }

    /// Notes that a task no longer waits to be run.
    fn mark_dequeued(&mut self, task: TaskRef)
        ensures
            final(self)@ == (Schedule { queued: old(self)@.queued.remove(task.id), ..old(self)@ }),
            final(self).token_to_task == old(self).token_to_task,
            final(self).next_id == old(self).next_id,
    {
        broadcast use vstd::std_specs::hash::group_hash_axioms;

        let _ = self.queued.remove(&task.id);
        assert(self@.tasks =~= old(self)@.tasks);
        assert(self@ =~= (Schedule { queued: old(self)@.queued.remove(task.id), ..old(self)@ }));
    }

    /// Takes the task that runs before all others.
    pub fn take_next_task(&mut self) -> (task: Option<TaskRef>)
        requires
            old(self).wf(),
        ensures
            final(self).wf(),
            task == old(self)@.next_task,
            final(self)@ == old(self)@.next_taken(),
    {
        let task = self.next_task.take();
        if let Some(task) = task {
            self.mark_dequeued(task);
        }
        assert(self@ =~= old(self)@.next_taken());
        proof {
            executor_laws::law_take_next_loses_none(old(self)@);
        }
        task
    }

    /// Starts a round of the main loop: fills the batch with the tasks to run, and says what to do
    /// with them.
    pub fn start_round(
        &mut self,
        batch: &mut Vec<TaskRef>,
        output_ready: bool,
        has_timer: bool,
    ) -> (round: Round)
        requires
            old(self).wf(),
        ensures
            final(self).wf(),
            output_ready ==> round == Round::Finished && final(self)@ == old(self)@
                && final(batch)@ == old(batch)@,
            !output_ready ==> {
                &&& round == old(self)@.round(has_timer)
                &&& final(self)@ == old(self)@.round_taken()
                &&& final(batch)@ == old(self)@.round_batch()
            },
    {
        if output_ready {
            return Round::Finished;
        }
        let mut next_task_taken = false;
        batch.clear();
        if let Some(next_task) = self.take_next_task() {
            batch.push(next_task);
            next_task_taken = true;
        } else {
            self.drain_ready(batch);
        }
        assert(batch@ =~= old(self)@.round_batch());
        if batch.len() == 0 {
            self.waiting = true;
            assert(self@ =~= old(self)@.round_taken());
            proof {
                executor_laws::law_round_loses_none(old(self)@);
            }
            return Round::Wait;
        }
        Round::Run {
            spin_timer: has_timer && !next_task_taken && batch.len() > TIMER_BATCH,
            flush: !next_task_taken,
        }
    }

    /// Ends a wait.
    pub fn finish_wait(&mut self)
        requires
            old(self).wf(),
        ensures
            final(self).wf(),
            final(self)@ == (Schedule { waiting: false, ..old(self)@ }),
    {
        self.waiting = false;
        assert(self@.tasks =~= old(self)@.tasks);
    }

    /// Ends a task: its token is free.
    pub fn complete(&mut self, task: TaskRef)
        requires
            old(self).wf(),
        ensures
            final(self).wf(),
            final(self)@ == old(self)@.completed(task.token),
    {
        broadcast use crate::slots::lemma_states_remove;

        let _ = slab_try_remove(&mut self.token_to_task, task.token);
        assert forall|other: usize| #[trigger]
            self.states().contains_key(other) implies self.states()[other] is Task by {
            assert(old(self).states().contains_key(other));
        }
        assert(self@ =~= old(self)@.completed(task.token));
        proof {
            executor_laws::law_complete_loses_none(old(self)@, task.token);
        }
    }

    /// Whether the driver waits, or is about to.
    pub fn is_waiting(&self) -> (waiting: bool)
        ensures
            waiting == self@.waiting,
    {
        self.waiting
    }
}

/// How long to wait for I/O after the timers were looked at, if at all: when a timer fired there
/// is work to do, otherwise the wait ends when the timers have to be looked at again. `deadline` is
/// the time until then, in milliseconds, if a timer waits.
pub fn after_spin(woken: bool, deadline: Option<u64>) -> (wait: Option<Option<u64>>)
    ensures
        wait == (if woken {
            None
        } else {
            Some(deadline)
        }),
{
    if woken {
        None
    } else {
        Some(deadline)
    }
}

/// Taking one more task out drops its number from those that are queued.
proof fn lemma_dequeued(queued: Set<u64>, taken: Seq<TaskRef>, task: TaskRef)
    ensures
        queued.filter(|id: u64| !ids(taken).contains(id)).remove(task.id) =~= queued.filter(
            |id: u64| !ids(taken.push(task)).contains(id),
        ),
{
    assert(ids(taken.push(task)) =~= ids(taken).push(task.id));
    assert forall|id: u64| ids(taken).push(task.id).contains(id) <==> ids(taken).contains(id) || id
        == task.id by {
        if ids(taken).contains(id) {
            let i = choose|i: int| 0 <= i < ids(taken).len() && ids(taken)[i] == id;
            assert(ids(taken).push(task.id)[i] == id);
        }
        if id == task.id {
            assert(ids(taken).push(task.id)[ids(taken).len() as int] == id);
        }
    }
}

} // verus!
