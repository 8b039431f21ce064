//! Handles to spawned tasks, and giving way to other tasks.

use crate::executor::{RuntimeInner, TaskRef};
use vstd::prelude::*;

verus! {

/// What is known of a spawned task from outside.
pub struct JoinState<T> {
    /// What the task has put out and nobody has taken yet.
    pub output: Option<T>,
    /// Who is woken when the task is done.
    pub waker: Option<u64>,
}

impl<T> JoinState<T> {
    /// Of a task that has not put anything out, and for which nobody waits.
    pub open spec fn fresh() -> JoinState<T> {
        JoinState { output: None, waker: None }
    }

    /// After the output was taken, if there is one.
    pub open spec fn taken(self) -> JoinState<T> {
        JoinState { output: None, ..self }
    }

    /// After the handle was looked at: with no output to take, `waker` waits for it.
    pub open spec fn polled(self, waker: u64) -> JoinState<T> {
        if self.output is Some {
            self.taken()
        } else {
            JoinState { waker: Some(waker), ..self }
        }
    }

    /// After the task was done: its output is there, and whoever waited is woken.
    pub open spec fn finished(self, output: T) -> JoinState<T> {
        JoinState { output: Some(output), waker: None }
    }
}

/// A handle to a spawned task: what the task has put out, and who waits for it.
#[derive(Debug)]
pub struct JoinHandle<T> {
    output: Option<T>,
    waker: Option<u64>,
}

impl<T> View for JoinHandle<T> {
    type V = JoinState<T>;

    closed spec fn view(&self) -> JoinState<T> {
        JoinState { output: self.output, waker: self.waker }
    }
}

impl<T> JoinHandle<T> {
    /// The handle of a task that has not put anything out, and for which nobody waits.
    pub fn new() -> (handle: JoinHandle<T>)
        ensures
            handle@ == JoinState::<T>::fresh(),
    {
        JoinHandle { output: None, waker: None }
    }

    /// Takes what the task has put out, without waiting for it.
    pub fn try_take_output(&mut self) -> (output: Option<T>)
        ensures
            output == old(self)@.output,
            final(self)@ == old(self)@.taken(),
    {
        self.output.take()
    }

    /// Takes what the task has put out. If there is nothing yet, `waker` is woken when there is.
    pub fn poll(&mut self, waker: u64) -> (output: Option<T>)
        ensures
            output == old(self)@.output,
            final(self)@ == old(self)@.polled(waker),
    {
        match self.output.take() {
            Some(output) => Some(output),
            None => {
                self.waker = Some(waker);
                None
            },
        }
    }

    /// Notes what the task put out at its end, and says whom to wake.
    pub fn finish(&mut self, output: T) -> (waker: Option<u64>)
        ensures
            final(self)@ == old(self)@.finished(output),
            waker == old(self)@.waker,
    {
        self.output = Some(output);
        self.waker.take()
    }
}

/// Waiting for a task gives its output, once: whoever looked at the handle last before the task
/// was done is woken, finds the output, and nobody finds it again.
pub proof fn law_join_gives_output_once<T>(
    state: JoinState<T>,
    first: u64,
    waker: u64,
    output: T,
)
    requires
        state.output is None,
    ensures
        ({
            let waiting = state.polled(first).polled(waker);
            let done = waiting.finished(output);
            &&& waiting.output is None
            &&& waiting.waker == Some(waker)
            &&& done.output == Some(output)
            &&& done.waker is None
            &&& done.polled(waker).output is None
            &&& done.taken().output is None
        }),
{
}

/// Spawns a task in the runtime given: it is ready after all others, and its handle says when it
/// is done.
pub fn spawn<T>(runtime: &mut RuntimeInner) -> (spawned: (TaskRef, JoinHandle<T>))
    requires
        old(runtime).wf(),
        old(runtime)@.next_id < u64::MAX,
    ensures
        final(runtime).wf(),
        spawned.0.id == old(runtime)@.next_id,
        !old(runtime)@.tasks.contains_key(spawned.0.token),
        final(runtime)@ == old(runtime)@.spawned(spawned.0.token),
        final(runtime)@.knows(spawned.0),
        spawned.1@ == JoinState::<T>::fresh(),
{
    let task = runtime.spawn();
    (task, JoinHandle::new())
}

/// A pause that lets other tasks run: it is over when it is looked at for the second time.
#[derive(Clone, Copy, Debug, PartialEq, Eq, Structural)]
pub struct YieldNow {
    /// Whether the pause has been looked at.
    pub yielded: bool,
}

impl YieldNow {
    /// Whether the pause is over. If it is not, the task has to wake itself at once.
    pub fn poll(&mut self) -> (ready: bool)
        ensures
            ready == old(self).yielded,
            final(self).yielded,
    {
        if self.yielded {
            true
        } else {
            self.yielded = true;
            false
        }
    }
}

/// A pause that lets other tasks run.
pub fn yield_now() -> (pause: YieldNow)
    ensures
        !pause.yielded,
{
    YieldNow { yielded: false }
}

/// A new handle has nothing to take, and nobody waits.
pub proof fn law_new_handle_is_empty<T>(handle: JoinHandle<T>)
    requires
        call_ensures(JoinHandle::<T>::new, (), handle),
    ensures
        handle@.output is None,
        handle@.waker is None,
{
}

/// Looking at a handle takes the output if there is one, and else makes the waker wait, in place of
/// the one before. Who waits is not touched when an output is taken.
pub proof fn law_poll_takes_or_waits<T>(
    handle: &mut JoinHandle<T>,
    waker: u64,
    output: Option<T>,
)
    requires
        call_ensures(JoinHandle::<T>::poll, (handle, waker), output),
    ensures
        output == old(handle)@.output,
        final(handle)@.output is None,
        output is None ==> final(handle)@.waker == Some(waker),
        output is Some ==> final(handle)@.waker == old(handle)@.waker,
{
}

/// Taking the output without waiting leaves no output, and does not touch who waits.
pub proof fn law_output_is_taken_once<T>(
    handle: &mut JoinHandle<T>,
    output: Option<T>,
)
    requires
        call_ensures(JoinHandle::<T>::try_take_output, (handle,), output),
    ensures
        output == old(handle)@.output,
        final(handle)@.output is None,
        final(handle)@.waker == old(handle)@.waker,
{
}

/// When the task is done, whoever waits is to be woken, once, and the output is there.
pub proof fn law_finished_task_wakes_who_waits<T>(
    handle: &mut JoinHandle<T>,
    output: T,
    waker: Option<u64>,
)
    requires
        call_ensures(JoinHandle::<T>::finish, (handle, output), waker),
    ensures
        waker == old(handle)@.waker,
        final(handle)@.output == Some(output),
        final(handle)@.waker is None,
{
}

/// Whoever waits for a task gets its output: the waker that looked at the handle last is woken when
/// the task is done, and finds the output when it looks again; after that there is none.
pub proof fn law_waiting_for_a_task_gives_its_output<T>(
    waiting: &mut JoinHandle<T>,
    waker: u64,
    finishing: &mut JoinHandle<T>,
    output: T,
    woken: Option<u64>,
    looking: &mut JoinHandle<T>,
    found: Option<T>,
    again: &mut JoinHandle<T>,
    nothing: Option<T>,
)
    requires
        call_ensures(JoinHandle::<T>::poll, (waiting, waker), None),
        *old(finishing) == *final(waiting),
        call_ensures(JoinHandle::<T>::finish, (finishing, output), woken),
        *old(looking) == *final(finishing),
        call_ensures(JoinHandle::<T>::poll, (looking, waker), found),
        *old(again) == *final(looking),
        call_ensures(JoinHandle::<T>::try_take_output, (again,), nothing),
    ensures
        woken == Some(waker),
        found == Some(output),
        nothing is None,
{
}

/// Spawning through a handle spawns one task, with an empty handle: the task is the last that is
/// ready, and nothing else changes.
pub proof fn law_spawned_task_has_a_handle<T>(
    runtime: &mut RuntimeInner,
    spawned: (TaskRef, JoinHandle<T>),
)
    requires
        old(runtime)@.next_id < u64::MAX,
        call_ensures(spawn::<T>, (runtime,), spawned),
    ensures
        spawned.1@.output is None,
        spawned.1@.waker is None,
        spawned.0.id == old(runtime)@.next_id,
        !old(runtime)@.tasks.contains_key(spawned.0.token),
        final(runtime)@.tasks.contains_key(spawned.0.token),
        final(runtime)@.tasks[spawned.0.token] == spawned.0.id,
        final(runtime)@.ready.len() == old(runtime)@.ready.len() + 1,
        final(runtime)@.ready.last() == spawned.0,
        final(runtime)@.queued.contains(spawned.0.id),
        final(runtime)@.next_task == old(runtime)@.next_task,
        final(runtime)@.remote == old(runtime)@.remote,
        final(runtime)@.waiting == old(runtime)@.waiting,
{
}

/// A pause is over when it is looked at for the second time, and stays over.
pub proof fn law_pause_lasts_one_look(
    pause: YieldNow,
    looking: &mut YieldNow,
    first: bool,
    again: &mut YieldNow,
    second: bool,
)
    requires
        call_ensures(yield_now, (), pause),
        *old(looking) == pause,
        call_ensures(YieldNow::poll, (looking,), first),
        *old(again) == *final(looking),
        call_ensures(YieldNow::poll, (again,), second),
    ensures
        !first,
        second,
        final(again).yielded,
{
}

} // verus!
