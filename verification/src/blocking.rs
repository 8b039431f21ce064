//! The pool of threads for blocking work: when to start a thread, and which to wait for.
//!
//! The work and the threads are the caller's. A piece of work is known by a number, and a thread
//! by the number of the work for which it was started.

use vstd::prelude::*;

verus! {

/// The most threads of a pool that was not told otherwise.
pub const DEFAULT_MAX_THREADS: usize = 512;

/// The most threads that a queue on this machine has room for: each takes sixteen bytes, and all of
/// them together at most half of the addresses.
pub const MAX_THREADS_LIMIT: usize = usize::MAX / 32;

/// The sending half of a channel of the crate `crossbeam_channel`.
#[verifier::external_type_specification]
#[verifier::external_body]
#[verifier::reject_recursive_types(T)]
pub struct ExSender<T>(crossbeam_channel::Sender<T>);

/// The receiving half of a channel of the crate `crossbeam_channel`.
#[verifier::external_type_specification]
#[verifier::external_body]
#[verifier::reject_recursive_types(T)]
pub struct ExReceiver<T>(crossbeam_channel::Receiver<T>);

/// A bounded queue of the crate `crossbeam_queue`.
#[verifier::external_type_specification]
#[verifier::external_body]
#[verifier::reject_recursive_types(T)]
pub struct ExArrayQueue<T>(crossbeam_queue::ArrayQueue<T>);

/// What a bounded queue holds, next to come out first.
pub uninterp spec fn bounded_contents(queue: crossbeam_queue::ArrayQueue<u64>) -> Seq<u64>;

/// How much a bounded queue was made to hold.
pub uninterp spec fn bounded_capacity(queue: crossbeam_queue::ArrayQueue<u64>) -> nat;

/// What was sent through a sender, first to last.
pub uninterp spec fn channel_sent(sender: crossbeam_channel::Sender<u64>) -> Seq<u64>;

/// Whether a receiver receives what a sender sends, on a channel without a limit.
pub uninterp spec fn channel_joins(
    sender: crossbeam_channel::Sender<u64>,
    receiver: crossbeam_channel::Receiver<u64>,
) -> bool;

/// Whether a receiver is the only one of its channel, and nothing was received from it.
pub uninterp spec fn channel_alone(receiver: crossbeam_channel::Receiver<u64>) -> bool;

/// Calls `crossbeam_channel::unbounded`: the two ends of a channel without a limit, through which
/// nothing was sent, with no other receiver.
#[verifier::external_body]
fn channel_unbounded() -> (channel: (
    crossbeam_channel::Sender<u64>,
    crossbeam_channel::Receiver<u64>,
))
    ensures
        channel_sent(channel.0).len() == 0,
        channel_joins(channel.0, channel.1),
        channel_alone(channel.1),
{
    crossbeam_channel::unbounded()
}

/// Calls `crossbeam_channel::Sender::try_send`: a channel without a limit takes the message as
/// long as there is a receiver, and the one given is there.
#[verifier::external_body]
fn channel_try_send(
    sender: &mut crossbeam_channel::Sender<u64>,
    _receiver: &crossbeam_channel::Receiver<u64>,
    message: u64,
) -> (sent: bool)
    requires
        channel_joins(*old(sender), *_receiver),
    ensures
        sent,
        channel_sent(*final(sender)) == channel_sent(*old(sender)).push(message),
        forall|other: crossbeam_channel::Receiver<u64>| #[trigger]
            channel_joins(*final(sender), other) == channel_joins(*old(sender), other),
{
    sender.try_send(message).is_ok()
}

/// Calls `crossbeam_channel::Sender::is_empty`: what was sent is still there as long as the
/// receiver given is the only one and has received nothing. Otherwise nothing is claimed of the
/// answer: it rests on how far the receivers on other threads have come.
#[verifier::external_body]
fn channel_is_empty(
    sender: &crossbeam_channel::Sender<u64>,
    _receiver: &crossbeam_channel::Receiver<u64>,
) -> (empty: bool)
    requires
        channel_joins(*sender, *_receiver),
    ensures
        channel_alone(*_receiver) && channel_sent(*sender).len() > 0 ==> !empty,
{
    sender.is_empty()
}

/// Calls the `clone` of `crossbeam_channel::Receiver`: one more receiver of the same channel. From
/// then on the receiver given is not the only one.
#[verifier::external_body]
fn channel_receiver(receiver: &mut crossbeam_channel::Receiver<u64>) -> (more:
    crossbeam_channel::Receiver<u64>)
    ensures
        forall|sender: crossbeam_channel::Sender<u64>| #[trigger]
            channel_joins(sender, more) == channel_joins(sender, *old(receiver)),
        forall|sender: crossbeam_channel::Sender<u64>| #[trigger]
            channel_joins(sender, *final(receiver)) == channel_joins(sender, *old(receiver)),
{
    receiver.clone()
}

/// Calls `crossbeam_queue::ArrayQueue::new`: an empty queue with the capacity given.
///
/// A capacity of zero makes the call panic, as does one too large to be set aside.
#[verifier::external_body]
fn bounded_new(capacity: usize) -> (created: crossbeam_queue::ArrayQueue<u64>)
    requires
        0 < capacity <= MAX_THREADS_LIMIT,
    ensures
        bounded_contents(created).len() == 0,
        bounded_capacity(created) == capacity,
{
    crossbeam_queue::ArrayQueue::new(capacity)
}

/// Calls `crossbeam_queue::ArrayQueue::is_full` on a queue that nobody else uses meanwhile:
/// whether it holds as much as it can.
#[verifier::external_body]
fn bounded_is_full(queue: &mut crossbeam_queue::ArrayQueue<u64>) -> (full: bool)
    ensures
        *final(queue) == *old(queue),
        full == (bounded_contents(*old(queue)).len() >= bounded_capacity(*old(queue))),
{
    queue.is_full()
}

/// Calls `crossbeam_queue::ArrayQueue::force_push` on a queue that nobody else uses meanwhile: the
/// value comes last, and in a full queue takes the place of the first, which is handed out.
#[verifier::external_body]
fn bounded_force_push(queue: &mut crossbeam_queue::ArrayQueue<u64>, value: u64) -> (displaced:
    Option<u64>)
    ensures
        bounded_capacity(*final(queue)) == bounded_capacity(*old(queue)),
        bounded_contents(*old(queue)).len() < bounded_capacity(*old(queue)) ==> displaced is None
            && bounded_contents(*final(queue)) == bounded_contents(*old(queue)).push(value),
        bounded_contents(*old(queue)).len() >= bounded_capacity(*old(queue)) ==> displaced
            == Some(bounded_contents(*old(queue))[0]) && bounded_contents(*final(queue))
            == bounded_contents(*old(queue)).drop_first().push(value),
{
    queue.force_push(value)
}

/// Calls `crossbeam_queue::ArrayQueue::pop` on a queue that nobody else uses meanwhile: takes out
/// what came first, or finds the queue empty.
#[verifier::external_body]
fn bounded_pop(queue: &mut crossbeam_queue::ArrayQueue<u64>) -> (value: Option<u64>)
    ensures
        bounded_capacity(*final(queue)) == bounded_capacity(*old(queue)),
        match value {
            Some(value) => bounded_contents(*old(queue)).len() > 0 && value == bounded_contents(
                *old(queue),
            )[0] && bounded_contents(*final(queue)) == bounded_contents(*old(queue)).drop_first(),
            None => bounded_contents(*old(queue)).len() == 0 && bounded_contents(
                *final(queue),
            ).len() == 0,
        },
{
    queue.pop()
}

/// The state of the pool.
#[verifier::ext_equal]
pub struct PoolState {
    /// Whether work is still taken.
    pub open: bool,
    /// The work that was handed over since the pool was made, first to last, while it is open.
    pub work: Seq<u64>,
    /// The threads that were started, first to last.
    pub threads: Seq<u64>,
    /// The most threads that are started.
    pub max_threads: nat,
    /// Whether the threads are waited for at the end.
    pub wait_on_exit: bool,
}

impl PoolState {
    /// Whether a thread is started for work that was handed over: there is work that no thread has
    /// taken yet, and the pool may still grow.
    pub open spec fn grows(self, queue_empty: bool) -> bool {
        self.open && !queue_empty && self.threads.len() < self.max_threads
    }
}

/// A pool of threads for blocking work.
pub struct DefaultBlockingThreadPool {
    task_queue: Option<(crossbeam_channel::Sender<u64>, crossbeam_channel::Receiver<u64>)>,
    threads: crossbeam_queue::ArrayQueue<u64>,
    wait_on_exit: bool,
}

impl View for DefaultBlockingThreadPool {
    type V = PoolState;

    closed spec fn view(&self) -> PoolState {
        PoolState {
            open: self.task_queue is Some,
            work: match self.task_queue {
                Some(channel) => channel_sent(channel.0),
                None => Seq::empty(),
            },
            threads: bounded_contents(self.threads),
            max_threads: bounded_capacity(self.threads),
            wait_on_exit: self.wait_on_exit,
        }
    }
}

impl DefaultBlockingThreadPool {
    /// There are no more threads than the pool may have, and the pool keeps both ends of the
    /// channel through which work is handed over. Before the first thread, nobody else receives
    /// from it.
    pub closed spec fn wf(&self) -> bool {
        &&& self@.threads.len() <= self@.max_threads
        &&& 0 < self@.max_threads
        &&& self.task_queue matches Some(channel) ==> channel_joins(channel.0, channel.1) && (
        self@.threads.len() == 0 ==> channel_alone(channel.1))
    }

    /// Whether a receiver receives the work that is handed over.
    pub closed spec fn feeds(&self, receiver: crossbeam_channel::Receiver<u64>) -> bool {
        self.task_queue matches Some(channel) && channel_joins(channel.0, receiver)
    }

    /// A pool of up to 512 threads, which are not waited for at the end.
    pub fn new() -> (pool: DefaultBlockingThreadPool)
        ensures
            pool.wf(),
            pool@ == (PoolState {
                open: true,
                work: Seq::empty(),
                threads: Seq::empty(),
                max_threads: 512,
                wait_on_exit: false,
            }),
    {
        Self::with_max_threads(DEFAULT_MAX_THREADS)
    }

    /// A pool of up to so many threads, which are not waited for at the end.
    pub fn with_max_threads(num_threads: usize) -> (pool: DefaultBlockingThreadPool)
        requires
            0 < num_threads <= MAX_THREADS_LIMIT,
        ensures
            pool.wf(),
            pool@ == (PoolState {
                open: true,
                work: Seq::empty(),
                threads: Seq::empty(),
                max_threads: num_threads as nat,
                wait_on_exit: false,
            }),
    {
        Self::with_max_threads_and_wait_on_exit(num_threads, false)
    }

    /// A pool of up to so many threads, which are waited for at the end if `wait_on_exit` says so.
    pub fn with_max_threads_and_wait_on_exit(num_threads: usize, wait_on_exit: bool) -> (pool:
        DefaultBlockingThreadPool)
        requires
            0 < num_threads <= MAX_THREADS_LIMIT,
        ensures
            pool.wf(),
            pool@ == (PoolState {
                open: true,
                work: Seq::empty(),
                threads: Seq::empty(),
                max_threads: num_threads as nat,
                wait_on_exit,
            }),
    {
        let pool = DefaultBlockingThreadPool {
            task_queue: Some(channel_unbounded()),
            threads: bounded_new(num_threads),
            wait_on_exit,
        };
        assert(pool@.threads =~= Seq::<u64>::empty());
        assert(pool@.work =~= Seq::<u64>::empty());
        pool
    }

    /// Hands work over, unless the pool is closed. Where a thread has to be started for it, here is
    /// the receiver from which it takes its work.
    ///
    /// The first work that an open pool is given starts a thread. After that it rests on how far
    /// the other threads have come; whatever they did, the pool has started at most one thread,
    /// and only if it may still grow.
    pub fn spawn(&mut self, work: u64) -> (started: Option<crossbeam_channel::Receiver<u64>>)
        requires
            old(self).wf(),
        ensures
            final(self).wf(),
            final(self)@ == (PoolState {
                work: if old(self)@.open {
                    old(self)@.work.push(work)
                } else {
                    old(self)@.work
                },
                threads: if started is Some {
                    old(self)@.threads.push(work)
                } else {
                    old(self)@.threads
                },
                ..old(self)@
            }),
            started matches Some(receiver) ==> old(self)@.grows(false) && final(self).feeds(
                receiver,
            ),
            old(self)@.open && old(self)@.threads.len() == 0 ==> started is Some,
            forall|receiver: crossbeam_channel::Receiver<u64>|
                #![trigger final(self).feeds(receiver)]
                final(self).feeds(receiver) == old(self).feeds(receiver),
    {
        let queue_empty = match &mut self.task_queue {
            None => {
                return None;
            },
            Some(channel) => {
                let _ = channel_try_send(&mut channel.0, &channel.1, work);
                channel_is_empty(&channel.0, &channel.1)
            },
        };
        if !self.start_thread(work, queue_empty) {
            return None;
        }
        let ghost grown = *self;
        let started = match &mut self.task_queue {
            None => None,
            Some(channel) => Some(channel_receiver(&mut channel.1)),
        };
        assert forall|receiver: crossbeam_channel::Receiver<u64>| #[trigger]
            self.feeds(receiver) == old(self).feeds(receiver) by {
            assert(grown.feeds(receiver) == old(self).feeds(receiver));
        }
        started
    }

    /// Decides whether a thread is started for work that was handed over, and notes it.
    /// `queue_empty` says whether the threads have taken all work already.
    pub fn start_thread(&mut self, work: u64, queue_empty: bool) -> (started: bool)
        requires
            old(self).wf(),
        ensures
            final(self).wf(),
            started == old(self)@.grows(queue_empty),
            final(self)@ == (if started {
                PoolState { threads: old(self)@.threads.push(work), ..old(self)@ }
            } else {
                old(self)@
            }),
            forall|receiver: crossbeam_channel::Receiver<u64>|
                #![trigger final(self).feeds(receiver)]
                final(self).feeds(receiver) == old(self).feeds(receiver),
    {
        if self.task_queue.is_none() || queue_empty {
            return false;
        }
        if bounded_is_full(&mut self.threads) {
            return false;
        }
        let _ = bounded_force_push(&mut self.threads, work);
        true
    }

    /// Closes the pool, and gives the threads to wait for, first to last. No receiver gets work
    /// from it any more, beyond what was handed over already.
    pub fn close(&mut self) -> (to_join: Vec<u64>)
        requires
            old(self).wf(),
        ensures
            final(self).wf(),
            to_join@ == (if old(self)@.wait_on_exit {
                old(self)@.threads
            } else {
                Seq::empty()
            }),
            final(self)@ == (PoolState {
                open: false,
                work: Seq::empty(),
                threads: if old(self)@.wait_on_exit {
                    Seq::empty()
                } else {
                    old(self)@.threads
                },
                ..old(self)@
            }),
            forall|receiver: crossbeam_channel::Receiver<u64>|
                #![trigger final(self).feeds(receiver)]
                !final(self).feeds(receiver),
    {
        self.task_queue = None;
        let mut to_join: Vec<u64> = Vec::new();
        if self.wait_on_exit {
            let ghost threads = self@.threads;
            assert(threads.take(0) =~= Seq::<u64>::empty());
            assert(threads.skip(0) =~= threads);
            loop
                invariant
                    to_join@.len() <= threads.len(),
                    to_join@ == threads.take(to_join@.len() as int),
                    self@.threads == threads.skip(to_join@.len() as int),
                    self.task_queue is None,
                    self@.max_threads == old(self)@.max_threads,
                    self@.wait_on_exit == old(self)@.wait_on_exit,
                ensures
                    to_join@ == threads,
                    self@.threads.len() == 0,
                    self.task_queue is None,
                    self@.max_threads == old(self)@.max_threads,
                    self@.wait_on_exit == old(self)@.wait_on_exit,
                decreases self@.threads.len(),
            {
                let ghost done = to_join@.len() as int;
                match bounded_pop(&mut self.threads) {
                    Some(thread) => {
                        to_join.push(thread);
                        assert(threads.skip(done).drop_first() =~= threads.skip(done + 1));
                        assert(to_join@ =~= threads.take(done + 1));
                    },
                    None => {
                        assert(threads.take(done) =~= threads);
                        break;
                    },
                }
            }
        }
        assert(to_join@ =~= (if old(self)@.wait_on_exit {
            old(self)@.threads
        } else {
            Seq::empty()
        }));
        to_join
    }
}

/// A pool never has more threads than its limit, and grows only while it is open and below it.
pub proof fn law_pool_stays_bounded(pool: DefaultBlockingThreadPool, queue_empty: bool)
    requires
        pool.wf(),
    ensures
        0 < pool@.max_threads,
        pool@.threads.len() <= pool@.max_threads,
        pool@.grows(queue_empty) ==> pool@.open && pool@.threads.len() + 1 <= pool@.max_threads,
{
}

/// A new pool takes work, has no threads and none to wait for, and may have as many as it was told,
/// or 512.
pub proof fn law_new_pool_is_open_and_empty(
    pool: DefaultBlockingThreadPool,
    num_threads: usize,
    limited: DefaultBlockingThreadPool,
    wait_on_exit: bool,
    told: DefaultBlockingThreadPool,
)
    requires
        call_ensures(DefaultBlockingThreadPool::new, (), pool),
        call_ensures(DefaultBlockingThreadPool::with_max_threads, (num_threads,), limited),
        call_ensures(
            DefaultBlockingThreadPool::with_max_threads_and_wait_on_exit,
            (num_threads, wait_on_exit),
            told,
        ),
    ensures
        pool@.open && limited@.open && told@.open,
        pool@.threads.len() == 0 && limited@.threads.len() == 0 && told@.threads.len() == 0,
        pool@.work.len() == 0 && limited@.work.len() == 0 && told@.work.len() == 0,
        pool@.max_threads == 512,
        limited@.max_threads == num_threads,
        told@.max_threads == num_threads,
        !pool@.wait_on_exit,
        !limited@.wait_on_exit,
        told@.wait_on_exit == wait_on_exit,
{
}

/// Work that an open pool is given is handed over, last, whether a thread is started for it or not;
/// a closed pool takes none and starts none. A thread is started only below the limit, is counted,
/// and receives the work of the pool; the first work of an open pool starts one.
pub proof fn law_work_is_handed_over(
    pool: &mut DefaultBlockingThreadPool,
    work: u64,
    started: Option<crossbeam_channel::Receiver<u64>>,
)
    requires
        call_ensures(DefaultBlockingThreadPool::spawn, (pool, work), started),
    ensures
        final(pool)@.open == old(pool)@.open,
        final(pool)@.max_threads == old(pool)@.max_threads,
        final(pool)@.wait_on_exit == old(pool)@.wait_on_exit,
        old(pool)@.open ==> final(pool)@.work.len() == old(pool)@.work.len() + 1
            && final(pool)@.work.last() == work && final(pool)@.work.drop_last() == old(pool)@.work,
        !old(pool)@.open ==> started is None && final(pool)@.work == old(pool)@.work,
        started is None ==> final(pool)@.threads == old(pool)@.threads,
        started is Some ==> {
            &&& old(pool)@.threads.len() < old(pool)@.max_threads
            &&& final(pool)@.threads.len() == old(pool)@.threads.len() + 1
            &&& final(pool)@.threads.last() == work
            &&& final(pool)@.threads.drop_last() == old(pool)@.threads
            &&& final(pool).feeds(started->0)
        },
        old(pool)@.open && old(pool)@.threads.len() == 0 ==> started is Some,
{
    assert(old(pool)@.open ==> final(pool)@.work.drop_last() =~= old(pool)@.work);
    assert(started is Some ==> final(pool)@.threads.drop_last() =~= old(pool)@.threads);
}

/// A thread is started just if the pool is open, there is work that nobody took, and the pool has
/// fewer threads than it may. It is counted last, and nothing else changes.
pub proof fn law_thread_is_started_for_waiting_work(
    pool: &mut DefaultBlockingThreadPool,
    work: u64,
    queue_empty: bool,
    started: bool,
)
    requires
        call_ensures(DefaultBlockingThreadPool::start_thread, (pool, work, queue_empty), started),
    ensures
        started <==> old(pool)@.open && !queue_empty
            && old(pool)@.threads.len() < old(pool)@.max_threads,
        started ==> final(pool)@.threads.len() == old(pool)@.threads.len() + 1
            && final(pool)@.threads.last() == work
                && final(pool)@.threads.drop_last() == old(pool)@.threads,
        !started ==> final(pool)@.threads == old(pool)@.threads,
        final(pool)@.open == old(pool)@.open,
        final(pool)@.work == old(pool)@.work,
        final(pool)@.max_threads == old(pool)@.max_threads,
        final(pool)@.wait_on_exit == old(pool)@.wait_on_exit,
{
    assert(started ==> final(pool)@.threads.drop_last() =~= old(pool)@.threads);
}

/// A pool that is closed takes no more work, and gives no receiver any. If it was told to wait, all
/// of its threads are to be waited for, first to last, once; otherwise none.
pub proof fn law_closed_pool_waits_for_its_threads(
    pool: &mut DefaultBlockingThreadPool,
    to_join: Vec<u64>,
)
    requires
        call_ensures(DefaultBlockingThreadPool::close, (pool,), to_join),
    ensures
        !final(pool)@.open,
        forall|receiver: crossbeam_channel::Receiver<u64>|
            !(#[trigger] final(pool).feeds(receiver)),
        old(pool)@.wait_on_exit ==> to_join@ == old(pool)@.threads
            && final(pool)@.threads.len() == 0,
        !old(pool)@.wait_on_exit
            ==> to_join@.len() == 0 && final(pool)@.threads == old(pool)@.threads,
        final(pool)@.max_threads == old(pool)@.max_threads,
        final(pool)@.wait_on_exit == old(pool)@.wait_on_exit,
{
}

} // verus!
