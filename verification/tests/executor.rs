use vibeio::blocking::DefaultBlockingThreadPool;
use vibeio::builder::{BuildStep, DriverKind, RuntimeBuilder};
use vibeio::error::IoError;
use vibeio::executor::{
    after_spin, Round, RuntimeInner, TaskRef, BATCH_BUDGET, TIMER_BATCH,
};
use vibeio::join::{spawn, yield_now, JoinHandle};
use vibeio::util::{offload_fs, supports_completion};

/// Runs rounds until the task behind `handle` has put something out, calling `run` for each task.
fn block_on<T, F: FnMut(&mut RuntimeInner, &mut JoinHandle<T>, TaskRef)>(
    runtime: &mut RuntimeInner,
    handle: &mut JoinHandle<T>,
    mut run: F,
) -> T {
    let mut batch = Vec::new();
    loop {
        let output = handle.try_take_output();
        match runtime.start_round(&mut batch, output.is_some(), true) {
            Round::Finished => return output.unwrap(),
            Round::Wait => panic!("nothing is ready"),
            Round::Run { .. } => {
                for task in batch.clone() {
                    run(runtime, handle, task);
                }
            }
        }
    }
}

#[test]
fn executor_block_on_returns_future_output() {
    let mut runtime = RuntimeInner::new();
    let (_, mut handle) = spawn::<usize>(&mut runtime);
    let value = block_on(&mut runtime, &mut handle, |runtime, handle, task| {
        let _ = handle.finish(42usize);
        runtime.complete(task);
    });
    assert_eq!(value, 42);
}

#[test]
fn executor_spawn_join_handle_returns_task_output() {
    let mut runtime = RuntimeInner::new();
    let (outer, mut handle) = spawn::<usize>(&mut runtime);
    let mut inner: Option<(TaskRef, JoinHandle<usize>)> = None;
    let value = block_on(&mut runtime, &mut handle, |runtime, handle, task| {
        if task == outer {
            if inner.is_none() {
                inner = Some(spawn::<usize>(runtime));
            }
            let (_, inner_handle) = inner.as_mut().unwrap();
            if let Some(output) = inner_handle.poll(task.id) {
                let _ = handle.finish(output * 2);
                runtime.complete(task);
            }
        } else {
            let (_, inner_handle) = inner.as_mut().unwrap();
            assert_eq!(inner_handle.finish(21usize), Some(outer.id));
            runtime.complete(task);
            assert!(!runtime.enqueue_if_needed(outer, true));
        }
    });
    assert_eq!(value, 42);
}

#[test]
fn executor_runtime_spawn_returns_join_handle() {
    let mut runtime = RuntimeInner::new();
    let (first, mut first_handle) = spawn::<usize>(&mut runtime);
    let (second, mut handle) = spawn::<usize>(&mut runtime);
    assert_ne!(first, second);
    let value = block_on(&mut runtime, &mut handle, |runtime, handle, task| {
        if task == first {
            assert_eq!(first_handle.finish(7usize), None);
            runtime.complete(task);
        } else if let Some(output) = first_handle.poll(task.id) {
            let _ = handle.finish(output);
            runtime.complete(task);
        }
    });
    assert_eq!(value, 7);
}

#[test]
fn tasks_run_in_the_order_in_which_they_were_spawned() {
    let mut runtime = RuntimeInner::new();
    let tasks: Vec<TaskRef> = (0..3).map(|_| runtime.spawn()).collect();
    let mut batch = Vec::new();
    let round = runtime.start_round(&mut batch, false, true);
    assert_eq!(round, Round::Run { spin_timer: false, flush: true });
    assert_eq!(batch, tasks);
}

#[test]
fn batch_is_bounded_and_timers_are_not_starved() {
    let mut runtime = RuntimeInner::new();
    let tasks: Vec<TaskRef> = (0..300).map(|_| runtime.spawn()).collect();
    let mut batch = Vec::new();
    let round = runtime.start_round(&mut batch, false, true);
    assert_eq!(BATCH_BUDGET, 256);
    assert_eq!(TIMER_BATCH, 64);
    assert_eq!(round, Round::Run { spin_timer: true, flush: true });
    assert_eq!(batch, tasks[..256].to_vec());
    let round = runtime.start_round(&mut batch, false, true);
    assert_eq!(round, Round::Run { spin_timer: false, flush: true });
    assert_eq!(batch, tasks[256..].to_vec());
}

#[test]
fn timer_is_not_spun_where_there_is_none() {
    let mut runtime = RuntimeInner::new();
    for _ in 0..65 {
        runtime.spawn();
    }
    let mut batch = Vec::new();
    let round = runtime.start_round(&mut batch, false, false);
    assert_eq!(round, Round::Run { spin_timer: false, flush: true });
    assert_eq!(batch.len(), 65);
}

#[test]
fn woken_task_runs_next_and_alone() {
    let mut runtime = RuntimeInner::new();
    let first = runtime.spawn();
    let second = runtime.spawn();
    let third = runtime.spawn();
    let mut batch = Vec::new();
    runtime.start_round(&mut batch, false, true);
    assert_eq!(batch, vec![first, second, third]);
    assert!(!runtime.enqueue_if_needed(second, true));
    assert!(!runtime.enqueue_if_needed(third, true));
    assert!(!runtime.enqueue_if_needed(second, true));
    let round = runtime.start_round(&mut batch, false, true);
    assert_eq!(round, Round::Run { spin_timer: false, flush: false });
    assert_eq!(batch, vec![second]);
    runtime.start_round(&mut batch, false, true);
    assert_eq!(batch, vec![third]);
    assert_eq!(runtime.start_round(&mut batch, false, true), Round::Wait);
}

#[test]
fn wakes_of_other_threads_come_before_ready_tasks() {
    let mut runtime = RuntimeInner::new();
    let first = runtime.spawn();
    let second = runtime.spawn();
    let mut batch = Vec::new();
    runtime.start_round(&mut batch, false, true);
    let third = runtime.spawn();
    assert!(!runtime.enqueue_if_needed(first, false));
    assert!(!runtime.enqueue_if_needed(second, false));
    assert!(!runtime.enqueue_if_needed(second, false));
    runtime.start_round(&mut batch, false, true);
    assert_eq!(batch, vec![second, first, third]);
}

#[test]
fn waiting_driver_is_interrupted_by_other_threads_only() {
    let mut runtime = RuntimeInner::new();
    let task = runtime.spawn();
    let mut batch = Vec::new();
    runtime.start_round(&mut batch, false, true);
    assert!(!runtime.is_waiting());
    assert_eq!(runtime.start_round(&mut batch, false, true), Round::Wait);
    assert!(runtime.is_waiting());
    assert!(runtime.enqueue_if_needed(task, false));
    assert!(runtime.enqueue_if_needed(task, false));
    runtime.finish_wait();
    assert!(!runtime.is_waiting());
    runtime.start_round(&mut batch, false, true);
    assert_eq!(batch, vec![task]);
}

#[test]
fn ended_task_is_not_run_by_a_late_wake() {
    let mut runtime = RuntimeInner::new();
    let task = runtime.spawn();
    let mut batch = Vec::new();
    runtime.start_round(&mut batch, false, true);
    assert!(!runtime.enqueue_if_needed(task, false));
    runtime.complete(task);
    assert_eq!(runtime.start_round(&mut batch, false, true), Round::Wait);
    assert!(batch.is_empty());
}

#[test]
fn late_wake_of_an_ended_task_leaves_the_others_in_order() {
    let mut runtime = RuntimeInner::new();
    let ended = runtime.spawn();
    let other = runtime.spawn();
    let mut batch = Vec::new();
    runtime.start_round(&mut batch, false, true);
    assert!(!runtime.enqueue_if_needed(ended, false));
    runtime.complete(ended);
    assert_eq!(runtime.start_round(&mut batch, false, true), Round::Wait);
    runtime.finish_wait();
    assert!(!runtime.enqueue_if_needed(other, false));
    assert!(!runtime.enqueue_if_needed(other, true));
    let spawned = runtime.spawn();
    runtime.start_round(&mut batch, false, true);
    assert_eq!(batch, vec![other, spawned]);
    assert_eq!(runtime.start_round(&mut batch, false, true), Round::Wait);
}

#[test]
fn token_on_its_way_wakes_whoever_stands_under_it() {
    let mut runtime = RuntimeInner::new();
    let ended = runtime.spawn();
    let mut batch = Vec::new();
    runtime.start_round(&mut batch, false, true);
    assert!(!runtime.enqueue_if_needed(ended, false));
    runtime.complete(ended);
    let spawned = runtime.spawn();
    assert_eq!(spawned.token, ended.token);
    runtime.start_round(&mut batch, false, true);
    assert_eq!(batch, vec![spawned, spawned]);
    assert!(!runtime.enqueue_if_needed(spawned, true));
    assert!(!runtime.enqueue_if_needed(spawned, false));
    runtime.start_round(&mut batch, false, true);
    assert_eq!(batch, vec![spawned]);
    assert_eq!(runtime.start_round(&mut batch, false, true), Round::Wait);
}

#[test]
fn woken_task_waits_in_one_place() {
    let mut runtime = RuntimeInner::new();
    let tasks: Vec<TaskRef> = (0..3).map(|_| runtime.spawn()).collect();
    let mut batch = Vec::new();
    runtime.start_round(&mut batch, false, true);
    for _ in 0..2 {
        assert!(!runtime.enqueue_if_needed(tasks[0], true));
        assert!(!runtime.enqueue_if_needed(tasks[1], true));
        assert!(!runtime.enqueue_if_needed(tasks[2], false));
    }
    assert!(!runtime.enqueue_if_needed(tasks[0], false));
    assert!(!runtime.enqueue_if_needed(tasks[2], true));
    runtime.start_round(&mut batch, false, true);
    assert_eq!(batch, vec![tasks[0]]);
    runtime.start_round(&mut batch, false, true);
    assert_eq!(batch, vec![tasks[2], tasks[1]]);
    assert_eq!(runtime.start_round(&mut batch, false, true), Round::Wait);
}

#[test]
fn spawned_task_is_reached_behind_many_others() {
    let mut runtime = RuntimeInner::new();
    for _ in 0..600 {
        let _ = runtime.spawn();
    }
    let last = runtime.spawn();
    let mut batch = Vec::new();
    for _ in 0..600 / BATCH_BUDGET {
        runtime.start_round(&mut batch, false, true);
        assert_eq!(batch.len(), BATCH_BUDGET);
        assert!(!batch.contains(&last));
    }
    runtime.start_round(&mut batch, false, true);
    assert_eq!(batch.len(), 89);
    assert_eq!(batch[88], last);
}

#[test]
fn token_of_an_ended_task_is_free_again() {
    let mut runtime = RuntimeInner::new();
    let first = runtime.spawn();
    let mut batch = Vec::new();
    runtime.start_round(&mut batch, false, true);
    runtime.complete(first);
    let second = runtime.spawn();
    assert_eq!(second.token, first.token);
    assert_ne!(second.id, first.id);
}

#[test]
fn taking_the_next_task_lets_it_be_woken_again() {
    let mut runtime = RuntimeInner::new();
    let task = runtime.spawn();
    let mut batch = Vec::new();
    runtime.drain_ready(&mut batch);
    assert_eq!(batch, vec![task]);
    assert_eq!(runtime.take_next_task(), None);
    runtime.enqueue_if_needed(task, true);
    assert_eq!(runtime.take_next_task(), Some(task));
    runtime.enqueue_if_needed(task, true);
    assert_eq!(runtime.take_next_task(), Some(task));
}

#[test]
fn finished_round_leaves_everything_as_it_is() {
    let mut runtime = RuntimeInner::new();
    let task = runtime.spawn();
    let mut batch = vec![TaskRef { id: 9, token: 9 }];
    assert_eq!(runtime.start_round(&mut batch, true, true), Round::Finished);
    assert_eq!(batch, vec![TaskRef { id: 9, token: 9 }]);
    runtime.start_round(&mut batch, false, true);
    assert_eq!(batch, vec![task]);
}

#[test]
fn join_handle_wakes_whoever_waits() {
    let mut handle = JoinHandle::<&str>::new();
    assert_eq!(handle.try_take_output(), None);
    assert_eq!(handle.poll(3), None);
    assert_eq!(handle.poll(4), None);
    assert_eq!(handle.finish("done"), Some(4));
    assert_eq!(handle.poll(5), Some("done"));
    assert_eq!(handle.try_take_output(), None);
}

#[test]
fn yielding_pauses_once() {
    let mut pause = yield_now();
    assert!(!pause.poll());
    assert!(pause.poll());
    assert!(pause.poll());
}

#[test]
fn spawn_blocking_returns_task_output() {
    let mut runtime = RuntimeInner::new();
    let mut pool = DefaultBlockingThreadPool::new();
    let (_, mut handle) = spawn::<usize>(&mut runtime);
    let mut blocking = JoinHandle::<usize>::new();
    let mut handed_over = false;
    let value = block_on(&mut runtime, &mut handle, |runtime, handle, task| {
        match blocking.poll(task.id) {
            Some(output) => {
                let _ = handle.finish(output * 2);
                runtime.complete(task);
            }
            None => {
                assert!(!handed_over);
                handed_over = true;
                let receiver = pool.spawn(0).unwrap();
                // What the thread does that was started for the work.
                let job = || 21usize;
                assert_eq!(receiver.recv(), Ok(0));
                assert_eq!(blocking.finish(job()), Some(task.id));
                runtime.enqueue_if_needed(task, false);
            }
        }
    });
    assert_eq!(value, 42);
}

#[test]
fn runtime_waits_only_when_no_timer_fired() {
    assert_eq!(after_spin(true, Some(5)), None);
    assert_eq!(after_spin(true, None), None);
    assert_eq!(after_spin(false, Some(5)), Some(Some(5)));
    assert_eq!(after_spin(false, None), Some(None));
}

#[test]
fn builder_takes_the_first_driver_that_can_be_made() {
    let best = RuntimeBuilder::new();
    let (first, second) = (IoError::Os(38), IoError::Os(24));
    assert_eq!(best.next_step(&vec![]), BuildStep::Try(DriverKind::IoUring));
    assert_eq!(best.next_step(&vec![Ok(())]), BuildStep::Run(DriverKind::IoUring));
    assert_eq!(best.next_step(&vec![Err(first)]), BuildStep::Try(DriverKind::Mio));
    assert_eq!(best.next_step(&vec![Err(first), Ok(())]), BuildStep::Run(DriverKind::Mio));
    assert_eq!(best.next_step(&vec![Err(first), Err(second)]), BuildStep::Fail(second));
    let chosen = RuntimeBuilder::with_driver(DriverKind::IoUring);
    assert_eq!(chosen.next_step(&vec![]), BuildStep::Try(DriverKind::IoUring));
    assert_eq!(chosen.next_step(&vec![Ok(())]), BuildStep::Run(DriverKind::IoUring));
    assert_eq!(chosen.next_step(&vec![Err(first)]), BuildStep::Fail(first));
}

#[test]
fn builder_tries_the_completion_ring_first() {
    assert_eq!(RuntimeBuilder::new().build(), vec![DriverKind::IoUring, DriverKind::Mio]);
    assert_eq!(RuntimeBuilder::default().build(), vec![DriverKind::IoUring, DriverKind::Mio]);
    assert_eq!(RuntimeBuilder::with_driver(DriverKind::Mock).build(), vec![DriverKind::Mock]);
    let builder = RuntimeBuilder::with_driver(DriverKind::Mock).driver(DriverKind::Mio);
    assert_eq!(builder.build(), vec![DriverKind::Mio]);
}

#[test]
fn questions_about_the_running_runtime() {
    assert!(supports_completion(Some(true)));
    assert!(!supports_completion(Some(false)));
    assert!(!supports_completion(None));
    assert!(offload_fs(Some(true)));
    assert!(!offload_fs(Some(false)));
    assert!(!offload_fs(None));
}
