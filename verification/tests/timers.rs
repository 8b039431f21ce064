use vibeio::time::{sleep, Sleep, SleepPoll};
use vibeio::timer::{Timer, EXPIRATION_LIMIT};

#[test]
fn test_timer_submit_and_deadline() {
    let mut timer = Timer::new();
    // Submit a timer for 50 ms
    let handle = timer.submit(50, 1);
    assert!(handle.is_some());
    let (woken, deadline) = timer.spin_and_get_deadline(0);
    assert!(woken.is_empty());
    let millis = deadline.unwrap();
    assert!(millis > 0);
    assert!(millis <= 50);
}

#[test]
fn test_timer_cancel() {
    let mut timer = Timer::new();
    // Submit a timer for 100 ms and cancel it
    let handle = timer.submit(100, 1).unwrap();
    timer.cancel(handle);
    let (woken, deadline) = timer.spin_and_get_deadline(0);
    assert!(woken.is_empty());
    assert_eq!(deadline, None);
}

#[test]
fn test_timer_wake() {
    let mut timer = Timer::new();
    let _ = timer.submit(1, 7);
    let (woken, deadline) = timer.spin_and_get_deadline(5);
    assert_eq!(woken, vec![7]);
    assert_eq!(deadline, None);
    assert_eq!(timer.now(), 5);
}

#[test]
fn sleep_completes() {
    let mut timer = Timer::new();
    let mut pause = Sleep::new(1);
    assert_eq!(pause.poll(&mut timer, 5), SleepPoll::Pending);
    let (woken, _) = timer.spin_and_get_deadline(1);
    assert_eq!(woken, vec![5]);
    assert_eq!(pause.poll(&mut timer, 5), SleepPoll::Ready);
}

#[test]
fn timer_of_no_length_is_not_set() {
    let mut timer = Timer::new();
    assert!(timer.submit(0, 1).is_none());
    assert_eq!(timer.spin_and_get_deadline(5), (vec![], None));
    assert_eq!(timer.now(), 0);
}

#[test]
fn timer_fires_once_and_not_before_its_time() {
    let mut timer = Timer::new();
    let _ = timer.submit(30, 1);
    let (woken, deadline) = timer.spin_and_get_deadline(29);
    assert!(woken.is_empty());
    assert_eq!(deadline, Some(1));
    let (woken, _) = timer.spin_and_get_deadline(1);
    assert_eq!(woken, vec![1]);
    let (woken, deadline) = timer.spin_and_get_deadline(100);
    assert!(woken.is_empty());
    assert_eq!(deadline, None);
}

#[test]
fn cancelled_timer_is_silent_and_others_still_fire() {
    let mut timer = Timer::new();
    let first = timer.submit(10, 1).unwrap();
    let _ = timer.submit(10, 2).unwrap();
    timer.cancel(first);
    let (woken, _) = timer.spin_and_get_deadline(10);
    assert_eq!(woken, vec![2]);
}

#[test]
fn all_timers_that_are_due_wake_their_tasks() {
    let mut timer = Timer::new();
    for waker in 0..20u64 {
        let _ = timer.submit(1 + waker * 10, waker);
    }
    let (mut woken, _) = timer.try_spin_and_get_deadline(95);
    woken.sort();
    assert_eq!(woken, (0..10u64).collect::<Vec<u64>>());
    let (mut woken, deadline) = timer.try_spin_and_get_deadline(200);
    woken.sort();
    assert_eq!(woken, (10..20u64).collect::<Vec<u64>>());
    assert_eq!(deadline, Some(None));
}

#[test]
fn single_timer_is_not_overslept() {
    for millis in vec![1u64, 63, 64, 65, 500, 4096, 10_000, 300_000] {
        let mut timer = Timer::new();
        let _ = timer.submit(millis, 1);
        let mut passed: u64 = 0;
        loop {
            let (woken, deadline) = timer.try_spin_and_get_deadline(0);
            assert!(woken.is_empty());
            let step = deadline.unwrap().unwrap();
            passed += step;
            assert!(passed <= millis);
            let (woken, _) = timer.try_spin_and_get_deadline(step);
            if passed == millis {
                assert_eq!(woken, vec![1]);
                break;
            }
            assert!(woken.is_empty());
        }
    }
}

#[test]
fn deadline_of_a_timer_out_of_sight_is_not_told() {
    let mut timer = Timer::new();
    let _ = timer.submit(127, 1);
    let (woken, deadline) = timer.try_spin_and_get_deadline(0);
    assert!(woken.is_empty());
    assert_eq!(deadline, None);
    let (_, deadline) = timer.try_spin_and_get_deadline(1);
    assert!(deadline.unwrap().unwrap() <= 126);
}

#[test]
fn timer_out_of_sight_is_not_overslept_beside_another_of_its_level() {
    let mut timer = Timer::new();
    let _ = timer.submit(127, 1);
    let _ = timer.submit(50, 2);
    let (_, deadline) = timer.try_spin_and_get_deadline(0);
    assert_eq!(deadline, Some(Some(50)));
    let (woken, deadline) = timer.try_spin_and_get_deadline(50);
    assert_eq!(woken, vec![2]);
    let step = deadline.unwrap().unwrap();
    assert!(step <= 77);
    let (woken, _) = timer.try_spin_and_get_deadline(77);
    assert_eq!(woken, vec![1]);
}

#[test]
fn deadline_is_the_beginning_of_the_nearest_slot() {
    for (millis, deadline) in vec![
        (1u64, Some(1u64)),
        (126, Some(126)),
        (127, None),
        (128, Some(128)),
        (191, Some(128)),
        (8_100, Some(126 * 64)),
        (127 * 64 - 1, Some(126 * 64)),
        (127 * 64, None),
        (8_191, None),
        (8_192, Some(8_192)),
        (300_000, Some(73 * 4_096)),
    ] {
        let mut timer = Timer::new();
        let _ = timer.submit(millis, 1);
        let (_, told) = timer.try_spin_and_get_deadline(0);
        assert_eq!(told, deadline.map(Some));
    }
}

#[test]
fn timer_moves_down_when_its_slot_comes_near() {
    let mut timer = Timer::new();
    let _ = timer.submit(200, 1);
    assert_eq!(timer.spin_and_get_deadline(0), (vec![], Some(192)));
    assert_eq!(timer.spin_and_get_deadline(127), (vec![], Some(65)));
    assert_eq!(timer.spin_and_get_deadline(1), (vec![], Some(72)));
    assert_eq!(timer.spin_and_get_deadline(72), (vec![1], None));
}

#[test]
fn cancelled_timer_is_told_from_one_that_expires_with_it() {
    let mut timer = Timer::new();
    let early = timer.submit(8_191, 1).unwrap();
    let _ = timer.submit(64, 2);
    timer.spin_and_get_deadline(64);
    let _ = timer.submit(8_127, 3);
    timer.cancel(early);
    let (_, told) = timer.try_spin_and_get_deadline(0);
    assert_eq!(told, Some(Some(126 * 64)));
}

#[test]
fn timers_that_are_too_far_away_are_not_accepted() {
    let timer = Timer::new();
    assert!(timer.accepts(1));
    assert!(timer.accepts(EXPIRATION_LIMIT - 1));
    assert!(!timer.accepts(EXPIRATION_LIMIT));
    assert!(!timer.accepts(u64::MAX));
}

#[test]
fn time_stands_still_while_nothing_waits() {
    let mut timer = Timer::new();
    timer.spin_and_get_deadline(1000);
    assert_eq!(timer.now(), 0);
    let _ = timer.submit(5, 1);
    timer.spin_and_get_deadline(3);
    assert_eq!(timer.now(), 3);
}

#[test]
fn sleep_of_no_length_wakes_its_task_at_once() {
    let mut timer = Timer::new();
    let mut pause = sleep(0);
    assert_eq!(pause.needs_timer(), Some(0));
    assert_eq!(pause.poll(&mut timer, 1), SleepPoll::WakeNow);
    assert_eq!(pause.needs_timer(), None);
    assert_eq!(pause.poll(&mut timer, 1), SleepPoll::Ready);
}

#[test]
fn sleep_that_is_given_up_leaves_no_timer() {
    let mut timer = Timer::new();
    let mut pause = sleep(20);
    assert_eq!(pause.poll(&mut timer, 1), SleepPoll::Pending);
    pause.cancel(&mut timer);
    assert_eq!(timer.spin_and_get_deadline(50), (vec![], None));
}

#[test]
fn sleep_that_never_began_can_be_given_up() {
    let mut timer = Timer::new();
    let _ = timer.submit(4, 9);
    sleep(20).cancel(&mut timer);
    let (woken, _) = timer.spin_and_get_deadline(4);
    assert_eq!(woken, vec![9]);
}

/// A small generator of numbers, the same on every run.
fn next(state: &mut u64) -> u64 {
    *state = state.wrapping_mul(6364136223846793005).wrapping_add(1442695040888963407);
    *state >> 33
}

/// What is expected of a timer: its waker, when it expires, and when it came to its slot.
struct Expected {
    waker: u64,
    at: u64,
    placed: u64,
}

impl Expected {
    fn unit(&self) -> u64 {
        let mut unit: u64 = 1;
        while self.at - self.placed >= 128 * unit {
            unit *= 64;
        }
        unit
    }

    fn slot(&self) -> u64 {
        self.placed / self.unit() + (self.at - self.placed) / self.unit()
    }
}

#[test]
fn wheel_agrees_with_a_list_of_timers() {
    for seed in 0..60u64 {
        let mut state = seed;
        let mut timer = Timer::new();
        let mut expected: Vec<Expected> = Vec::new();
        let mut handles = Vec::new();
        let mut now: u64 = 0;
        for waker in 0..400u64 {
            let range = 1u64 << (1 + next(&mut state) % 22);
            let millis = 1 + next(&mut state) % range;
            handles.push((timer.submit(millis, waker).unwrap(), waker));
            expected.push(Expected { waker, at: now + millis, placed: now });
            if next(&mut state) % 4 == 0 {
                let index = next(&mut state) as usize % handles.len();
                let (handle, cancelled) = handles.swap_remove(index);
                timer.cancel(handle);
                expected.retain(|timer| timer.waker != cancelled);
            }
            let range = 1u64 << (1 + next(&mut state) % 16);
            let elapsed = next(&mut state) % range;
            if !expected.is_empty() {
                now += elapsed;
            }
            let (mut woken, deadline) = timer.try_spin_and_get_deadline(elapsed);
            woken.sort();
            let due: Vec<u64> =
                expected.iter().filter(|timer| timer.at <= now).map(|timer| timer.waker).collect();
            assert_eq!(woken, due);
            expected.retain(|timer| timer.at > now);
            assert_eq!(timer.now(), now);
            for timer in expected.iter_mut() {
                if timer.unit() > 1 && timer.slot() <= now / timer.unit() + 1 {
                    timer.placed = now;
                }
            }
            let nearest = expected
                .iter()
                .filter(|timer| timer.slot() - now / timer.unit() < 127)
                .map(|timer| (timer.unit(), timer.slot()))
                .min();
            let told = match nearest {
                Some((unit, slot)) => Some(Some(slot * unit - now)),
                None if expected.is_empty() => Some(None),
                None => None,
            };
            assert_eq!(deadline, told);
        }
    }
}

#[test]
fn lone_timers_fire_on_time() {
    let mut state = 7;
    let mut lengths: Vec<u64> = (1..9000).collect();
    for _ in 0..3000 {
        let range = 1u64 << (10 + next(&mut state) % 30);
        lengths.push(1 + next(&mut state) % range);
    }
    for millis in lengths {
        let mut timer = Timer::new();
        let _ = timer.submit(1 + next(&mut state) % 100, 0);
        let _ = timer.try_spin_and_get_deadline(next(&mut state) % 200);
        let start = timer.now();
        let _ = timer.submit(millis, 1);
        let mut fired = false;
        while timer.now() < start + millis {
            let (_, deadline) = timer.try_spin_and_get_deadline(0);
            let step = match deadline {
                Some(Some(step)) => step,
                // Where the nearest timer is not told, a little time passes.
                _ => 1 + millis / 200,
            };
            let step = step.min(start + millis - timer.now());
            let (woken, _) = timer.try_spin_and_get_deadline(step);
            fired = fired || woken.contains(&1);
            assert_eq!(fired, timer.now() >= start + millis);
        }
        assert!(fired);
    }
}
