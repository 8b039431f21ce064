//! Waiting for time to pass.
//!
//! A timer wakes the task that set it like any other wake, so a task that is looked at again after
//! it has set its timer counts as woken by it.

use crate::timer::{Timer, Waiting};
use vstd::prelude::*;

verus! {

/// What looking at a sleep came to.
#[derive(Clone, Copy, Debug, PartialEq, Eq, Structural)]
pub enum SleepPoll {
    /// The sleep is over.
    Ready,
    /// The sleep goes on, and the timer wakes the task.
    Pending,
    /// The sleep goes on, but is too short for a timer: the task has to be woken at once.
    WakeNow,
}

/// How far a sleep has come.
pub enum SleepStage {
    /// No timer has been set.
    Unset,
    /// The task waits for this timer.
    Waiting(tm_wheel::TimerHandle),
    /// The task was to be woken at once, or the sleep is over.
    Fired,
}

/// A sleep of so many milliseconds.
pub struct Sleep {
    millis: u64,
    stage: SleepStage,
}

impl Sleep {
    /// How long the sleep is.
    pub closed spec fn millis(&self) -> u64 {
        self.millis
    }

    /// How far the sleep has come.
    pub closed spec fn stage(&self) -> SleepStage {
        self.stage
    }

    /// A sleep that has not begun.
    pub fn new(millis: u64) -> (sleep: Sleep)
        ensures
            sleep.millis() == millis,
            sleep.stage() is Unset,
    {
        Sleep { millis, stage: SleepStage::Unset }
    }

    /// Whether the sleep needs a timer when it is looked at next, and of how many milliseconds.
    pub fn needs_timer(&self) -> (millis: Option<u64>)
        ensures
            millis == (if self.stage() is Unset {
                Some(self.millis())
            } else {
                None
            }),
    {
        match self.stage {
            SleepStage::Unset => Some(self.millis),
            _ => None,
        }
    }

    /// Looks at the sleep: the first time it sets a timer for `waker`, after that it is over.
    pub fn poll(&mut self, timer: &mut Timer, waker: u64) -> (polled: SleepPoll)
        requires
            old(timer).wf(),
            old(self).stage() is Unset && old(self).millis() >= 1 ==> old(timer).has_room(
                old(self).millis(),
            ),
        ensures
            final(timer).wf(),
            final(timer).time() == old(timer).time(),
            final(self).millis() == old(self).millis(),
            match old(self).stage() {
                SleepStage::Unset => if old(self).millis() < 1 {
                    &&& polled == SleepPoll::WakeNow
                    &&& final(self).stage() is Fired
                    &&& final(timer).timers() == old(timer).timers()
                } else {
                    &&& polled == SleepPoll::Pending
                    &&& final(self).stage() matches SleepStage::Waiting(handle)
                    &&& !old(timer).timers().contains_key(handle)
                    &&& final(timer).timers() == old(timer).timers().insert(
                        handle,
                        (Waiting {
                            waker,
                            expires_at: (old(timer).time() + old(self).millis()) as u64,
                            placed_at: old(timer).time(),
                        }),
                    )
                },
                _ => polled == SleepPoll::Ready && final(self).stage() is Fired
                    && final(timer).timers() == old(timer).timers(),
            },
    {
        match self.stage {
            SleepStage::Unset => {
                match timer.submit(self.millis, waker) {
                    Some(handle) => {
                        self.stage = SleepStage::Waiting(handle);
                        SleepPoll::Pending
                    },
                    None => {
                        self.stage = SleepStage::Fired;
                        SleepPoll::WakeNow
                    },
                }
            },
            _ => {
                self.stage = SleepStage::Fired;
                SleepPoll::Ready
            },
        }
    }

    /// Gives the sleep up: a timer that it waits for is called off.
    pub fn cancel(self, timer: &mut Timer)
        requires
            old(timer).wf(),
        ensures
            final(timer).wf(),
            final(timer).time() == old(timer).time(),
            final(timer).timers() == (match self.stage() {
                SleepStage::Waiting(handle) => old(timer).timers().remove(handle),
                _ => old(timer).timers(),
            }),
    {
        if let SleepStage::Waiting(handle) = self.stage {
            timer.cancel(handle);
        }
    }
}

/// A sleep of so many milliseconds.
pub fn sleep(millis: u64) -> (sleep: Sleep)
    ensures
        sleep.millis() == millis,
        sleep.stage() is Unset,
{
    Sleep::new(millis)
}

/// A sleep that is given up leaves the timers as they were before it set its own.
pub proof fn law_sleep_given_up_leaves_timers(
    timers: Map<tm_wheel::TimerHandle, Waiting>,
    handle: tm_wheel::TimerHandle,
    timer: Waiting,
)
    requires
        !timers.contains_key(handle),
    ensures
        timers.insert(handle, timer).remove(handle) == timers,
{
    assert(timers.insert(handle, timer).remove(handle) =~= timers);
}

/// A sleep that has not begun needs a timer of its length, and no other sleep needs one.
pub proof fn law_sleep_needs_one_timer(millis: u64, sleeping: Sleep, needed: Option<u64>)
    requires
        call_ensures(Sleep::needs_timer, (&sleeping,), needed),
    ensures
        needed is Some <==> sleeping.stage() is Unset,
        needed matches Some(time) ==> time == sleeping.millis(),
        call_ensures(sleep, (millis,), sleeping) || call_ensures(Sleep::new, (millis,), sleeping)
            ==> needed == Some(millis),
{
}

/// Looking at a sleep for the first time sets one timer, which wakes the task after exactly the
/// sleep's length; a sleep of no length has the task woken at once, and sets none. Looking again
/// finds it over. Other timers stay.
pub proof fn law_sleep_lasts_its_length(
    sleeping: &mut Sleep,
    timer: &mut Timer,
    waker: u64,
    polled: SleepPoll,
)
    requires
        old(sleeping).stage() is Unset && old(sleeping).millis() >= 1 ==> old(timer).has_room(
            old(sleeping).millis(),
        ),
        call_ensures(Sleep::poll, (sleeping, timer, waker), polled),
    ensures
        final(sleeping).millis() == old(sleeping).millis(),
        final(timer).time() == old(timer).time(),
        polled is Pending <==> old(sleeping).stage() is Unset && old(sleeping).millis() > 0,
        polled is WakeNow <==> old(sleeping).stage() is Unset && old(sleeping).millis() == 0,
        polled is Ready <==> !(old(sleeping).stage() is Unset),
        !(final(sleeping).stage() is Unset),
        !(polled is Pending) ==> final(timer).timers() == old(timer).timers(),
        polled is Pending ==> final(sleeping).stage() is Waiting && ({
            let handle = final(sleeping).stage()->Waiting_0;
            let set = final(timer).timers()[handle];
            &&& !old(timer).timers().contains_key(handle)
            &&& final(timer).timers().contains_key(handle)
            &&& final(timer).timers().remove(handle) == old(timer).timers()
            &&& set.waker == waker
            &&& set.expires_at == old(timer).time() + old(sleeping).millis()
        }),
{
    if polled is Pending {
        let handle = final(sleeping).stage()->Waiting_0;
        assert(final(timer).timers().remove(handle) =~= old(timer).timers());
    }
}

/// A sleep that is given up takes its own timer with it, and no other.
pub proof fn law_sleep_given_up_takes_its_timer(sleeping: Sleep, timer: &mut Timer)
    requires
        call_ensures(Sleep::cancel, (sleeping, timer), ()),
    ensures
        final(timer).time() == old(timer).time(),
        sleeping.stage() matches SleepStage::Waiting(handle)
            ==> !final(timer).timers().contains_key(handle)
            && final(timer).timers() == old(timer).timers().remove(
            handle,
        ),
        !(sleeping.stage() is Waiting) ==> final(timer).timers() == old(timer).timers(),
{
}

} // verus!
