//! Timers, in milliseconds.
//!
//! The timers wait in a hierarchical timing wheel of seven levels. The caller reads the clock and
//! says how much time has passed.
//!
//! A level has slots for 128 units of time: of one millisecond in the lowest level, and of 64
//! times as much in each level above. A timer stands in the lowest level that reaches far enough,
//! and moves down when its slot comes near.

use vstd::prelude::*;

verus! {

/// The wheel holds no timer that is this far away, or farther.
pub const EXPIRATION_LIMIT: u64 = 0x800_0000_0000;

/// A handle to a timer of the crate `tm_wheel`.
#[verifier::external_type_specification]
#[verifier::external_body]
pub struct ExTimerHandle(tm_wheel::TimerHandle);

/// A timing wheel of the crate `tm_wheel`. A timer carries the waker to wake, and a serial number.
#[verifier::external_body]
pub struct Wheel {
    inner: tm_wheel::TimerDriver<(u64, u64), 7, 64>,
}

/// A timer that waits.
pub struct Waiting {
    /// The waker to wake.
    pub waker: u64,
    /// The time at which it expires.
    pub expires_at: u64,
    /// The time at which it came to the slot that it stands in.
    pub placed_at: u64,
}

/// The timers that a wheel holds: for each handle the serial number and the timer.
pub uninterp spec fn wheel_timers(wheel: Wheel) -> Map<tm_wheel::TimerHandle, (u64, Waiting)>;

/// The time that a wheel has reached.
pub uninterp spec fn wheel_time(wheel: Wheel) -> u64;

/// The unit of time of the level in which a timer stands that was so far away when it came there.
pub open spec fn unit(distance: int) -> int {
    if distance < 0x80 {
        1
    } else if distance < 0x2000 {
        0x40
    } else if distance < 0x8_0000 {
        0x1000
    } else if distance < 0x200_0000 {
        0x4_0000
    } else if distance < 0x8000_0000 {
        0x100_0000
    } else if distance < 0x20_0000_0000 {
        0x4000_0000
    } else {
        0x10_0000_0000
    }
}

/// The slot in which a timer stands that came there at this time, counted from time 0 in units of
/// its level.
pub open spec fn slot(expires_at: u64, placed_at: u64) -> int {
    let size = unit(expires_at - placed_at);
    placed_at as int / size + (expires_at - placed_at) / size
}

impl Waiting {
    /// The unit of time of the level in which the timer stands.
    pub open spec fn unit(self) -> int {
        unit(self.expires_at - self.placed_at)
    }

    /// The slot in which the timer stands, counted from time 0 in units of its level.
    pub open spec fn slot(self) -> int {
        slot(self.expires_at, self.placed_at)
    }

    /// Whether the wheel sees the timer when it looks for the nearest: it looks at all slots of a
    /// level but the farthest.
    pub open spec fn seen(self, now: u64) -> bool {
        self.slot() - now as int / self.unit() < 127
    }

    /// Whether the wheel finds this timer before another, or with it: in a lower level, or in the
    /// same level and no later slot.
    pub open spec fn found_before(self, other: Waiting) -> bool {
        self.unit() < other.unit() || (self.unit() == other.unit() && self.slot() <= other.slot())
    }

    /// The timer once a later time is reached: where its slot is the current one or the next, it
    /// has moved down.
    pub open spec fn at(self, now: u64) -> Waiting {
        if self.unit() > 1 && self.slot() <= now as int / self.unit() + 1 {
            Waiting { placed_at: now, ..self }
        } else {
            self
        }
    }
}

/// Calls `tm_wheel::TimerDriverBase::new`: the new wheel is empty, and its time is 0.
#[verifier::external_body]
fn wheel_new() -> (created: Wheel)
    ensures
        wheel_timers(created).dom() == Set::<tm_wheel::TimerHandle>::empty(),
        wheel_time(created) == 0,
{
    Wheel { inner: tm_wheel::TimerDriver::new(slab::Slab::new()) }
}

/// Calls `tm_wheel::TimerDriverBase::now`: the time that the wheel has reached.
#[verifier::external_body]
fn wheel_now(wheel: &Wheel) -> (now: u64)
    ensures
        now == wheel_time(*wheel),
{
    wheel.inner.now()
}

/// Calls `tm_wheel::TimerDriverBase::is_empty`: whether the wheel holds no timer.
#[verifier::external_body]
fn wheel_is_empty(wheel: &Wheel) -> (empty: bool)
    ensures
        empty == (forall|handle: tm_wheel::TimerHandle|
            !(#[trigger] wheel_timers(*wheel).contains_key(handle))),
{
    wheel.inner.is_empty()
}

/// Calls `tm_wheel::TimerDriverBase::insert`: the wheel holds one timer more, under a handle that
/// none of its timers has, and placed now.
///
/// A timer that is too far away for the highest level, and one too many to be indexed by 32 bits,
/// make the call panic, so both are left out.
#[verifier::external_body]
fn wheel_insert(wheel: &mut Wheel, waker: u64, serial: u64, expires_at: u64) -> (handle:
    tm_wheel::TimerHandle)
    requires
        wheel_time(*old(wheel)) < expires_at,
        expires_at - wheel_time(*old(wheel)) < EXPIRATION_LIMIT,
        wheel_timers(*old(wheel)).len() < u32::MAX,
    ensures
        wheel_time(*final(wheel)) == wheel_time(*old(wheel)),
        !wheel_timers(*old(wheel)).contains_key(handle),
        wheel_timers(*final(wheel)) == wheel_timers(*old(wheel)).insert(
            handle,
            (serial, (Waiting { waker, expires_at, placed_at: wheel_time(*old(wheel)) })),
        ),
{
    wheel.inner.insert((waker, serial), expires_at)
}

/// Calls `tm_wheel::TimerDriverBase::remove`: takes out the timer of a handle, if the wheel holds
/// it, and gives its waker and its serial number.
#[verifier::external_body]
fn wheel_remove(wheel: &mut Wheel, handle: tm_wheel::TimerHandle) -> (timer: Option<(u64, u64)>)
    ensures
        wheel_time(*final(wheel)) == wheel_time(*old(wheel)),
        wheel_timers(*final(wheel)) == wheel_timers(*old(wheel)).remove(handle),
        timer == (if wheel_timers(*old(wheel)).contains_key(handle) {
            let (serial, waiting) = wheel_timers(*old(wheel))[handle];
            Some((waiting.waker, serial))
        } else {
            None
        }),
{
    wheel.inner.remove(handle)
}

/// Calls `tm_wheel::TimerDriverBase::advance` and takes everything out of the iterator that it
/// gives: the timers that have expired by the new time, each once, in no particular order. The
/// others stay, and those whose slot has come near have moved down.
#[verifier::external_body]
fn wheel_advance(wheel: &mut Wheel, elapsed: u64) -> (woken: Vec<u64>)
    requires
        wheel_time(*old(wheel)) + elapsed <= u64::MAX,
    ensures
        wheel_time(*final(wheel)) == wheel_time(*old(wheel)) + elapsed,
        wheel_timers(*final(wheel)) == advanced(
            wheel_timers(*old(wheel)),
            wheel_time(*final(wheel)),
        ),
        woken_by(woken@, waiting(wheel_timers(*old(wheel))), wheel_time(*final(wheel))),
{
    wheel.inner.advance(elapsed).map(|timer| timer.0).collect()
}

/// Calls `tm_wheel::TimerDriverBase::nearest_wakeup`: the time at which the slot of the nearest
/// timer begins, if the wheel holds a timer. That time is still to come. The nearest timer is the
/// first that the wheel sees from the lowest level upwards; one in a higher level may expire
/// before it.
///
/// The call looks at all slots of each level but the farthest, and panics where it finds nothing,
/// so one timer has to be where it looks.
#[verifier::external_body]
fn wheel_nearest_wakeup(wheel: &mut Wheel) -> (time: Option<u64>)
    requires
        told(waiting(wheel_timers(*old(wheel))), wheel_time(*old(wheel))),
    ensures
        wheel_time(*final(wheel)) == wheel_time(*old(wheel)),
        wheel_timers(*final(wheel)) == wheel_timers(*old(wheel)),
        match time {
            Some(time) => wheel_time(*old(wheel)) < time && wakeup_at(
                time,
                waiting(wheel_timers(*old(wheel))),
                wheel_time(*old(wheel)),
            ),
            None => forall|handle: tm_wheel::TimerHandle|
                !(#[trigger] wheel_timers(*old(wheel)).contains_key(handle)),
        },
{
    wheel.inner.nearest_wakeup().map(|time| time.get())
}

/// The timers without their serial numbers.
pub open spec fn waiting(timers: Map<tm_wheel::TimerHandle, (u64, Waiting)>) -> Map<
    tm_wheel::TimerHandle,
    Waiting,
> {
    timers.map_values(|timer: (u64, Waiting)| timer.1)
}

/// The timers, with their serial numbers, once a later time is reached.
pub open spec fn advanced(
    timers: Map<tm_wheel::TimerHandle, (u64, Waiting)>,
    now: u64,
) -> Map<tm_wheel::TimerHandle, (u64, Waiting)> {
    Map::new(
        |handle: tm_wheel::TimerHandle|
            timers.contains_key(handle) && timers[handle].1.expires_at > now,
        |handle: tm_wheel::TimerHandle| (timers[handle].0, timers[handle].1.at(now)),
    )
}

/// The timers once a later time is reached: those that have expired are gone.
pub open spec fn unexpired(timers: Map<tm_wheel::TimerHandle, Waiting>, now: u64) -> Map<
    tm_wheel::TimerHandle,
    Waiting,
> {
    Map::new(
        |handle: tm_wheel::TimerHandle|
            timers.contains_key(handle) && timers[handle].expires_at > now,
        |handle: tm_wheel::TimerHandle| timers[handle].at(now),
    )
}

/// Whether `woken` are the wakers of the timers that have expired by `now`, each timer once.
pub open spec fn woken_by(
    woken: Seq<u64>,
    timers: Map<tm_wheel::TimerHandle, Waiting>,
    now: u64,
) -> bool {
    exists|fired: Seq<tm_wheel::TimerHandle>| #[trigger]
        are_expired(fired, timers, now) && woken == fired.map_values(
            |handle: tm_wheel::TimerHandle| timers[handle].waker,
        )
}

/// Whether `fired` are the timers that have expired by `now`, each once.
pub open spec fn are_expired(
    fired: Seq<tm_wheel::TimerHandle>,
    timers: Map<tm_wheel::TimerHandle, Waiting>,
    now: u64,
) -> bool {
    &&& fired.no_duplicates()
    &&& forall|handle: tm_wheel::TimerHandle| #[trigger]
        fired.contains(handle) <==> timers.contains_key(handle) && timers[handle].expires_at
            <= now
}

/// Whether the wheel can tell when to look at it again: it is empty, or it sees a timer.
pub open spec fn told(timers: Map<tm_wheel::TimerHandle, Waiting>, now: u64) -> bool {
    ||| forall|handle: tm_wheel::TimerHandle| !(#[trigger] timers.contains_key(handle))
    ||| exists|handle: tm_wheel::TimerHandle| #[trigger]
        timers.contains_key(handle) && timers[handle].seen(now)
}

/// Whether a timer is the nearest that the wheel sees.
pub open spec fn is_nearest(
    handle: tm_wheel::TimerHandle,
    timers: Map<tm_wheel::TimerHandle, Waiting>,
    now: u64,
) -> bool {
    &&& timers.contains_key(handle)
    &&& timers[handle].seen(now)
    &&& forall|other: tm_wheel::TimerHandle| #[trigger]
        timers.contains_key(other) && timers[other].seen(now) ==> timers[handle].found_before(
            timers[other],
        )
}

/// Whether the slot of the nearest timer begins at this time.
pub open spec fn wakeup_at(
    time: u64,
    timers: Map<tm_wheel::TimerHandle, Waiting>,
    now: u64,
) -> bool {
    exists|handle: tm_wheel::TimerHandle| #[trigger]
        is_nearest(handle, timers, now) && time == timers[handle].slot() * timers[handle].unit()
}

/// The time after a spin: with no timer waiting, it stands still.
pub open spec fn spun_time(
    timers: Map<tm_wheel::TimerHandle, Waiting>,
    now: u64,
    elapsed: u64,
) -> u64 {
    if forall|handle: tm_wheel::TimerHandle| !(#[trigger] timers.contains_key(handle)) {
        now
    } else {
        (now + elapsed) as u64
    }
}

/// Whether `deadline` is the time until the slot of the nearest timer begins. There is one just if
/// a timer waits, and it is not 0.
pub open spec fn deadline_of(
    deadline: Option<u64>,
    timers: Map<tm_wheel::TimerHandle, Waiting>,
    now: u64,
) -> bool {
    match deadline {
        Some(millis) => 0 < millis && now + millis <= u64::MAX && wakeup_at(
            (now + millis) as u64,
            timers,
            now,
        ),
        None => forall|handle: tm_wheel::TimerHandle| !(#[trigger] timers.contains_key(handle)),
    }
}

/// What is noted of a timer: what the wheel keeps to itself.
struct Note {
    serial: u64,
    expires_at: u64,
    placed_at: u64,
}

/// The timers of a runtime.
pub struct Timer {
    wheel: Wheel,
    notes: Vec<Note>,
    next_serial: u64,
    /// The handles of the timers, in the order of the notes.
    handles: Ghost<Seq<tm_wheel::TimerHandle>>,
}

/// Whether a list holds the handles of all timers, each once.
spec fn lists(
    handles: Seq<tm_wheel::TimerHandle>,
    timers: Map<tm_wheel::TimerHandle, (u64, Waiting)>,
) -> bool {
    &&& handles.no_duplicates()
    &&& forall|handle: tm_wheel::TimerHandle| #[trigger]
        handles.contains(handle) <==> timers.contains_key(handle)
}

/// Whether a note is right about a timer.
spec fn notes(note: Note, timer: (u64, Waiting)) -> bool {
    &&& note.serial == timer.0
    &&& note.expires_at == timer.1.expires_at
    &&& note.placed_at == timer.1.placed_at
}

impl Timer {
    /// The timers that wait.
    pub closed spec fn timers(&self) -> Map<tm_wheel::TimerHandle, Waiting> {
        waiting(wheel_timers(self.wheel))
    }

    /// The time that the timers have reached.
    pub closed spec fn time(&self) -> u64 {
        wheel_time(self.wheel)
    }

    /// How many timers wait.
    pub closed spec fn count(&self) -> nat {
        self.notes@.len()
    }

    /// How many timers have been set.
    pub closed spec fn total(&self) -> u64 {
        self.next_serial
    }

    /// Whether the wheel has room for a timer that expires in so many milliseconds.
    pub open spec fn has_room(&self, millis: u64) -> bool {
        &&& millis < EXPIRATION_LIMIT
        &&& self.time() + millis <= u64::MAX
        &&& self.count() < u32::MAX
        &&& self.total() < u64::MAX
    }

    /// Every timer is still to come, and there is a note of each, under a number of its own.
    pub closed spec fn wf(&self) -> bool {
        let timers = wheel_timers(self.wheel);
        &&& forall|handle: tm_wheel::TimerHandle| #[trigger]
            timers.contains_key(handle) ==> timers[handle].1.placed_at <= self.time()
                < timers[handle].1.expires_at && timers[handle].0 < self.next_serial
        &&& lists(self.handles@, timers)
        &&& self.handles@.len() == self.notes@.len()
        &&& forall|i: int|
            0 <= i < self.notes@.len() ==> notes(
                #[trigger] self.notes@[i],
                timers[self.handles@[i]],
            )
        &&& forall|i: int, j: int|
            0 <= i < j < self.notes@.len() ==> (#[trigger] self.notes@[i]).serial != (
            #[trigger] self.notes@[j]).serial
    }

    /// The count is that of the timers that wait.
    pub proof fn law_count_is_of_timers(&self)
        requires
            self.wf(),
        ensures
            self.count() == self.timers().len(),
            self.timers().dom().finite(),
    {
        let timers = wheel_timers(self.wheel);
        lemma_count(self.handles@, timers);
        assert(self.timers().dom() =~= timers.dom());
    }

    /// Every timer that waits is still to come, and stands in a slot since no later than now.
    pub proof fn law_timers_are_to_come(&self)
        requires
            self.wf(),
        ensures
            forall|handle: tm_wheel::TimerHandle| #[trigger]
                self.timers().contains_key(handle) ==> self.timers()[handle].placed_at
                    <= self.time() < self.timers()[handle].expires_at,
    {
    }

    /// No timers, at time 0.
    pub fn new() -> (timer: Timer)
        ensures
            timer.wf(),
            timer.timers() == Map::<tm_wheel::TimerHandle, Waiting>::empty(),
            timer.time() == 0,
            timer.count() == 0,
            timer.total() == 0,
    {
        let timer = Timer {
            wheel: wheel_new(),
            notes: Vec::new(),
            next_serial: 0,
            handles: Ghost(Seq::empty()),
        };
        assert(timer.timers() =~= Map::<tm_wheel::TimerHandle, Waiting>::empty());
        timer
    }

    /// Whether the wheel has room for a timer that expires in so many milliseconds.
    pub fn accepts(&self, millis: u64) -> (accepted: bool)
        ensures
            accepted == self.has_room(millis),
    {
        let now = wheel_now(&self.wheel);
        millis < EXPIRATION_LIMIT && millis <= u64::MAX - now && (self.notes.len() as u64)
            < 0xffff_ffff && self.next_serial < u64::MAX
    }

    /// Sets a timer that wakes `waker` in so many milliseconds. Without a single whole
    /// millisecond there is no timer: the caller wakes the waker at once.
    pub fn submit(&mut self, millis: u64, waker: u64) -> (handle: Option<tm_wheel::TimerHandle>)
        requires
            old(self).wf(),
            millis >= 1 ==> old(self).has_room(millis),
        ensures
            final(self).wf(),
            final(self).time() == old(self).time(),
            match handle {
                None => millis < 1 && *final(self) == *old(self),
                Some(handle) => {
                    &&& millis >= 1
                    &&& !old(self).timers().contains_key(handle)
                    &&& final(self).timers() == old(self).timers().insert(
                        handle,
                        (Waiting {
                            waker,
                            expires_at: (old(self).time() + millis) as u64,
                            placed_at: old(self).time(),
                        }),
                    )
                    &&& final(self).count() == old(self).count() + 1
                    &&& final(self).total() == old(self).total() + 1
                },
            },
    {
        if millis < 1 {
            return None;
        }
        let now = wheel_now(&self.wheel);
        let expires_at = now + millis;
        let serial = self.next_serial;
        let ghost timers = wheel_timers(self.wheel);
        let ghost before = self.handles@;
        proof {
            lemma_count(before, timers);
        }
        let handle = wheel_insert(&mut self.wheel, waker, serial, expires_at);
        self.next_serial = serial + 1;
        self.notes.push(Note { serial, expires_at, placed_at: now });
        proof {
            self.handles@ = before.push(handle);
            let after = self.handles@;
            let now_timers = wheel_timers(self.wheel);
            assert(!before.contains(handle));
            assert forall|other: tm_wheel::TimerHandle| #[trigger]
                after.contains(other) <==> now_timers.contains_key(other) by {
                if before.contains(other) {
                    let i = choose|i: int| 0 <= i < before.len() && before[i] == other;
                    assert(after[i] == other);
                }
                assert(after[before.len() as int] == handle);
            }
            assert forall|i: int| 0 <= i < self.notes@.len() implies notes(
                #[trigger] self.notes@[i],
                now_timers[after[i]],
            ) by {
                if i < before.len() {
                    assert(before.contains(before[i]));
                    assert(notes(old(self).notes@[i], timers[before[i]]));
                }
            }
            assert forall|i: int, j: int| 0 <= i < j < self.notes@.len() implies (
            #[trigger] self.notes@[i]).serial != (#[trigger] self.notes@[j]).serial by {
                assert(before.contains(before[i]));
                assert(notes(old(self).notes@[i], timers[before[i]]));
            }
            assert(self.timers() =~= old(self).timers().insert(
                handle,
                Waiting { waker, expires_at, placed_at: now },
            ));
        }
        Some(handle)
    }

    /// Calls a timer off. One that has fired, or that was called off, is none of the timers.
    pub fn cancel(&mut self, handle: tm_wheel::TimerHandle)
        requires
            old(self).wf(),
        ensures
            final(self).wf(),
            final(self).time() == old(self).time(),
            final(self).timers() == old(self).timers().remove(handle),
            final(self).count() == (if old(self).timers().contains_key(handle) {
                old(self).count() - 1
            } else {
                old(self).count() as int
            }),
            final(self).total() == old(self).total(),
    {
        let ghost handles = self.handles@;
        let ghost timers = wheel_timers(self.wheel);
        let removed = wheel_remove(&mut self.wheel, handle);
        assert(self.timers() =~= old(self).timers().remove(handle));
        match removed {
            None => {
                assert(wheel_timers(self.wheel) =~= timers);
            },
            Some((_, serial)) => {
                assert(handles.contains(handle));
                let ghost at = choose|i: int| 0 <= i < handles.len() && handles[i] == handle;
                assert(notes(self.notes@[at], timers[handles[at]]));
                let mut index: usize = 0;
                while index < self.notes.len() && self.notes[index].serial != serial
                    invariant
                        index <= at < self.notes@.len(),
                        self.notes@[at].serial == serial,
                        self.notes@ == old(self).notes@,
                        self.handles@ == handles,
                        self.next_serial == old(self).next_serial,
                        wheel_timers(self.wheel) == timers.remove(handle),
                        wheel_time(self.wheel) == wheel_time(old(self).wheel),
                    decreases self.notes@.len() - index,
                {
                    index = index + 1;
                }
                assert(index == at);
                let _ = self.notes.remove(index);
                proof {
                    self.handles@ = handles.remove(at);
                    lemma_removed(handles, at);
                    let after = self.handles@;
                    assert forall|other: tm_wheel::TimerHandle| #[trigger]
                        after.contains(other) <==> wheel_timers(self.wheel).contains_key(other) by {
                        assert(handles.contains(other) <==> timers.contains_key(other));
                    }
                    assert forall|i: int| 0 <= i < self.notes@.len() implies notes(
                        #[trigger] self.notes@[i],
                        wheel_timers(self.wheel)[after[i]],
                    ) by {
                        let j = if i < at {
                            i
                        } else {
                            i + 1
                        };
                        assert(notes(old(self).notes@[j], timers[handles[j]]));
                        assert(handles[j] != handles[at]);
                    }
                }
            },
        }
    }

    /// Lets time pass, unless no timer waits, and gives the wakers of the timers that expired, in
    /// no particular order.
    fn spin(&mut self, elapsed: u64) -> (woken: Vec<u64>)
        requires
            old(self).wf(),
            old(self).time() + elapsed <= u64::MAX,
        ensures
            final(self).wf(),
            final(self).time() == spun_time(old(self).timers(), old(self).time(), elapsed),
            final(self).timers() == unexpired(old(self).timers(), final(self).time()),
            final(self).count() == final(self).timers().len(),
            final(self).count() <= old(self).count(),
            final(self).total() == old(self).total(),
            woken_by(woken@, old(self).timers(), final(self).time()),
    {
        let ghost timers = wheel_timers(self.wheel);
        let ghost handles = self.handles@;
        if wheel_is_empty(&self.wheel) {
            let woken: Vec<u64> = Vec::new();
            assert forall|handle: tm_wheel::TimerHandle|
                !(#[trigger] self.timers().contains_key(handle)) by {
                assert(!timers.contains_key(handle));
            }
            assert(self.timers() =~= unexpired(self.timers(), self.time()));
            let ghost none = Seq::<tm_wheel::TimerHandle>::empty();
            assert(are_expired(none, self.timers(), self.time()));
            assert(woken@ =~= none.map_values(
                |handle: tm_wheel::TimerHandle| self.timers()[handle].waker,
            ));
            proof {
                self.law_count_is_of_timers();
            }
            return woken;
        }
        assert(exists|handle: tm_wheel::TimerHandle| #[trigger]
            self.timers().contains_key(handle)) by {
            let handle = choose|handle: tm_wheel::TimerHandle| #[trigger]
                timers.contains_key(handle);
            assert(self.timers().contains_key(handle));
        }
        let woken = wheel_advance(&mut self.wheel, elapsed);
        let now = wheel_now(&self.wheel);
        assert(self.timers() =~= unexpired(old(self).timers(), now));
        let mut kept: Vec<Note> = Vec::new();
        let ghost mut kept_handles = Seq::<tm_wheel::TimerHandle>::empty();
        let mut index: usize = 0;
        while index < self.notes.len()
            invariant
                index <= self.notes@.len(),
                kept@.len() <= index,
                self.notes@ == old(self).notes@,
                handles == old(self).handles@,
                timers == wheel_timers(old(self).wheel),
                wheel_time(old(self).wheel) <= now,
                old(self).wf(),
                kept@.len() == kept_handles.len(),
                kept_handles.no_duplicates(),
                forall|handle: tm_wheel::TimerHandle| #[trigger]
                    kept_handles.contains(handle) <==> timers.contains_key(handle)
                        && timers[handle].1.expires_at > now && handles.take(
                        index as int,
                    ).contains(handle),
                forall|i: int|
                    0 <= i < kept@.len() ==> notes(
                        #[trigger] kept@[i],
                        advanced(timers, now)[kept_handles[i]],
                    ),
                forall|i: int|
                    0 <= i < kept@.len() ==> exists|j: int|
                        0 <= j < index && (#[trigger] kept@[i]).serial == (
                        #[trigger] old(self).notes@[j]).serial,
                forall|i: int, j: int|
                    0 <= i < j < kept@.len() ==> (#[trigger] kept@[i]).serial != (
                    #[trigger] kept@[j]).serial,
            decreases self.notes@.len() - index,
        {
            let ghost handle = handles[index as int];
            let ghost before = kept_handles;
            let ghost kept_before = kept@;
            assert(handles.contains(handle));
            let note = &self.notes[index];
            assert(notes(old(self).notes@[index as int], timers[handle]));
            assert(handles.take(index + 1) =~= handles.take(index as int).push(handle));
            if note.expires_at > now {
                let placed_at = place_at(note.expires_at, note.placed_at, now);
                kept.push(Note { serial: note.serial, expires_at: note.expires_at, placed_at });
                proof {
                    kept_handles = before.push(handle);
                    assert(!before.contains(handle)) by {
                        if before.contains(handle) {
                            assert(handles.take(index as int).contains(handle));
                            let j = choose|j: int|
                                0 <= j < index && handles.take(index as int)[j] == handle;
                            assert(handles[j] == handle);
                        }
                    }
                    assert(advanced(timers, now).contains_key(handle));
                    assert(notes(kept@[kept@.len() - 1], advanced(timers, now)[handle]));
                    assert(kept@[kept@.len() - 1].serial == old(self).notes@[index as int].serial);
                    assert forall|i: int, j: int| 0 <= i < j < kept@.len() implies (
                    #[trigger] kept@[i]).serial != (#[trigger] kept@[j]).serial by {
                        assert(kept@[i] == kept_before[i]);
                        if j == kept_before.len() {
                            let k = choose|k: int|
                                0 <= k < index && kept_before[i].serial == (
                                #[trigger] old(self).notes@[k]).serial;
                            assert(old(self).notes@[k].serial != old(self).notes@[index as int].serial);
                        } else {
                            assert(kept@[j] == kept_before[j]);
                        }
                    }
                    assert forall|i: int| 0 <= i < kept@.len() implies exists|j: int|
                        0 <= j < index + 1 && (#[trigger] kept@[i]).serial == (
                        #[trigger] old(self).notes@[j]).serial by {
                        if i < kept_before.len() {
                            assert(kept@[i] == kept_before[i]);
                            let k = choose|k: int|
                                0 <= k < index && kept_before[i].serial == (
                                #[trigger] old(self).notes@[k]).serial;
                            assert(old(self).notes@[k].serial == kept@[i].serial);
                        }
                    }
                }
            }
            assert forall|other: tm_wheel::TimerHandle| #[trigger]
                kept_handles.contains(other) <==> timers.contains_key(other)
                    && timers[other].1.expires_at > now && handles.take(index + 1).contains(
                    other,
                ) by {
                let taken = handles.take(index as int);
                lemma_pushed(taken, handle, other);
                lemma_pushed(before, handle, other);
                assert(before.contains(other) <==> timers.contains_key(other)
                    && timers[other].1.expires_at > now && taken.contains(other));
            }
            index = index + 1;
        }
        self.notes = kept;
        proof {
            self.handles@ = kept_handles;
            assert(handles.take(handles.len() as int) =~= handles);
            assert forall|other: tm_wheel::TimerHandle| #[trigger]
                kept_handles.contains(other) <==> wheel_timers(self.wheel).contains_key(other) by {
                assert(handles.contains(other) <==> timers.contains_key(other));
            }
            self.law_count_is_of_timers();
        }
        woken
    }

    /// Whether the wheel can tell when to look at it again.
    fn can_tell(&self) -> (known: bool)
        requires
            self.wf(),
        ensures
            known == told(self.timers(), self.time()),
    {
        let now = wheel_now(&self.wheel);
        let ghost timers = wheel_timers(self.wheel);
        if self.notes.len() == 0 {
            assert forall|handle: tm_wheel::TimerHandle|
                !(#[trigger] self.timers().contains_key(handle)) by {
                assert(!self.handles@.contains(handle));
            }
            return true;
        }
        let mut index: usize = 0;
        while index < self.notes.len()
            invariant
                index <= self.notes@.len(),
                self.wf(),
                now == self.time(),
                timers == wheel_timers(self.wheel),
                forall|i: int|
                    0 <= i < index ==> !timers[#[trigger] self.handles@[i]].1.seen(now),
            decreases self.notes@.len() - index,
        {
            let ghost handle = self.handles@[index as int];
            assert(self.handles@.contains(handle));
            let note = &self.notes[index];
            assert(notes(self.notes@[index as int], timers[handle]));
            if is_seen(note.expires_at, note.placed_at, now) {
                assert(self.timers().contains_key(handle));
                assert(self.timers()[handle].seen(now));
                return true;
            }
            index = index + 1;
        }
        proof {
            assert(self.handles@.contains(self.handles@[0]));
            assert(self.timers().contains_key(self.handles@[0]));
            assert forall|handle: tm_wheel::TimerHandle| #[trigger]
                self.timers().contains_key(handle) implies !self.timers()[handle].seen(now) by {
                assert(self.handles@.contains(handle));
                let i = choose|i: int| 0 <= i < self.handles@.len() && self.handles@[i] == handle;
                assert(!timers[self.handles@[i]].1.seen(now));
            }
        }
        false
    }

    /// Lets time pass, and gives the wakers of the timers that expired, in no particular order,
    /// with the time until the timers have to be looked at again.
    pub fn spin_and_get_deadline(&mut self, elapsed: u64) -> (spun: (Vec<u64>, Option<u64>))
        requires
            old(self).wf(),
            old(self).time() + elapsed <= u64::MAX,
            told(
                unexpired(
                    old(self).timers(),
                    spun_time(old(self).timers(), old(self).time(), elapsed),
                ),
                spun_time(old(self).timers(), old(self).time(), elapsed),
            ),
        ensures
            final(self).wf(),
            final(self).time() == spun_time(old(self).timers(), old(self).time(), elapsed),
            final(self).timers() == unexpired(old(self).timers(), final(self).time()),
            final(self).count() == final(self).timers().len(),
            final(self).count() <= old(self).count(),
            final(self).total() == old(self).total(),
            woken_by(spun.0@, old(self).timers(), final(self).time()),
            deadline_of(spun.1, final(self).timers(), final(self).time()),
    {
        let woken = self.spin(elapsed);
        let deadline = self.deadline();
        (woken, deadline)
    }

    /// The time until the timers have to be looked at again.
    fn deadline(&mut self) -> (deadline: Option<u64>)
        requires
            old(self).wf(),
            told(old(self).timers(), old(self).time()),
        ensures
            final(self).wf(),
            final(self).time() == old(self).time(),
            final(self).timers() == old(self).timers(),
            final(self).count() == old(self).count(),
            final(self).total() == old(self).total(),
            deadline_of(deadline, old(self).timers(), old(self).time()),
    {
        let now = wheel_now(&self.wheel);
        match wheel_nearest_wakeup(&mut self.wheel) {
            Some(time) => Some(time - now),
            None => {
                assert forall|handle: tm_wheel::TimerHandle|
                    !(#[trigger] old(self).timers().contains_key(handle)) by {
                    assert(!wheel_timers(old(self).wheel).contains_key(handle));
                }
                None
            },
        }
    }

    /// Does what [`Timer::spin_and_get_deadline`] does as far as the wheel allows: where it cannot
    /// tell when it has to be looked at again, there is no answer to that.
    pub fn try_spin_and_get_deadline(&mut self, elapsed: u64) -> (spun: (
        Vec<u64>,
        Option<Option<u64>>,
    ))
        requires
            old(self).wf(),
            old(self).time() + elapsed <= u64::MAX,
        ensures
            final(self).wf(),
            final(self).time() == spun_time(old(self).timers(), old(self).time(), elapsed),
            final(self).timers() == unexpired(old(self).timers(), final(self).time()),
            final(self).count() == final(self).timers().len(),
            final(self).count() <= old(self).count(),
            final(self).total() == old(self).total(),
            woken_by(spun.0@, old(self).timers(), final(self).time()),
            match spun.1 {
                Some(deadline) => told(final(self).timers(), final(self).time()) && deadline_of(
                    deadline,
                    final(self).timers(),
                    final(self).time(),
                ),
                None => !told(final(self).timers(), final(self).time()),
            },
    {
        let woken = self.spin(elapsed);
        if self.can_tell() {
            let deadline = self.deadline();
            (woken, Some(deadline))
        } else {
            (woken, None)
        }
    }

    /// The time that the timers have reached.
    pub fn now(&self) -> (now: u64)
        ensures
            now == self.time(),
    {
        wheel_now(&self.wheel)
    }
}

/// The unit of time of the level in which a timer stands that was so far away when it came there.
fn unit_of(distance: u64) -> (size: u64)
    ensures
        size == unit(distance as int),
        size >= 1,
{
    if distance < 0x80 {
        1
    } else if distance < 0x2000 {
        0x40
    } else if distance < 0x8_0000 {
        0x1000
    } else if distance < 0x200_0000 {
        0x4_0000
    } else if distance < 0x8000_0000 {
        0x100_0000
    } else if distance < 0x20_0000_0000 {
        0x4000_0000
    } else {
        0x10_0000_0000
    }
}

/// The slot in which a timer stands that came there at this time.
fn slot_of(expires_at: u64, placed_at: u64) -> (number: u64)
    requires
        placed_at <= expires_at,
    ensures
        number == slot(expires_at, placed_at),
{
    let size = unit_of(expires_at - placed_at);
    let ghost distance = expires_at - placed_at;
    assert(placed_at as int / size as int <= placed_at) by (nonlinear_arith)
        requires
            size >= 1,
    ;
    assert(distance / size as int <= distance) by (nonlinear_arith)
        requires
            size >= 1,
            distance >= 0,
    ;
    placed_at / size + (expires_at - placed_at) / size
}

/// When a timer came to the slot that it stands in once a later time is reached.
fn place_at(expires_at: u64, placed_at: u64, now: u64) -> (place: u64)
    requires
        placed_at <= now < expires_at,
    ensures
        place == (Waiting { waker: 0, expires_at, placed_at }).at(now).placed_at,
{
    let size = unit_of(expires_at - placed_at);
    let number = slot_of(expires_at, placed_at);
    assert(size > 1 ==> now as int / size as int <= now / 2) by (nonlinear_arith)
        requires
            size >= 1,
    ;
    if size > 1 && number <= now / size + 1 {
        now
    } else {
        placed_at
    }
}

/// Whether the wheel sees a timer when it looks for the nearest.
fn is_seen(expires_at: u64, placed_at: u64, now: u64) -> (seen: bool)
    requires
        placed_at <= now < expires_at,
    ensures
        seen == (Waiting { waker: 0, expires_at, placed_at }).seen(now),
{
    let size = unit_of(expires_at - placed_at);
    let number = slot_of(expires_at, placed_at);
    number < 127 || number - 127 < now / size
}

/// There are as many timers as there are handles in a list of them.
proof fn lemma_count(
    handles: Seq<tm_wheel::TimerHandle>,
    timers: Map<tm_wheel::TimerHandle, (u64, Waiting)>,
)
    requires
        lists(handles, timers),
    ensures
        timers.len() == handles.len(),
        timers.dom().finite(),
{
    assert(timers.dom() =~= handles.to_set()) by {
        assert forall|handle: tm_wheel::TimerHandle|
            timers.dom().contains(handle) <==> handles.to_set().contains(handle) by {
            assert(handles.contains(handle) <==> timers.contains_key(handle));
        }
    }
    handles.unique_seq_to_set();
    vstd::seq_lib::seq_to_set_is_finite(handles);
}

/// Dropping what stands at `at` drops it from the list.
proof fn lemma_removed(handles: Seq<tm_wheel::TimerHandle>, at: int)
    requires
        handles.no_duplicates(),
        0 <= at < handles.len(),
    ensures
        handles.remove(at).no_duplicates(),
        forall|handle: tm_wheel::TimerHandle| #[trigger]
            handles.remove(at).contains(handle) <==> handles.contains(handle) && handle
                != handles[at],
{
    let after = handles.remove(at);
    assert forall|i: int, j: int| 0 <= i < j < after.len() implies after[i] != after[j] by {
        let a = if i < at {
            i
        } else {
            i + 1
        };
        let b = if j < at {
            j
        } else {
            j + 1
        };
        assert(handles[a] != handles[b]);
    }
    assert forall|handle: tm_wheel::TimerHandle| #[trigger]
        after.contains(handle) <==> handles.contains(handle) && handle != handles[at] by {
        if after.contains(handle) {
            let i = choose|i: int| 0 <= i < after.len() && after[i] == handle;
            let a = if i < at {
                i
            } else {
                i + 1
            };
            assert(handles[a] == handle);
            assert(handles[a] != handles[at]);
        }
        if handles.contains(handle) && handle != handles[at] {
            let a = choose|a: int| 0 <= a < handles.len() && handles[a] == handle;
            let i = if a < at {
                a
            } else {
                a - 1
            };
            assert(after[i] == handle);
        }
    }
}

/// A list that grew holds what it held, and what came.
proof fn lemma_pushed(
    handles: Seq<tm_wheel::TimerHandle>,
    handle: tm_wheel::TimerHandle,
    other: tm_wheel::TimerHandle,
)
    ensures
        handles.push(handle).contains(other) <==> handles.contains(other) || other == handle,
{
    let after = handles.push(handle);
    if handles.contains(other) {
        let i = choose|i: int| 0 <= i < handles.len() && handles[i] == other;
        assert(after[i] == other);
    }
    assert(after[handles.len() as int] == handle);
}

/// A timer fires in the spin that reaches its time and in no other: it is among those that expired
/// just if its time has come, and then it no longer waits.
pub proof fn law_timer_fires_once(
    timers: Map<tm_wheel::TimerHandle, Waiting>,
    handle: tm_wheel::TimerHandle,
    now: u64,
    fired: Seq<tm_wheel::TimerHandle>,
    later: u64,
    fired_later: Seq<tm_wheel::TimerHandle>,
)
    requires
        timers.contains_key(handle),
        are_expired(fired, timers, now),
        are_expired(fired_later, unexpired(timers, now), later),
    ensures
        fired.contains(handle) <==> timers[handle].expires_at <= now,
        fired.contains(handle) ==> !unexpired(timers, now).contains_key(handle)
            && !fired_later.contains(handle),
        !fired.contains(handle) ==> (fired_later.contains(handle) <==> timers[handle].expires_at
            <= later),
{
}

/// A timer that was called off does not fire, and calling it off changes nothing for the others.
pub proof fn law_cancelled_timer_is_silent(
    timers: Map<tm_wheel::TimerHandle, Waiting>,
    handle: tm_wheel::TimerHandle,
    now: u64,
    fired: Seq<tm_wheel::TimerHandle>,
)
    requires
        are_expired(fired, timers.remove(handle), now),
    ensures
        !fired.contains(handle),
        forall|other: tm_wheel::TimerHandle|
            other != handle ==> (#[trigger] fired.contains(other) <==> timers.contains_key(other)
                && timers[other].expires_at <= now),
{
}

/// The slot of a timer begins no later than the timer expires.
proof fn lemma_slot_begins_in_time(timer: Waiting)
    requires
        timer.placed_at <= timer.expires_at,
    ensures
        timer.slot() * timer.unit() <= timer.expires_at,
{
    let size = timer.unit();
    let placed = timer.placed_at as int;
    let distance = timer.expires_at - timer.placed_at;
    assert((placed / size + distance / size) * size <= placed + distance) by (nonlinear_arith)
        requires
            size >= 1,
            placed >= 0,
            distance >= 0,
    ;
}

/// No timer in the level of the nearest is overslept: none of them expires before the deadline,
/// also not one that the wheel does not see. With a single timer waiting, that is the timer.
pub proof fn law_nearest_timers_are_not_overslept(
    timers: Map<tm_wheel::TimerHandle, Waiting>,
    now: u64,
    time: u64,
)
    requires
        forall|handle: tm_wheel::TimerHandle| #[trigger]
            timers.contains_key(handle) ==> timers[handle].placed_at <= timers[handle].expires_at,
        wakeup_at(time, timers, now),
    ensures
        exists|nearest: tm_wheel::TimerHandle| #[trigger]
            is_nearest(nearest, timers, now) && forall|other: tm_wheel::TimerHandle| #[trigger]
            timers.contains_key(other) && timers[other].unit() == timers[nearest].unit()
                ==> time <= timers[other].expires_at,
{
    let nearest = choose|handle: tm_wheel::TimerHandle| #[trigger]
        is_nearest(handle, timers, now) && time == timers[handle].slot() * timers[handle].unit();
    assert forall|other: tm_wheel::TimerHandle| #[trigger]
        timers.contains_key(other) && timers[other].unit()
            == timers[nearest].unit() implies time <= timers[other].expires_at by {
        lemma_slot_begins_in_time(timers[other]);
        let size = timers[nearest].unit();
        let slot = timers[nearest].slot();
        let other_slot = timers[other].slot();
        assert(slot * size <= other_slot * size) by (nonlinear_arith)
            requires
                slot <= other_slot,
                size >= 1,
        ;
    }
}

/// There is room for a timer that is less than 0x800_0000_0000 milliseconds away, as long as the
/// clock and the counts of timers do not run over.
pub proof fn law_room_for_timers(timer: Timer, millis: u64, accepted: bool)
    requires
        call_ensures(Timer::accepts, (&timer, millis), accepted),
    ensures
        accepted <==> millis < 0x800_0000_0000 && timer.time() + millis <= u64::MAX
            && timer.count() < 0xffff_ffff && timer.total() < u64::MAX,
{
}

/// A timer is set just if it has a millisecond to wait. It expires that much later than now, wakes
/// the waker given, and leaves the other timers as they are.
pub proof fn law_timer_is_set_for_its_time(
    timer: &mut Timer,
    millis: u64,
    waker: u64,
    handle: Option<tm_wheel::TimerHandle>,
)
    requires
        millis >= 1 ==> old(timer).has_room(millis),
        call_ensures(Timer::submit, (timer, millis, waker), handle),
    ensures
        handle is Some <==> millis > 0,
        final(timer).time() == old(timer).time(),
        handle is None ==> final(timer).timers() == old(timer).timers(),
        handle matches Some(handle) ==> {
            let set = final(timer).timers()[handle];
            &&& !old(timer).timers().contains_key(handle)
            &&& final(timer).timers().contains_key(handle)
            &&& final(timer).timers().remove(handle) == old(timer).timers()
            &&& set.waker == waker
            &&& set.expires_at == old(timer).time() + millis
        },
{
    if let Some(handle) = handle {
        assert(final(timer).timers().remove(handle) =~= old(timer).timers());
    }
}

/// Calling a timer off takes it out, and leaves the others as they are.
pub proof fn law_timer_is_called_off_alone(timer: &mut Timer, handle: tm_wheel::TimerHandle)
    requires
        call_ensures(Timer::cancel, (timer, handle), ()),
    ensures
        !final(timer).timers().contains_key(handle),
        forall|other: tm_wheel::TimerHandle|
            other != handle
                ==> (#[trigger] final(timer).timers().contains_key(other) <==> old(timer).timers().contains_key(other)),
        forall|other: tm_wheel::TimerHandle| #[trigger]
            final(timer).timers().contains_key(other)
                ==> final(timer).timers()[other] == old(timer).timers()[other],
        final(timer).time() == old(timer).time(),
{
}

/// Exactly the wakers of the timers that are due come out, one for each of them.
proof fn lemma_due_timers_come_out(
    before: Map<tm_wheel::TimerHandle, Waiting>,
    now: u64,
    woken: Seq<u64>,
)
    requires
        woken_by(woken, before, now),
        before.dom().finite(),
    ensures
        forall|handle: tm_wheel::TimerHandle| #[trigger]
            before.contains_key(handle) && before[handle].expires_at <= now ==> woken.contains(
                before[handle].waker,
            ),
        forall|waker: u64| #[trigger]
            woken.contains(waker) ==> exists|handle: tm_wheel::TimerHandle| #[trigger]
                before.contains_key(handle) && before[handle].expires_at <= now
                    && before[handle].waker == waker,
        woken.len() + unexpired(before, now).len() == before.len(),
{
    let after = unexpired(before, now);
    let fired = choose|fired: Seq<tm_wheel::TimerHandle>| #[trigger]
        are_expired(fired, before, now) && woken == fired.map_values(
            |handle: tm_wheel::TimerHandle| before[handle].waker,
        );
    assert forall|handle: tm_wheel::TimerHandle| #[trigger]
        before.contains_key(handle) && before[handle].expires_at <= now implies woken.contains(
        before[handle].waker,
    ) by {
        assert(fired.contains(handle));
        let i = choose|i: int| 0 <= i < fired.len() && fired[i] == handle;
        assert(woken[i] == before[handle].waker);
    }
    assert forall|waker: u64| #[trigger] woken.contains(waker) implies exists|
        handle: tm_wheel::TimerHandle,
    | #[trigger]
        before.contains_key(handle) && before[handle].expires_at <= now && before[handle].waker
            == waker by {
        let i = choose|i: int| 0 <= i < woken.len() && woken[i] == waker;
        assert(fired.contains(fired[i]));
        assert(before.contains_key(fired[i]));
    }
    fired.unique_seq_to_set();
    assert(fired.to_set() =~= before.dom().difference(after.dom())) by {
        assert forall|handle: tm_wheel::TimerHandle|
            fired.to_set().contains(handle) <==> before.dom().difference(after.dom()).contains(
                handle,
            ) by {
            assert(fired.contains(handle) <==> before.contains_key(handle)
                && before[handle].expires_at <= now);
        }
    }
    assert(after.dom().subset_of(before.dom()));
    vstd::set_lib::lemma_set_difference_len(before.dom(), after.dom());
    assert(before.dom().intersect(after.dom()) =~= after.dom());
}

/// Time passes by exactly what has elapsed while a timer waits, and stands still otherwise. The
/// timers whose time has come are gone, and all others stay, with their time and their waker.
/// Exactly the wakers of the timers that are gone come out, one for each of them.
pub proof fn law_spin_fires_what_is_due(
    timer: &mut Timer,
    elapsed: u64,
    spun: (Vec<u64>, Option<u64>),
)
    requires
        old(timer).wf(),
        old(timer).time() + elapsed <= u64::MAX,
        call_ensures(Timer::spin_and_get_deadline, (timer, elapsed), spun),
    ensures
        ({
            let before = old(timer).timers();
            let after = final(timer).timers();
            let idle = forall|handle: tm_wheel::TimerHandle|
                !(#[trigger] before.contains_key(handle));
            let now = final(timer).time();
            &&& now == old(timer).time() + (if idle {
                0
            } else {
                elapsed as int
            })
            &&& forall|handle: tm_wheel::TimerHandle| #[trigger]
                after.contains_key(handle) <==> before.contains_key(handle)
                    && before[handle].expires_at > now
            &&& forall|handle: tm_wheel::TimerHandle| #[trigger]
                after.contains_key(handle) ==> after[handle].waker == before[handle].waker
                    && after[handle].expires_at == before[handle].expires_at
            &&& forall|handle: tm_wheel::TimerHandle| #[trigger]
                before.contains_key(handle) && before[handle].expires_at <= now
                    ==> spun.0@.contains(before[handle].waker)
            &&& forall|waker: u64| #[trigger]
                spun.0@.contains(waker) ==> exists|handle: tm_wheel::TimerHandle| #[trigger]
                    before.contains_key(handle) && before[handle].expires_at <= now
                        && before[handle].waker == waker
            &&& spun.0@.len() + after.len() == before.len()
        }),
{
    old(timer).law_count_is_of_timers();
    lemma_due_timers_come_out(old(timer).timers(), final(timer).time(), spun.0@);
}

/// The same holds where it may not be known when to look at the timers again.
pub proof fn law_careful_spin_fires_what_is_due(
    timer: &mut Timer,
    elapsed: u64,
    spun: (Vec<u64>, Option<Option<u64>>),
)
    requires
        old(timer).wf(),
        old(timer).time() + elapsed <= u64::MAX,
        call_ensures(Timer::try_spin_and_get_deadline, (timer, elapsed), spun),
    ensures
        ({
            let before = old(timer).timers();
            let after = final(timer).timers();
            let idle = forall|handle: tm_wheel::TimerHandle|
                !(#[trigger] before.contains_key(handle));
            let now = final(timer).time();
            &&& now == old(timer).time() + (if idle {
                0
            } else {
                elapsed as int
            })
            &&& forall|handle: tm_wheel::TimerHandle| #[trigger]
                after.contains_key(handle) <==> before.contains_key(handle)
                    && before[handle].expires_at > now
            &&& forall|handle: tm_wheel::TimerHandle| #[trigger]
                after.contains_key(handle) ==> after[handle].waker == before[handle].waker
                    && after[handle].expires_at == before[handle].expires_at
            &&& forall|handle: tm_wheel::TimerHandle| #[trigger]
                before.contains_key(handle) && before[handle].expires_at <= now
                    ==> spun.0@.contains(before[handle].waker)
            &&& forall|waker: u64| #[trigger]
                spun.0@.contains(waker) ==> exists|handle: tm_wheel::TimerHandle| #[trigger]
                    before.contains_key(handle) && before[handle].expires_at <= now
                        && before[handle].waker == waker
            &&& spun.0@.len() + after.len() == before.len()
        }),
{
    old(timer).law_count_is_of_timers();
    lemma_due_timers_come_out(old(timer).timers(), final(timer).time(), spun.0@);
}

/// There is a time to look at the timers again just if one waits, and that time is still to come.
/// It is not after the nearest timer expires, and before it by less than two units of the timer's
/// level; so it is exact where the timer was less than 128 milliseconds away when it was placed.
pub proof fn law_deadline_is_that_of_the_nearest(
    timer: &mut Timer,
    elapsed: u64,
    spun: (Vec<u64>, Option<Option<u64>>),
)
    requires
        old(timer).wf(),
        old(timer).time() + elapsed <= u64::MAX,
        call_ensures(Timer::try_spin_and_get_deadline, (timer, elapsed), spun),
    ensures
        spun.1 == Some(None::<u64>) <==> forall|handle: tm_wheel::TimerHandle|
            !(#[trigger] final(timer).timers().contains_key(handle)),
        spun.1 is None ==> forall|handle: tm_wheel::TimerHandle| #[trigger]
            final(timer).timers().contains_key(handle) ==> !final(timer).timers()[handle].seen(
                final(timer).time(),
            ),
        (exists|handle: tm_wheel::TimerHandle| #[trigger]
            final(timer).timers().contains_key(handle) && final(timer).timers()[handle].seen(
                final(timer).time(),
            )) ==> spun.1 is Some,
        spun.1 matches Some(Some(millis)) ==> millis > 0 && exists|handle: tm_wheel::TimerHandle|
            #[trigger]
            is_nearest(handle, final(timer).timers(), final(timer).time()) && ({
                let nearest = final(timer).timers()[handle];
                let deadline = final(timer).time() + millis;
                &&& deadline <= nearest.expires_at < deadline + 2 * nearest.unit()
                &&& nearest.expires_at - nearest.placed_at < 128 ==> deadline
                    == nearest.expires_at
            }),
{
    final(timer).law_timers_are_to_come();
    if let Some(Some(millis)) = spun.1 {
        let timers = final(timer).timers();
        let now = final(timer).time();
        let time = (now + millis) as u64;
        let handle = choose|handle: tm_wheel::TimerHandle| #[trigger]
            is_nearest(handle, timers, now) && time == timers[handle].slot()
                * timers[handle].unit();
        lemma_slot_begins_in_time(timers[handle]);
        lemma_slot_ends_in_time(timers[handle]);
    }
}

/// The slot of a timer begins less than two units before the timer expires.
proof fn lemma_slot_ends_in_time(timer: Waiting)
    requires
        timer.placed_at <= timer.expires_at,
    ensures
        timer.expires_at < timer.slot() * timer.unit() + 2 * timer.unit(),
        timer.unit() == 1 ==> timer.slot() * timer.unit() == timer.expires_at,
{
    let size = timer.unit();
    let placed = timer.placed_at as int;
    let distance = timer.expires_at - timer.placed_at;
    if size == 1 {
        assert(placed / 1 + distance / 1 == placed + distance);
        assert(timer.slot() * 1 == timer.expires_at);
    }
    assert((placed / size + distance / size) * size + 2 * size > placed + distance)
        by (nonlinear_arith)
        requires
            size >= 1,
            placed >= 0,
            distance >= 0,
    ;
}

/// The time is the one that the timers have reached, and new timers have reached none.
pub proof fn law_new_timers_stand_at_zero(timer: Timer, now: u64)
    requires
        call_ensures(Timer::new, (), timer),
        call_ensures(Timer::now, (&timer,), now),
    ensures
        timer.wf(),
        now == 0,
        forall|handle: tm_wheel::TimerHandle| !(#[trigger] timer.timers().contains_key(handle)),
{
}

/// What it takes for a timer to have room, in numbers.
pub proof fn law_room_in_numbers(timer: Timer, millis: u64)
    ensures
        timer.has_room(millis) <==> millis < 0x800_0000_0000 && timer.time() + millis <= u64::MAX
            && timer.count() < 0xffff_ffff && timer.total() < u64::MAX,
{
}

/// Where it is known that the timers can tell when to look at them again, the same holds of the
/// time that they tell.
pub proof fn law_known_deadline_is_that_of_the_nearest(
    timer: &mut Timer,
    elapsed: u64,
    spun: (Vec<u64>, Option<u64>),
)
    requires
        old(timer).wf(),
        old(timer).time() + elapsed <= u64::MAX,
        call_ensures(Timer::spin_and_get_deadline, (timer, elapsed), spun),
    ensures
        spun.1 is None <==> forall|handle: tm_wheel::TimerHandle|
            !(#[trigger] final(timer).timers().contains_key(handle)),
        spun.1 matches Some(millis) ==> millis > 0 && exists|handle: tm_wheel::TimerHandle|
            #[trigger]
            is_nearest(handle, final(timer).timers(), final(timer).time()) && ({
                let nearest = final(timer).timers()[handle];
                let deadline = final(timer).time() + millis;
                &&& deadline <= nearest.expires_at < deadline + 2 * nearest.unit()
                &&& nearest.expires_at - nearest.placed_at < 128 ==> deadline
                    == nearest.expires_at
            }),
{
    final(timer).law_timers_are_to_come();
    if let Some(millis) = spun.1 {
        let timers = final(timer).timers();
        let now = final(timer).time();
        let time = (now + millis) as u64;
        let handle = choose|handle: tm_wheel::TimerHandle| #[trigger]
            is_nearest(handle, timers, now) && time == timers[handle].slot()
                * timers[handle].unit();
        lemma_slot_begins_in_time(timers[handle]);
        lemma_slot_ends_in_time(timers[handle]);
    }
}

} // verus!
