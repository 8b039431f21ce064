//! What the runtime keeps under its tokens, and the slab that hands the tokens out.
//!
//! Wakers are known by number: two wakers that would wake the same task have the same number.

use crate::driver::{Interest, RegistrationMode};
use vstd::prelude::*;

verus! {

/// A handle that waits for readiness by a poll request of a completion ring.
#[derive(Clone, Copy, Debug, PartialEq, Eq, Structural)]
pub struct PollRegistration {
    /// The file descriptor.
    pub fd: i32,
    /// The readiness that the next poll request asks for.
    pub poll_mask: u32,
    /// The waker to wake when the handle becomes ready.
    pub waiter: Option<u64>,
    /// Whether a poll request is under way.
    pub poll_armed: bool,
}

/// A handle whose operations are submitted to a completion ring.
#[derive(Debug)]
pub struct CompletionRegistration {
    /// Whether an operation is under way.
    pub inflight: bool,
    /// The wakers to wake when the operation completes, oldest first.
    pub waiters: Vec<u64>,
    /// The result of an operation that completed and was not taken yet.
    pub completed: Option<i32>,
    /// What the driver keeps alive for the operation under way.
    pub aux: Option<u64>,
}

/// A handle that is registered with a readiness poller.
#[derive(Clone, Copy, Debug, PartialEq, Eq, Structural)]
pub struct ReadinessRegistration {
    /// The file descriptor.
    pub fd: i32,
    /// The waker to wake when the handle becomes ready.
    pub waiter: Option<u64>,
    /// The readiness that the poller watches for.
    pub interest: Interest,
}

/// An operation that was submitted to a completion port.
#[derive(Clone, Copy, Debug, PartialEq, Eq, Structural)]
pub struct Submission {
    /// The waker to wake when the operation completes.
    pub waiter: Option<u64>,
    /// The result of the operation, once it completed.
    pub completed: Option<i32>,
    /// Whether the driver still owns the memory that the system writes to.
    pub overlapped: bool,
}

/// What stands under one token.
#[derive(Debug)]
pub enum Slot {
    /// A handle in poll mode.
    Poll(PollRegistration),
    /// A handle in completion mode.
    Completion(CompletionRegistration),
    /// A handle of a readiness poller.
    Readiness(ReadinessRegistration),
    /// A handle of a completion port.
    Handle(RegistrationMode),
    /// An operation of a completion port.
    Submission(Submission),
    /// A task, by its number.
    Task(u64),
}

/// The state of a [`CompletionRegistration`].
pub struct CompletionState {
    pub inflight: bool,
    pub waiters: Seq<u64>,
    pub completed: Option<i32>,
    pub aux: Option<u64>,
}

/// The state of a [`Slot`].
pub enum SlotState {
    Poll(PollRegistration),
    Completion(CompletionState),
    Readiness(ReadinessRegistration),
    Handle(RegistrationMode),
    Submission(Submission),
    Task(u64),
}

impl View for CompletionRegistration {
    type V = CompletionState;

    open spec fn view(&self) -> CompletionState {
        CompletionState {
            inflight: self.inflight,
            waiters: self.waiters@,
            completed: self.completed,
            aux: self.aux,
        }
    }
}

impl View for Slot {
    type V = SlotState;

    open spec fn view(&self) -> SlotState {
        match *self {
            Slot::Poll(registration) => SlotState::Poll(registration),
            Slot::Completion(registration) => SlotState::Completion(registration@),
            Slot::Readiness(registration) => SlotState::Readiness(registration),
            Slot::Handle(mode) => SlotState::Handle(mode),
            Slot::Submission(submission) => SlotState::Submission(submission),
            Slot::Task(id) => SlotState::Task(id),
        }
    }
}

impl CompletionState {
    /// A handle on which nothing was submitted yet.
    pub open spec fn idle() -> CompletionState {
        CompletionState { inflight: false, waiters: Seq::empty(), completed: None, aux: None }
    }
}

impl CompletionRegistration {
    /// A handle on which nothing was submitted yet.
    pub fn new() -> (registration: CompletionRegistration)
        ensures
            registration@ == CompletionState::idle(),
    {
        CompletionRegistration { inflight: false, waiters: Vec::new(), completed: None, aux: None }
    }
}

/// A slab of the crate `slab`.
#[verifier::external_type_specification]
#[verifier::external_body]
#[verifier::reject_recursive_types(T)]
pub struct ExSlab<T>(slab::Slab<T>);

/// What a slab holds under each of its keys.
pub uninterp spec fn slab_contents(slab: slab::Slab<Slot>) -> Map<usize, Slot>;

/// The states of what stands under each key.
pub open spec fn states(contents: Map<usize, Slot>) -> Map<usize, SlotState> {
    Map::new(|key: usize| contents.contains_key(key), |key: usize| contents[key]@)
}

/// Calls `slab::Slab::with_capacity`: the new slab holds nothing.
///
/// The bound keeps the room that is set aside well below the largest allocation.
#[verifier::external_body]
pub(crate) fn slab_with_capacity(capacity: usize) -> (created: slab::Slab<Slot>)
    requires
        capacity <= 0x10000,
    ensures
        (slab_contents(created) == Map::<usize, Slot>::empty()),
{
    slab::Slab::with_capacity(capacity)
}

/// Calls `slab::Slab::insert`: the value stands under a key that was free, and nothing else
/// changes.
///
/// A key is an index into a vector of entries that take up room, so it is below `isize::MAX`.
#[verifier::external_body]
pub(crate) fn slab_insert(slab: &mut slab::Slab<Slot>, value: Slot) -> (key: usize)
    ensures
        key < isize::MAX,
        !slab_contents(*old(slab)).contains_key(key),
        slab_contents(*final(slab)) == slab_contents(*old(slab)).insert(key, value),
{
    slab.insert(value)
}

/// Calls `slab::Slab::get`: the value under the key, if there is one.
#[verifier::external_body]
pub(crate) fn slab_get(slab: &slab::Slab<Slot>, key: usize) -> (slot: Option<&Slot>)
    ensures
        match slot {
            Some(slot) => slab_contents(*slab).contains_key(key) && *slot == slab_contents(
                *slab,
            )[key],
            None => !slab_contents(*slab).contains_key(key),
        },
{
    slab.get(key)
}

/// Calls `slab::Slab::get_mut`: the value under the key, if there is one, to change in place.
#[verifier::external_body]
pub(crate) fn slab_get_mut(slab: &mut slab::Slab<Slot>, key: usize) -> (slot: Option<&mut Slot>)
    ensures
        match slot {
            Some(slot) => slab_contents(*old(slab)).contains_key(key) && *slot == slab_contents(
                *old(slab),
            )[key] && slab_contents(*final(slab)) == slab_contents(*old(slab)).insert(
                key,
                *final(slot),
            ),
            None => !slab_contents(*old(slab)).contains_key(key) && *final(slab) == *old(slab),
        },
{
    slab.get_mut(key)
}

/// Calls `slab::Slab::try_remove`: takes out the value under the key, if there is one.
#[verifier::external_body]
pub(crate) fn slab_try_remove(slab: &mut slab::Slab<Slot>, key: usize) -> (slot: Option<Slot>)
    ensures
        slab_contents(*final(slab)) == slab_contents(*old(slab)).remove(key),
        match slot {
            Some(slot) => slab_contents(*old(slab)).contains_key(key) && slot == slab_contents(
                *old(slab),
            )[key],
            None => !slab_contents(*old(slab)).contains_key(key),
        },
{
    slab.try_remove(key)
}

/// Replacing what stands under a key replaces its state, and no other.
pub(crate) broadcast proof fn lemma_states_insert(
    contents: Map<usize, Slot>,
    key: usize,
    slot: Slot,
)
    ensures
        #[trigger] states(contents.insert(key, slot)) == states(contents).insert(key, slot@),
{
    assert(states(contents.insert(key, slot)) =~= states(contents).insert(key, slot@));
}

/// Removing what stands under a key removes its state, and no other.
pub(crate) broadcast proof fn lemma_states_remove(contents: Map<usize, Slot>, key: usize)
    ensures
        #[trigger] states(contents.remove(key)) == states(contents).remove(key),
{
    assert(states(contents.remove(key)) =~= states(contents).remove(key));
}

} // verus!
