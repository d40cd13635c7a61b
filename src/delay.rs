//! A one-shot wait for an instant.
//!
//! A [`Delay`] goes New → Waiting → Ready → Done. Its first poll registers it with the
//! [`Reactor`] and leaves it waiting; later polls only record the newest waker. Once the
//! reactor has found its deadline passed, [`Delay::wake`] makes it ready; the next poll
//! yields its one item, and every poll after that reports that there are no more.
use vstd::prelude::*;

use crate::reactor::{Instant, Reactor};

verus! {

/// Where a delay is in its life. A waker is known by the number that the executor gave it.
#[derive(Clone, Copy, Debug, PartialEq, Eq, Structural)]
pub enum DelayState {
    New(Instant),
    Waiting(u64),
    Ready,
    Done,
}

/// The outcome of polling a stream.
#[derive(Clone, Copy, Debug, PartialEq, Eq, Structural)]
pub enum Poll {
    /// The stream has nothing yet; the waker given will be notified.
    Pending,
    /// The stream yielded an item.
    Item,
    /// The stream has no more items.
    Finished,
}

/// The state after a poll with `waker`, and what that poll reports.
pub open spec fn poll_spec(state: DelayState, waker: u64) -> (DelayState, Poll) {
    match state {
        DelayState::New(_) => (DelayState::Waiting(waker), Poll::Pending),
        DelayState::Waiting(_) => (DelayState::Waiting(waker), Poll::Pending),
        DelayState::Ready => (DelayState::Done, Poll::Item),
        DelayState::Done => (DelayState::Done, Poll::Finished),
    }
}

/// The state after the reactor found the deadline passed.
pub open spec fn wake_spec(state: DelayState) -> DelayState {
    match state {
        DelayState::Waiting(_) => DelayState::Ready,
        _ => state,
    }
}

/// A single-fire wait for an instant, backed by one reactor entry.
pub struct Delay {
    state: DelayState,
}

impl Delay {
    /// The state of the delay.
    pub closed spec fn spec_state(&self) -> DelayState {
        self.state
    }

    /// A delay that ends once `instant` has passed.
    pub fn new(instant: Instant) -> (r: Delay)
        ensures
            r.spec_state() == DelayState::New(instant),
    {
        Delay { state: DelayState::New(instant) }
    }

    /// The state of the delay.
    pub fn state(&self) -> (r: DelayState)
        ensures
            r == self.spec_state(),
    {
        self.state
    }

    /// Polls the delay on behalf of `waker`. The first poll registers `key` with `reactor`
    /// for the delay's instant; no other poll touches the reactor.
    pub fn poll_next(&mut self, waker: u64, key: u64, reactor: &mut Reactor) -> (r: Poll)
        requires
            old(reactor).wf(),
        ensures
            (final(self).spec_state(), r) == poll_spec(old(self).spec_state(), waker),
            final(reactor).wf(),
            old(self).spec_state() matches DelayState::New(at) ==> exists|i: int|
                0 <= i <= old(reactor)@.len() && final(reactor)@ == old(reactor)@.insert(
                    i,
                    (at.ticks, key),
                ) && (forall|j: int| 0 <= j < i ==> old(reactor)@[j].0 <= at.ticks) && (forall|
                    j: int,
                | i <= j < old(reactor)@.len() ==> old(reactor)@[j].0 > at.ticks),
            !(old(self).spec_state() is New) ==> final(reactor)@ == old(reactor)@,
    {
        match self.state {
            DelayState::New(at) => {
                self.state = DelayState::Waiting(waker);
                reactor.add(at, key);
                Poll::Pending
            },
            DelayState::Waiting(_) => {
                self.state = DelayState::Waiting(waker);
                Poll::Pending
            },
            DelayState::Ready => {
                self.state = DelayState::Done;
                Poll::Item
            },
            DelayState::Done => Poll::Finished,
        }
    }

    /// Marks the delay ready because its deadline has passed, and returns the waker to
    /// notify; a delay that is not waiting is left as it is.
    pub fn wake(&mut self) -> (r: Option<u64>)
        ensures
            final(self).spec_state() == wake_spec(old(self).spec_state()),
            r == match old(self).spec_state() {
                DelayState::Waiting(w) => Some(w),
                _ => None,
            },
    {
        match self.state {
            DelayState::Waiting(w) => {
                self.state = DelayState::Ready;
                Some(w)
            },
            _ => None,
        }
    }
}

/// Delay correctness: a new delay polled any number of times before the reactor wakes it
/// reports pending; once woken, the next poll yields its one item and every later poll
/// reports that there are no more.
pub proof fn lemma_delay_fires_once(at: Instant, w1: u64, w2: u64, w3: u64, w4: u64)
    ensures
        ({
            let (s1, r1) = poll_spec(DelayState::New(at), w1);
            let (s2, r2) = poll_spec(s1, w2);
            let (s3, r3) = poll_spec(wake_spec(s2), w3);
            let (s4, r4) = poll_spec(s3, w4);
            &&& r1 == Poll::Pending
            &&& r2 == Poll::Pending
            &&& r3 == Poll::Item
            &&& r4 == Poll::Finished
            &&& s4 == DelayState::Done
            &&& poll_spec(s4, w1) == (DelayState::Done, Poll::Finished)
            &&& wake_spec(s4) == DelayState::Done
        }),
{
}

} // verus!
