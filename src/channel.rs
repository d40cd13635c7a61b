//! The action channel: an unbounded queue from many senders to one receiver.
//!
//! Senders are strong or weak. Strong senders keep the channel open; once the last one is
//! gone and the queue is drained, the receiver sees the channel closed, for good. A send
//! after the receiver is gone fails and hands the value back instead of losing it.
use std::collections::VecDeque;
use vstd::prelude::*;

verus! {

/// What a receive found.
pub enum Received<A> {
    /// The oldest queued value.
    Value(A),
    /// Nothing is queued, but a strong sender may still send: wait.
    Empty,
    /// Nothing is queued and nothing more can come.
    Closed,
}

/// The shared state of one channel.
pub struct Channel<A> {
    queue: VecDeque<A>,
    strong: u64,
    receiver_alive: bool,
}

impl<A> Channel<A> {
    /// The values queued, oldest first.
    pub closed spec fn queued(&self) -> Seq<A> {
        self.queue@
    }

    /// The number of strong senders.
    pub closed spec fn strong_count(&self) -> u64 {
        self.strong
    }

    /// Whether the receiver still exists.
    pub closed spec fn has_receiver(&self) -> bool {
        self.receiver_alive
    }

    /// A channel with one strong sender and its receiver, and nothing queued.
    pub fn new() -> (r: Channel<A>)
        ensures
            r.queued() == Seq::<A>::empty(),
            r.strong_count() == 1,
            r.has_receiver(),
    {
        Channel { queue: VecDeque::new(), strong: 1, receiver_alive: true }
    }

    /// Counts one more strong sender; the count saturates at its largest value.
    pub fn add_sender(&mut self)
        ensures
            final(self).queued() == old(self).queued(),
            final(self).has_receiver() == old(self).has_receiver(),
            final(self).strong_count() == if old(self).strong_count() < u64::MAX {
                old(self).strong_count() + 1
            } else {
                old(self).strong_count() as int
            },
    {
        if self.strong < u64::MAX {
            self.strong = self.strong + 1;
        }
    }

    /// Counts one strong sender less.
    pub fn drop_sender(&mut self)
        ensures
            final(self).queued() == old(self).queued(),
            final(self).has_receiver() == old(self).has_receiver(),
            final(self).strong_count() == if old(self).strong_count() > 0 {
                old(self).strong_count() - 1
            } else {
                0
            },
    {
        if self.strong > 0 {
            self.strong = self.strong - 1;
        }
    }

    /// Records that the receiver is gone.
    pub fn drop_receiver(&mut self)
        ensures
            final(self).queued() == old(self).queued(),
            final(self).strong_count() == old(self).strong_count(),
            !final(self).has_receiver(),
    {
        self.receiver_alive = false;
    }

    /// Sends `value`: it is queued behind everything sent before, unless the receiver is
    /// gone, in which case it is handed back.
    pub fn send(&mut self, value: A) -> (r: Result<(), A>)
        ensures
            final(self).strong_count() == old(self).strong_count(),
            final(self).has_receiver() == old(self).has_receiver(),
            old(self).has_receiver() ==> r is Ok && final(self).queued() == old(
                self,
            ).queued().push(value),
            !old(self).has_receiver() ==> r == Err::<(), A>(value) && final(self).queued()
                == old(self).queued(),
    {
        if self.receiver_alive {
            self.queue.push_back(value);
            Ok(())
        } else {
            Err(value)
        }
    }

    /// Receives the oldest queued value; with none queued, reports whether more can come.
    pub fn receive(&mut self) -> (r: Received<A>)
        ensures
            final(self).strong_count() == old(self).strong_count(),
            final(self).has_receiver() == old(self).has_receiver(),
            old(self).queued().len() > 0 ==> r == Received::Value(old(self).queued()[0])
                && final(self).queued() == old(self).queued().drop_first(),
            old(self).queued().len() == 0 ==> final(self).queued() == old(self).queued() && (
            if old(self).strong_count() > 0 {
                r is Empty
            } else {
                r is Closed
            }),
    {
        match self.queue.pop_front() {
            Some(v) => Received::Value(v),
            None => if self.strong > 0 {
                Received::Empty
            } else {
                Received::Closed
            },
        }
    }
}

} // verus!
