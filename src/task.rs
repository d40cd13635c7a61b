//! Tasks: handles to asynchronous work that a store runs, and the bookkeeping that decides
//! whether what the work produces still reaches the store.
//!
//! The [`Executor`] numbers each spawned task and keeps the numbers of those still polled.
//! Cancelling a [`Task`] takes its number out for good (numbers are never reused), so
//! nothing it produces afterwards is delivered. Detaching gives up the handle and leaves the
//! work running until it completes. A closed executor hands out empty handles.
use vstd::prelude::*;

use crate::reducer::Reducer;
use crate::store::Store;

verus! {

/// The tasks of one store: the numbers of those still polled, the next number to give out,
/// and whether new work is still accepted.
pub struct Executor {
    live: Vec<u64>,
    next_id: u64,
    open: bool,
}

/// A handle to spawned work; `None` when the executor could not accept it.
///
/// Dropping a handle does not stop the work: only [`Task::cancel`] (or
/// [`Executor::release`]) takes it out of the executor, and [`Task::detach`] gives the
/// handle up on purpose.
#[must_use]
pub struct Task {
    handle: Option<u64>,
}

impl Executor {
    /// The numbers of the tasks still polled.
    pub closed spec fn live(&self) -> Seq<u64> {
        self.live@
    }

    /// The number that the next spawned task gets.
    pub closed spec fn next_id(&self) -> u64 {
        self.next_id
    }

    /// Whether new work is accepted.
    pub closed spec fn is_open(&self) -> bool {
        self.open
    }

    /// Every live number was given out already.
    pub open spec fn wf(&self) -> bool {
        forall|i: int| 0 <= i < self.live().len() ==> self.live()[i] < self.next_id()
    }

    /// An open executor with no tasks.
    pub fn new() -> (r: Executor)
        ensures
            r.live() == Seq::<u64>::empty(),
            r.next_id() == 0,
            r.is_open(),
            r.wf(),
    {
        Executor { live: Vec::new(), next_id: 0, open: true }
    }

    /// Returns `true` if the task numbered `id` is still polled.
    pub fn is_live(&self, id: u64) -> (r: bool)
        ensures
            r == self.live().contains(id),
    {
        let mut i: usize = 0;
        while i < self.live.len()
            invariant
                i <= self.live.len(),
                forall|j: int| 0 <= j < i ==> self.live@[j] != id,
            decreases self.live.len() - i,
        {
            if self.live[i] == id {
                return true;
            }
            i = i + 1;
        }
        false
    }

    /// Spawns work. An open executor gives it the next number and polls it; a closed one,
    /// or one that has run out of numbers, drops it and returns an empty handle.
    pub fn spawn(&mut self) -> (r: Task)
        requires
            old(self).wf(),
        ensures
            final(self).wf(),
            final(self).is_open() == old(self).is_open(),
            old(self).is_open() && old(self).next_id() < u64::MAX ==> r.handle_spec() == Some(
                old(self).next_id(),
            ) && final(self).live() == old(self).live().push(old(self).next_id())
                && final(self).next_id() == old(self).next_id() + 1,
            !(old(self).is_open() && old(self).next_id() < u64::MAX) ==> r.handle_spec() is None
                && final(self).live() == old(self).live() && final(self).next_id() == old(
                self,
            ).next_id(),
    {
        if self.open && self.next_id < u64::MAX {
            let id = self.next_id;
            self.live.push(id);
            self.next_id = self.next_id + 1;
            assert forall|j: int| 0 <= j < self.live().len() implies self.live()[j]
                < self.next_id() by {
                if j < old(self).live().len() {
                    assert(self.live()[j] == old(self).live()[j]);
                }
            }
            Task { handle: Some(id) }
        } else {
            Task { handle: None }
        }
    }

    /// Stops polling the task numbered `id`; used when its handle is dropped and when its
    /// work completes.
    pub fn release(&mut self, id: u64)
        requires
            old(self).wf(),
        ensures
            final(self).wf(),
            final(self).live() == old(self).live().filter(|x: u64| x != id),
            final(self).next_id() == old(self).next_id(),
            final(self).is_open() == old(self).is_open(),
    {
        let mut kept: Vec<u64> = Vec::new();
        let mut i: usize = 0;
        while i < self.live.len()
            invariant
                i <= self.live.len(),
                self.live@ == old(self).live(),
                kept@ == self.live@.take(i as int).filter(|x: u64| x != id),
            decreases self.live.len() - i,
        {
            let x = self.live[i];
            proof {
                assert(self.live@.take(i + 1) =~= self.live@.take(i as int).push(x));
                self.live@.take(i as int).lemma_filter_push(x, |x: u64| x != id);
            }
            if x != id {
                kept.push(x);
            }
            i = i + 1;
        }
        assert(self.live@.take(self.live@.len() as int) =~= self.live@);
        assert(kept@ == old(self).live().filter(|x: u64| x != id));
        self.live = kept;
        assert forall|j: int| 0 <= j < self.live().len() implies self.live()[j] < self.next_id() by {
            broadcast use vstd::seq_lib::group_filter_ensures;

            let y = self.live()[j];
            assert(old(self).live().filter(|x: u64| x != id).contains(y));
            old(self).live().lemma_filter_contains_rev(|x: u64| x != id, y);
        }
    }

    /// Closes the executor: all of its tasks stop being polled and no new work is accepted.
    pub fn shutdown(&mut self)
        ensures
            final(self).live() == Seq::<u64>::empty(),
            !final(self).is_open(),
            final(self).next_id() == old(self).next_id(),
            final(self).wf(),
    {
        self.live = Vec::new();
        self.open = false;
    }

    /// Hands `action`, produced by the task numbered `id`, to `store`, if that task is still
    /// polled; returns whether it was delivered.
    pub fn deliver<S: Reducer>(&self, id: u64, action: S::Action, store: &mut Store<S>) -> (r: bool)
        ensures
            r == self.live().contains(id),
            r ==> final(store).snapshot() == (crate::store::Snapshot::<S> {
                inbox: old(store).snapshot().inbox.push(action),
                ..old(store).snapshot()
            }),
            !r ==> final(store).snapshot() == old(store).snapshot(),
    {
        if self.is_live(id) {
            store.send(action);
            true
        } else {
            false
        }
    }
}

impl Task {
    /// The number of the task, if it was accepted.
    pub closed spec fn handle_spec(&self) -> Option<u64> {
        self.handle
    }

    /// The number of the task, if it was accepted.
    pub fn id(&self) -> (r: Option<u64>)
        ensures
            r == self.handle_spec(),
    {
        self.handle
    }

    /// Detaches the task: its work keeps running until it completes, and the number it had
    /// is returned so that the completion can be reported with [`Executor::release`].
    pub fn detach(self) -> (r: Option<u64>)
        ensures
            r == self.handle_spec(),
    {
        self.handle
    }

    /// Cancels the task: its work is never polled again and nothing it produces is delivered.
    pub fn cancel(self, executor: &mut Executor)
        requires
            old(executor).wf(),
        ensures
            final(executor).wf(),
            self.handle_spec() matches Some(id) ==> !final(executor).live().contains(id)
                && final(executor).live() == old(executor).live().filter(|x: u64| x != id),
            self.handle_spec() is None ==> final(executor).live() == old(executor).live(),
            final(executor).next_id() == old(executor).next_id(),
            final(executor).is_open() == old(executor).is_open(),
    {
        match self.handle {
            Some(id) => {
                executor.release(id);
                proof {
                    broadcast use vstd::seq_lib::group_filter_ensures;

                }
            },
            None => {},
        }
    }
}

/// Task cancellation: once the task numbered `id` is no longer polled, spawning more work
/// never brings it back, so nothing it produces is delivered again.
pub proof fn lemma_cancelled_stays_cancelled(before: Executor, after: Executor, id: u64)
    requires
        before.wf(),
        !before.live().contains(id),
        id < before.next_id(),
        after.live() == before.live().push(before.next_id()),
    ensures
        !after.live().contains(id),
{
    assert(after.live().last() != id);
    if after.live().contains(id) {
        let i = choose|i: int| 0 <= i < after.live().len() && after.live()[i] == id;
        assert(before.live()[i] == id);
    }
}

} // verus!
