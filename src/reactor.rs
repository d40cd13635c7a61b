//! The wake scheduler: a time-ordered registry of pending wakeups.
//!
//! Each entry is a deadline and the key of what waits for it. Entries are kept in deadline
//! order, entries with equal deadlines in the order they were added, and [`Reactor::fire`]
//! hands out, oldest deadline first, the keys of every entry whose deadline has passed.
use std::collections::VecDeque;
use vstd::prelude::*;

verus! {

/// A point in time, counted in ticks of a monotonic clock.
#[derive(Clone, Copy, Debug, PartialEq, Eq, Structural)]
pub struct Instant {
    pub ticks: u64,
}

impl Instant {
    /// The instant `ticks` ticks after the clock's origin.
    pub fn from_ticks(ticks: u64) -> (r: Instant)
        ensures
            r.ticks == ticks,
    {
        Instant { ticks }
    }
}

/// The entries are in deadline order.
pub open spec fn deadline_sorted(entries: Seq<(u64, u64)>) -> bool {
    forall|i: int, j: int| 0 <= i <= j < entries.len() ==> entries[i].0 <= entries[j].0
}

/// The number of leading entries whose deadline is at or before `now`.
pub open spec fn due_count(entries: Seq<(u64, u64)>, now: u64) -> int
    decreases entries.len(),
{
    if entries.len() == 0 || entries[0].0 > now {
        0
    } else {
        1 + due_count(entries.drop_first(), now)
    }
}

/// The keys of a sequence of entries, in order.
pub open spec fn keys_of(entries: Seq<(u64, u64)>) -> Seq<u64> {
    entries.map_values(|e: (u64, u64)| e.1)
}

/// A time-ordered registry of (deadline, key) pairs.
pub struct Reactor {
    entries: VecDeque<(u64, u64)>,
}

impl View for Reactor {
    type V = Seq<(u64, u64)>;

    closed spec fn view(&self) -> Seq<(u64, u64)> {
        self.entries@
    }
}

proof fn lemma_due_count_bounds(entries: Seq<(u64, u64)>, now: u64)
    ensures
        0 <= due_count(entries, now) <= entries.len(),
    decreases entries.len(),
{
    if entries.len() > 0 && entries[0].0 <= now {
        lemma_due_count_bounds(entries.drop_first(), now);
    }
}

/// In sorted entries, exactly the first `due_count` entries are due.
proof fn lemma_due_prefix(entries: Seq<(u64, u64)>, now: u64)
    requires
        deadline_sorted(entries),
    ensures
        0 <= due_count(entries, now) <= entries.len(),
        forall|i: int| 0 <= i < due_count(entries, now) ==> entries[i].0 <= now,
        forall|i: int| due_count(entries, now) <= i < entries.len() ==> entries[i].0 > now,
    decreases entries.len(),
{
    lemma_due_count_bounds(entries, now);
    if entries.len() > 0 && entries[0].0 <= now {
        let rest = entries.drop_first();
        assert(deadline_sorted(rest));
        lemma_due_prefix(rest, now);
        assert forall|i: int| 0 <= i < due_count(entries, now) implies entries[i].0 <= now by {
            if i > 0 {
                assert(entries[i] == rest[i - 1]);
            }
        }
        assert forall|i: int| due_count(entries, now) <= i < entries.len() implies entries[i].0
            > now by {
            assert(entries[i] == rest[i - 1]);
        }
    }
}

impl Reactor {
    /// The well-formedness of the registry: its entries are in deadline order.
    pub open spec fn wf(&self) -> bool {
        deadline_sorted(self@)
    }

    /// A registry without entries.
    pub fn new() -> (r: Reactor)
        ensures
            r@ == Seq::<(u64, u64)>::empty(),
            r.wf(),
    {
        Reactor { entries: VecDeque::new() }
    }

    /// The number of pending entries.
    pub fn len(&self) -> (r: usize)
        ensures
            r == self@.len(),
    {
        self.entries.len()
    }

    /// Registers `key` to be woken once `at` has passed. It goes after every entry with a
    /// deadline at or before `at` and before every later one; its place is found by binary
    /// search.
    pub fn add(&mut self, at: Instant, key: u64)
        requires
            old(self).wf(),
        ensures
            final(self).wf(),
            exists|i: int|
                0 <= i <= old(self)@.len() && final(self)@ == old(self)@.insert(i, (at.ticks, key))
                    && (forall|j: int| 0 <= j < i ==> old(self)@[j].0 <= at.ticks) && (forall|
                    j: int,
                | i <= j < old(self)@.len() ==> old(self)@[j].0 > at.ticks),
    {
        let mut lo: usize = 0;
        let mut hi: usize = self.entries.len();
        while lo < hi
            invariant
                lo <= hi <= self.entries.len(),
                self@ == old(self)@,
                deadline_sorted(self@),
                forall|j: int| 0 <= j < lo ==> self@[j].0 <= at.ticks,
                forall|j: int| hi <= j < self@.len() ==> self@[j].0 > at.ticks,
            decreases hi - lo,
        {
            let mid = lo + (hi - lo) / 2;
            if self.entries[mid].0 <= at.ticks {
                assert(forall|j: int| 0 <= j <= mid ==> self@[j].0 <= self@[mid as int].0);
                lo = mid + 1;
            } else {
                assert(forall|j: int| mid <= j < self@.len() ==> self@[mid as int].0 <= self@[j].0);
                hi = mid;
            }
        }
        let i = lo;
        let ghost before = self@;
        self.entries.insert(i, (at.ticks, key));
        assert(self@ =~= before.insert(i as int, (at.ticks, key)));
        assert(deadline_sorted(self@)) by {
            assert forall|a: int, b: int| 0 <= a <= b < self@.len() implies self@[a].0
                <= self@[b].0 by {
                if a < i && b > i {
                    assert(before[a].0 <= before[b - 1].0);
                } else if a > i {
                    assert(before[a - 1].0 <= before[b - 1].0);
                }
            }
        }
    }

    /// Removes every entry whose deadline is at or before `now` and returns their keys,
    /// oldest deadline first.
    pub fn fire(&mut self, now: Instant) -> (r: Vec<u64>)
        requires
            old(self).wf(),
        ensures
            final(self).wf(),
            r@ == keys_of(old(self)@.take(due_count(old(self)@, now.ticks))),
            final(self)@ == old(self)@.skip(due_count(old(self)@, now.ticks)),
            forall|i: int|
                0 <= i < due_count(old(self)@, now.ticks) ==> old(self)@[i].0 <= now.ticks,
            forall|i: int| 0 <= i < final(self)@.len() ==> final(self)@[i].0 > now.ticks,
    {
        proof {
            lemma_due_prefix(old(self)@, now.ticks);
        }
        let ghost c = due_count(old(self)@, now.ticks);
        let mut fired: Vec<u64> = Vec::new();
        while self.entries.len() > 0 && self.entries[0].0 <= now.ticks
            invariant
                0 <= fired@.len() <= c,
                self@ == old(self)@.skip(fired@.len() as int),
                fired@ == keys_of(old(self)@.take(fired@.len() as int)),
                0 <= c <= old(self)@.len(),
                forall|i: int| 0 <= i < c ==> old(self)@[i].0 <= now.ticks,
                forall|i: int| c <= i < old(self)@.len() ==> old(self)@[i].0 > now.ticks,
            decreases self.entries.len(),
        {
            let ghost n = fired@.len() as int;
            let (_, key) = self.entries.pop_front().unwrap();
            fired.push(key);
            assert(self@ =~= old(self)@.skip(n + 1));
            assert(fired@ =~= keys_of(old(self)@.take(n + 1)));
        }
        assert(fired@.len() == c) by {
            if fired@.len() < c {
                assert(self@[0] == old(self)@[fired@.len() as int]);
            }
        }
        assert(deadline_sorted(self@));
        fired
    }
}

} // verus!
