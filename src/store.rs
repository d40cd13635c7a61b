//! The store: one state, the actions sent to it, and the order in which they are applied.
//!
//! Actions sent from outside wait in an inbox. A step applies one action: while the
//! cascade of actions emitted by earlier ones is not drained, the oldest emitted action;
//! otherwise the oldest sent one. So every action that a sent action causes, directly or
//! through the actions it emits, is applied before the next sent action, in emission order.
use std::collections::VecDeque;
use vstd::prelude::*;

use crate::reducer::{Effects, Reducer};

verus! {

/// A store as a value: its state, the sent actions not yet taken, the emitted actions not
/// yet applied, and every action applied so far, in order.
pub struct Snapshot<S: Reducer> {
    pub state: S,
    pub inbox: Seq<S::Action>,
    pub pending: Seq<S::Action>,
    pub trace: Seq<S::Action>,
}

/// One step of the store from `m` to `n`: the oldest pending action is applied if there is
/// one, else the oldest sent action is taken and applied; with neither, nothing changes.
pub open spec fn step<S: Reducer>(m: Snapshot<S>, n: Snapshot<S>) -> bool {
    if m.pending.len() > 0 {
        let a = m.pending[0];
        &&& m.state.transition(a, n.state)
        &&& n.inbox == m.inbox
        &&& n.pending == m.pending.drop_first() + m.state.emits(a)
        &&& n.trace == m.trace.push(a)
    } else if m.inbox.len() > 0 {
        let a = m.inbox[0];
        &&& m.state.transition(a, n.state)
        &&& n.inbox == m.inbox.drop_first()
        &&& n.pending == m.state.emits(a)
        &&& n.trace == m.trace.push(a)
    } else {
        n == m
    }
}

/// An action sent to the store from `m` to `n`: it joins the end of the inbox.
pub open spec fn sent<S: Reducer>(m: Snapshot<S>, n: Snapshot<S>) -> bool {
    &&& n.state == m.state
    &&& n.pending == m.pending
    &&& n.trace == m.trace
    &&& n.inbox.len() == m.inbox.len() + 1
    &&& n.inbox.take(m.inbox.len() as int) == m.inbox
}

/// A run of the store: each snapshot follows the one before by a step or by a send.
pub open spec fn is_run<S: Reducer>(ms: Seq<Snapshot<S>>) -> bool {
    forall|i: int|
        0 <= i < ms.len() - 1 ==> step(#[trigger] ms[i], ms[i + 1]) || sent(ms[i], ms[i + 1])
}

/// The owner of one state, applying the actions sent to it in the order described above.
pub struct Store<S: Reducer> {
    state: S,
    inbox: VecDeque<S::Action>,
    effects: Effects<S::Action>,
    trace: Ghost<Seq<S::Action>>,
}

impl<S: Reducer> Store<S> {
    /// The store as a value.
    pub closed spec fn snapshot(&self) -> Snapshot<S> {
        Snapshot {
            state: self.state,
            inbox: self.inbox@,
            pending: self.effects@,
            trace: self.trace@,
        }
    }

    /// A store that owns `state`, with nothing sent or applied.
    pub fn with_initial(state: S) -> (r: Store<S>)
        ensures
            r.snapshot() == (Snapshot::<S> {
                state,
                inbox: Seq::empty(),
                pending: Seq::empty(),
                trace: Seq::empty(),
            }),
    {
        Store { state, inbox: VecDeque::new(), effects: Effects::new(), trace: Ghost(Seq::empty()) }
    }

    /// Sends `action` to the store: it is applied after everything sent before it and after
    /// the cascades of those actions.
    pub fn send(&mut self, action: S::Action)
        ensures
            final(self).snapshot() == (Snapshot::<S> {
                inbox: old(self).snapshot().inbox.push(action),
                ..old(self).snapshot()
            }),
    {
        self.inbox.push_back(action);
    }

    /// Applies one action, as [`step`] says; returns `false` when there was none to apply.
    pub fn step(&mut self) -> (r: bool)
        ensures
            step(old(self).snapshot(), final(self).snapshot()),
            r == (old(self).snapshot().pending.len() > 0 || old(self).snapshot().inbox.len() > 0),
    {
        match self.effects.next_action() {
            Some(a) => {
                let ghost a0 = a;
                let ghost s0 = self.state;
                self.state.reduce(a, &mut self.effects);
                self.trace = Ghost(self.trace@.push(a0));
                assert(self.effects@ == old(self).snapshot().pending.drop_first() + s0.emits(a0));
                true
            },
            None => match self.inbox.pop_front() {
                Some(a) => {
                    let ghost a0 = a;
                    let ghost s0 = self.state;
                    self.state.reduce(a, &mut self.effects);
                    self.trace = Ghost(self.trace@.push(a0));
                    assert(self.effects@ =~= s0.emits(a0));
                    true
                },
                None => false,
            },
        }
    }

    /// Returns `true` when every action sent has been applied, with its whole cascade.
    pub fn is_idle(&self) -> (r: bool)
        ensures
            r == (self.snapshot().pending.len() == 0 && self.snapshot().inbox.len() == 0),
    {
        self.effects.is_empty() && self.inbox.len() == 0
    }

    /// The current state.
    pub fn state(&self) -> (r: &S)
        ensures
            *r == self.snapshot().state,
    {
        &self.state
    }

    /// Ends the store and hands back its state.
    pub fn into_inner(self) -> (r: S)
        ensures
            r == self.snapshot().state,
    {
        self.state
    }
}

/// The inductive part of [`lemma_cascade_atomicity`]: how far the cascade of the first sent
/// action has come after `n` moves.
proof fn lemma_cascade_prefix<S: Reducer>(ms: Seq<Snapshot<S>>, n: int)
    requires
        is_run(ms),
        0 <= n < ms.len(),
        ms[0].pending.len() == 0,
        ms[0].inbox.len() > 0,
        forall|j: int, s: S|
            0 <= j < ms[0].state.emits(ms[0].inbox[0]).len() ==> #[trigger] s.emits(
                ms[0].state.emits(ms[0].inbox[0])[j],
            ) == Seq::<S::Action>::empty(),
    ensures
        ({
            let a = ms[0].inbox[0];
            let out = ms[0].state.emits(a);
            let t = ms[n].trace.len() - ms[0].trace.len();
            &&& t >= 0
            &&& t == 0 ==> ms[n].pending.len() == 0 && ms[n].inbox.len() > 0 && ms[n].inbox[0]
                == a && ms[n].state == ms[0].state && ms[n].trace == ms[0].trace
            &&& 1 <= t <= out.len() + 1 ==> ms[n].trace == ms[0].trace + seq![a] + out.take(
                t - 1,
            ) && ms[n].pending == out.skip(t - 1)
        }),
    decreases n,
{
    let a = ms[0].inbox[0];
    let out = ms[0].state.emits(a);
    if n > 0 {
        lemma_cascade_prefix(ms, n - 1);
        let m = ms[n - 1];
        let k = ms[n];
        let t = m.trace.len() - ms[0].trace.len();
        assert(step(ms[n - 1], ms[n]) || sent(ms[n - 1], ms[n]));
        if sent(m, k) {
            if t == 0 {
                assert(k.inbox[0] == m.inbox.take(m.inbox.len() as int)[0]);
            }
        } else {
            if t == 0 {
                assert(k.pending == out);
                assert(k.trace =~= ms[0].trace + seq![a] + out.take(0));
                assert(k.pending =~= out.skip(0));
            } else if t <= out.len() {
                assert(m.pending[0] == out[t - 1]);
                assert(m.state.emits(out[t - 1]) == Seq::<S::Action>::empty());
                assert(k.pending =~= out.skip(t));
                assert(k.trace =~= ms[0].trace + seq![a] + out.take(t));
            }
        }
    }
}

/// Cascade atomicity: in any run that starts with no cascade in progress, whatever is sent
/// meanwhile, the first actions applied are the oldest sent action `a` and then, in emission
/// order, the actions that `a` emits, provided that those emit nothing further.
pub proof fn lemma_cascade_atomicity<S: Reducer>(ms: Seq<Snapshot<S>>)
    requires
        is_run(ms),
        ms.len() > 0,
        ms[0].pending.len() == 0,
        ms[0].inbox.len() > 0,
        forall|j: int, s: S|
            0 <= j < ms[0].state.emits(ms[0].inbox[0]).len() ==> #[trigger] s.emits(
                ms[0].state.emits(ms[0].inbox[0])[j],
            ) == Seq::<S::Action>::empty(),
    ensures
        forall|n: int|
            0 <= n < ms.len() ==> {
                let expected = ms[0].trace + seq![ms[0].inbox[0]] + ms[0].state.emits(
                    ms[0].inbox[0],
                );
                let applied = (#[trigger] ms[n]).trace;
                applied.len() <= expected.len() ==> applied == expected.take(applied.len() as int)
            },
{
    let a = ms[0].inbox[0];
    let out = ms[0].state.emits(a);
    let expected = ms[0].trace + seq![a] + out;
    assert forall|n: int| 0 <= n < ms.len() implies {
        let applied = (#[trigger] ms[n]).trace;
        applied.len() <= expected.len() ==> applied == expected.take(applied.len() as int)
    } by {
        lemma_cascade_prefix(ms, n);
        let t = ms[n].trace.len() - ms[0].trace.len();
        if ms[n].trace.len() <= expected.len() {
            if t == 0 {
                assert(ms[n].trace =~= expected.take(ms[n].trace.len() as int));
            } else {
                assert(ms[n].trace =~= expected.take(ms[n].trace.len() as int));
            }
        }
    }
}

/// The inductive part of [`lemma_cascade_uninterrupted`].
proof fn lemma_uninterrupted_prefix<S: Reducer>(ms: Seq<Snapshot<S>>, n: int)
    requires
        is_run(ms),
        1 <= n < ms.len(),
        ms[0].pending.len() == 0,
        ms[0].inbox.len() > 0,
        step(ms[0], ms[1]),
        forall|k: int| 1 <= k < n ==> #[trigger] ms[k].pending.len() > 0,
    ensures
        ({
            let first = ms[0];
            let len = first.inbox.len() - 1;
            &&& ms[n].trace.len() > first.trace.len()
            &&& ms[n].trace.take(first.trace.len() + 1 as int) == first.trace.push(first.inbox[0])
            &&& ms[n].inbox.len() >= len
            &&& ms[n].inbox.take(len) == first.inbox.drop_first()
        }),
    decreases n,
{
    let first = ms[0];
    let len = first.inbox.len() - 1;
    if n == 1 {
        assert(ms[1].trace.take(first.trace.len() + 1 as int) =~= first.trace.push(first.inbox[0]));
        assert(ms[1].inbox.take(len) =~= first.inbox.drop_first());
    } else {
        lemma_uninterrupted_prefix(ms, n - 1);
        let m = ms[n - 1];
        let k = ms[n];
        assert(m.pending.len() > 0);
        assert(step(ms[n - 1], ms[n]) || sent(ms[n - 1], ms[n]));
        if sent(m, k) {
            assert(k.inbox.take(len) =~= m.inbox.take(len)) by {
                assert forall|j: int| 0 <= j < len implies k.inbox.take(len)[j] == m.inbox.take(
                    len,
                )[j] by {
                    assert(k.inbox.take(m.inbox.len() as int)[j] == k.inbox[j]);
                }
            }
        } else {
            assert(k.trace.take(first.trace.len() + 1 as int) =~= m.trace.take(first.trace.len() + 1 as int));
        }
    }
}

/// Cascade atomicity, in general: take any moment at which no cascade is pending and a sent
/// action `e` is taken. As long as the cascade that `e` starts (the actions it emits, those
/// they emit, and so on, at any depth) is not drained, every action applied belongs to it,
/// and none of the actions sent after `e` is taken, however many are sent meanwhile. Once
/// it is drained, the next action applied is the one sent right after `e`. Applied at each
/// such moment in turn, this orders the cascades of any number of sent actions one after
/// the other, each strictly between its own action and the next one sent.
pub proof fn lemma_cascade_uninterrupted<S: Reducer>(ms: Seq<Snapshot<S>>)
    requires
        is_run(ms),
        ms.len() >= 2,
        ms[0].pending.len() == 0,
        ms[0].inbox.len() > 0,
        step(ms[0], ms[1]),
        forall|k: int| 1 <= k < ms.len() - 1 ==> #[trigger] ms[k].pending.len() > 0,
    ensures
        ({
            let first = ms[0];
            let last = ms.last();
            &&& last.trace.take(first.trace.len() + 1 as int) == first.trace.push(first.inbox[0])
            &&& last.inbox.len() >= first.inbox.len() - 1
            &&& last.inbox.take(first.inbox.len() - 1 as int) == first.inbox.drop_first()
            &&& forall|k: int|
                1 <= k < ms.len() - 1 ==> step(#[trigger] ms[k], ms[k + 1]) ==> ms[k
                    + 1].trace == ms[k].trace.push(ms[k].pending[0])
            &&& last.pending.len() == 0 && first.inbox.len() >= 2 ==> forall|next: Snapshot<S>|
                step(last, next) ==> next.trace == last.trace.push(first.inbox[1])
        }),
{
    let first = ms[0];
    lemma_uninterrupted_prefix(ms, ms.len() - 1);
    let last = ms.last();
    if last.pending.len() == 0 && first.inbox.len() >= 2 {
        assert(last.inbox[0] == last.inbox.take(first.inbox.len() - 1 as int)[0]);
    }
}

/// No sent action overtakes a cascade: a step taken while emitted actions are pending
/// applies the oldest of them and leaves the inbox as it was.
pub proof fn lemma_pending_first<S: Reducer>(m: Snapshot<S>, n: Snapshot<S>)
    requires
        step(m, n),
        m.pending.len() > 0,
    ensures
        n.inbox == m.inbox,
        n.trace == m.trace.push(m.pending[0]),
        n.pending == m.pending.drop_first() + m.state.emits(m.pending[0]),
{
}

} // verus!
