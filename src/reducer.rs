//! Reducers and the algebra that composes them.
//!
//! A [`Reducer`] is a pure transition: [`Reducer::transition`] relates the states before and
//! after an action and [`Reducer::emits`] the actions it hands to its [`Effects`], in order. A [`Composite`] runs a
//! parent first and then routes the same action to one child, when the parent's action type
//! converts to the child's ([`ActionRoute`]); what the child emits is lifted back. Nesting
//! composites gives any number of children, consulted in declaration order. A
//! [`KeyedState`] is a collection of child states addressed by key through [`Keyed`] actions.
use std::collections::VecDeque;
use vstd::prelude::*;

verus! {

/// The actions emitted by one reducer invocation, waiting to be applied, oldest first.
pub struct Effects<A> {
    pending: VecDeque<A>,
}

impl<A> View for Effects<A> {
    type V = Seq<A>;

    closed spec fn view(&self) -> Seq<A> {
        self.pending@
    }
}

impl<A> Effects<A> {
    /// Effects with nothing emitted yet.
    pub fn new() -> (r: Effects<A>)
        ensures
            r@ == Seq::<A>::empty(),
    {
        Effects { pending: VecDeque::new() }
    }

    /// Emits one more action, to be applied after the actions already emitted.
    pub fn action(&mut self, action: A)
        ensures
            final(self)@ == old(self)@.push(action),
    {
        self.pending.push_back(action);
    }

    /// The number of actions waiting.
    pub fn len(&self) -> (r: usize)
        ensures
            r == self@.len(),
    {
        self.pending.len()
    }

    /// Returns `true` if no action is waiting.
    pub fn is_empty(&self) -> (r: bool)
        ensures
            r == (self@.len() == 0),
    {
        self.pending.len() == 0
    }

    /// Takes the oldest waiting action.
    pub fn next_action(&mut self) -> (r: Option<A>)
        ensures
            old(self)@.len() == 0 ==> r is None && final(self)@ == old(self)@,
            old(self)@.len() > 0 ==> r == Some(old(self)@[0]) && final(self)@
                == old(self)@.drop_first(),
    {
        self.pending.pop_front()
    }

    /// Appends every action of `other`, in order.
    pub fn append(&mut self, other: Effects<A>)
        ensures
            final(self)@ == old(self)@ + other@,
    {
        let mut rest = other;
        while rest.pending.len() > 0
            invariant
                self@ + rest@ == old(self)@ + other@,
            decreases rest@.len(),
        {
            let a = rest.pending.pop_front().unwrap();
            self.pending.push_back(a);
            assert(self@ + rest@ =~= old(self)@ + other@) by {
                assert(old(self)@ + other@ =~= self@.drop_last() + seq![a] + rest@);
            }
        }
        assert(rest@ =~= Seq::<A>::empty());
        assert(self@ =~= old(self)@ + other@);
    }

    /// Appends every action that a child emitted, each converted into this action type.
    pub fn scope<C>(&mut self, child: Effects<C>) where A: ActionRoute<C>
        ensures
            final(self)@ == old(self)@ + lifted::<A, C>(child@),
    {
        let mut rest = child;
        while rest.pending.len() > 0
            invariant
                self@ + lifted::<A, C>(rest@) == old(self)@ + lifted::<A, C>(child@),
            decreases rest@.len(),
        {
            let ghost before = rest@;
            let c = rest.pending.pop_front().unwrap();
            let a = A::from_child(c);
            self.pending.push_back(a);
            assert(lifted::<A, C>(before) =~= seq![a] + lifted::<A, C>(rest@));
            assert(self@ + lifted::<A, C>(rest@) =~= old(self)@ + lifted::<A, C>(child@)) by {
                assert(self@ =~= self@.drop_last() + seq![a]);
            }
        }
        assert(lifted::<A, C>(rest@) =~= Seq::<A>::empty());
        assert(self@ =~= old(self)@ + lifted::<A, C>(child@));
    }

    /// Appends every action that the child at `key` of a keyed collection emitted, each
    /// wrapped as a [`Keyed`] action for that key and converted into this action type.
    pub fn scope_keyed<C>(&mut self, key: u64, child: Effects<C>) where A: ActionRoute<Keyed<C>>
        ensures
            final(self)@ == old(self)@ + lifted::<A, Keyed<C>>(keyed_all(key, child@)),
    {
        let mut wrapped: Effects<Keyed<C>> = Effects::new();
        wrapped.wrap_keyed(key, child);
        self.scope(wrapped);
    }

    /// The actions emitted, oldest first.
    pub fn into_vec(self) -> (r: Vec<A>)
        ensures
            r@ == self@,
    {
        let mut out: Vec<A> = Vec::new();
        let mut rest = self;
        while rest.pending.len() > 0
            invariant
                out@ + rest@ == self@,
            decreases rest@.len(),
        {
            let a = rest.pending.pop_front().unwrap();
            out.push(a);
            assert(out@ + rest@ =~= self@) by {
                assert(out@ =~= out@.drop_last() + seq![a]);
            }
        }
        assert(rest@ =~= Seq::<A>::empty());
        assert(out@ =~= self@);
        out
    }
}

impl<C> Effects<Keyed<C>> {
    /// Appends every action of `child`, wrapped for `key`.
    pub fn wrap_keyed(&mut self, key: u64, child: Effects<C>)
        ensures
            final(self)@ == old(self)@ + keyed_all(key, child@),
    {
        let mut rest = child;
        while rest.pending.len() > 0
            invariant
                self@ + keyed_all(key, rest@) == old(self)@ + keyed_all(key, child@),
            decreases rest@.len(),
        {
            let ghost before = rest@;
            let c = rest.pending.pop_front().unwrap();
            let k = Keyed { key, action: c };
            self.pending.push_back(k);
            assert(keyed_all(key, before) =~= seq![k] + keyed_all(key, rest@));
            assert(self@ + keyed_all(key, rest@) =~= old(self)@ + keyed_all(key, child@)) by {
                assert(self@ =~= self@.drop_last() + seq![k]);
            }
        }
        assert(keyed_all(key, rest@) =~= Seq::<Keyed<C>>::empty());
        assert(self@ =~= old(self)@ + keyed_all(key, child@));
    }
}

/// The conversions between a parent's actions and the actions of one of its children.
///
/// An impl that routes anything must override both spec functions to say what its
/// conversions do; the defaults say that no action is routed.
///
/// `to_child` says whether a parent action is meant for the child (and as which action);
/// `from_child` turns an action that the child emitted into a parent action.
pub trait ActionRoute<C>: Sized {
    /// The parent action that stands for the child action `c`; an impl states it.
    open spec fn from_child_spec(c: C) -> Self {
        arbitrary()
    }

    /// The child action that a parent action stands for, if any; by default none.
    open spec fn to_child_spec(&self) -> Option<C> {
        None
    }

    fn from_child(c: C) -> (r: Self)
        ensures
            r == Self::from_child_spec(c),
    ;

    fn to_child(&self) -> (r: Option<C>)
        ensures
            r == self.to_child_spec(),
    ;
}

/// Child actions converted into parent actions, in order.
pub open spec fn lifted<A: ActionRoute<C>, C>(s: Seq<C>) -> Seq<A> {
    s.map_values(|c: C| A::from_child_spec(c))
}

/// A state that changes only through actions.
///
/// `transition` and `emits` are what every proof about a reducer rests on. Their defaults
/// say that any state may follow and that nothing is emitted: an impl that emits actions
/// must override `emits`, and one with a known effect on the state should override
/// `transition`, or nothing proved here speaks of what it does.
pub trait Reducer: Sized {
    /// All of the actions that can change the state.
    type Action;

    /// Whether `next` is a state that handling `action` can leave; by default any state.
    open spec fn transition(self, action: Self::Action, next: Self) -> bool {
        true
    }

    /// The actions that handling `action` emits, in order; by default none.
    open spec fn emits(self, action: Self::Action) -> Seq<Self::Action> {
        Seq::empty()
    }

    /// Applies `action` to the state and emits further actions into `send`.
    fn reduce(&mut self, action: Self::Action, send: &mut Effects<Self::Action>)
        ensures
            old(self).transition(action, *final(self)),
            final(send)@ == old(send)@ + old(self).emits(action),
    ;
}

/// The logic of a composite state that runs before any of its children are consulted.
///
/// [`Parent`] turns it into a [`Reducer`] that [`Composite`] combines with children. As for
/// [`Reducer`], an impl that emits actions must override `emits`. For base logic that must
/// see the children as well (to reset one, or to switch an alternate), see
/// [`crate::composite::Logic`].
pub trait RecursiveReducer: Sized {
    /// All of the actions that the composite handles, its children's included.
    type Action;

    /// Whether `next` is a state that the composite's own handling of `action` can leave;
    /// by default any state.
    open spec fn transition(self, action: Self::Action, next: Self) -> bool {
        true
    }

    /// The actions that the composite's own handling of `action` emits, in order; by
    /// default none.
    open spec fn emits(self, action: Self::Action) -> Seq<Self::Action> {
        Seq::empty()
    }

    /// Performs the composite's own handling of `action`.
    fn reduce(&mut self, action: Self::Action, send: &mut Effects<Self::Action>)
        ensures
            old(self).transition(action, *final(self)),
            final(send)@ == old(send)@ + old(self).emits(action),
    ;
}

/// The base logic of a composite, as a reducer.
pub struct Parent<R>(pub R);

impl<R: RecursiveReducer> Reducer for Parent<R> {
    type Action = R::Action;

    open spec fn transition(self, action: R::Action, next: Self) -> bool {
        self.0.transition(action, next.0)
    }

    open spec fn emits(self, action: R::Action) -> Seq<R::Action> {
        self.0.emits(action)
    }

    fn reduce(&mut self, action: R::Action, send: &mut Effects<R::Action>) {
        self.0.reduce(action, send);
    }
}

/// A parent reducer followed by one child, consulted with the same action.
///
/// The parent always runs first. The child then runs only if the action converts to the
/// child's action type, and what it emits is converted back.
pub struct Composite<P, C> {
    pub parent: P,
    pub child: C,
}

impl<P: Reducer, C: Reducer> Reducer for Composite<P, C> where P::Action: ActionRoute<C::Action> {
    type Action = P::Action;

    open spec fn transition(self, action: P::Action, next: Self) -> bool {
        &&& self.parent.transition(action, next.parent)
        &&& match action.to_child_spec() {
            Some(c) => self.child.transition(c, next.child),
            None => next.child == self.child,
        }
    }

    open spec fn emits(self, action: P::Action) -> Seq<P::Action> {
        self.parent.emits(action) + match action.to_child_spec() {
            Some(c) => lifted::<P::Action, C::Action>(self.child.emits(c)),
            None => Seq::empty(),
        }
    }

    fn reduce(&mut self, action: P::Action, send: &mut Effects<P::Action>) {
        let routed = action.to_child();
        self.parent.reduce(action, send);
        match routed {
            Some(c) => {
                let mut child_send: Effects<C::Action> = Effects::new();
                self.child.reduce(c, &mut child_send);
                send.scope(child_send);
            },
            None => {},
        }
    }
}

/// An optional child: no state never routes, a present state reduces as itself.
impl<S: Reducer> Reducer for Option<S> {
    type Action = S::Action;

    open spec fn transition(self, action: S::Action, next: Self) -> bool {
        match self {
            Some(s) => next is Some && s.transition(action, next->Some_0),
            None => next is None,
        }
    }

    open spec fn emits(self, action: S::Action) -> Seq<S::Action> {
        match self {
            Some(s) => s.emits(action),
            None => Seq::empty(),
        }
    }

    fn reduce(&mut self, action: S::Action, send: &mut Effects<S::Action>) {
        match self {
            Some(s) => s.reduce(action, send),
            None => {
                assert(send@ =~= send@ + Seq::<S::Action>::empty());
            },
        }
    }
}

/// An action for the child at `key` of a keyed collection.
pub struct Keyed<A> {
    pub key: u64,
    pub action: A,
}

/// Child actions wrapped for `key`, in order.
pub open spec fn keyed_all<A>(key: u64, s: Seq<A>) -> Seq<Keyed<A>> {
    s.map_values(|a: A| Keyed { key, action: a })
}

/// The index of the first entry of `entries` with `key`, if any.
pub open spec fn key_index<S>(entries: Seq<(u64, S)>, key: u64) -> Option<int> {
    if exists|i: int| 0 <= i < entries.len() && #[trigger] entries[i].0 == key {
        Some(
            choose|i: int|
                0 <= i < entries.len() && #[trigger] entries[i].0 == key && forall|j: int|
                    0 <= j < i ==> entries[j].0 != key,
        )
    } else {
        None
    }
}

/// No two entries share a key.
pub open spec fn keys_unique<S>(entries: Seq<(u64, S)>) -> bool {
    forall|i: int, j: int|
        0 <= i < entries.len() && 0 <= j < entries.len() && i != j ==> entries[i].0
            != entries[j].0
}

/// A dynamically sized collection of child states, each under a unique key, in insertion
/// order.
pub struct KeyedState<S> {
    entries: Vec<(u64, S)>,
}

impl<S> View for KeyedState<S> {
    type V = Seq<(u64, S)>;

    closed spec fn view(&self) -> Seq<(u64, S)> {
        self.entries@
    }
}

impl<S> KeyedState<S> {
    /// The well-formedness of the collection: its keys are unique.
    pub open spec fn wf(&self) -> bool {
        keys_unique(self@)
    }

    /// The state stored under `key`, if any.
    pub open spec fn lookup(&self, key: u64) -> Option<S> {
        match key_index(self@, key) {
            Some(i) => Some(self@[i].1),
            None => None,
        }
    }

    /// An empty collection.
    pub fn new() -> (r: KeyedState<S>)
        ensures
            r@ == Seq::<(u64, S)>::empty(),
            r.wf(),
    {
        KeyedState { entries: Vec::new() }
    }

    /// The number of children.
    pub fn len(&self) -> (r: usize)
        ensures
            r == self@.len(),
    {
        self.entries.len()
    }

    /// The position of the child stored under `key`, if any.
    pub fn position(&self, key: u64) -> (r: Option<usize>)
        ensures
            r matches Some(i) ==> key_index(self@, key) == Some(i as int) && i < self@.len()
                && self@[i as int].0 == key,
            r is None ==> key_index(self@, key) is None,
    {
        let mut i: usize = 0;
        while i < self.entries.len()
            invariant
                i <= self.entries.len(),
                forall|j: int| 0 <= j < i ==> self@[j].0 != key,
            decreases self.entries.len() - i,
        {
            if self.entries[i].0 == key {
                let ghost gi = i as int;
                assert(0 <= gi < self@.len() && self@[gi].0 == key && forall|j: int|
                    0 <= j < gi ==> self@[j].0 != key);
                let ghost c = key_index(self@, key);
                assert(c is Some);
                let ghost ci = c->Some_0;
                assert(ci == gi) by {
                    if ci < gi {
                        assert(self@[ci].0 != key);
                    } else if ci > gi {
                        assert(self@[gi].0 != key);
                    }
                }
                return Some(i);
            }
            i = i + 1;
        }
        None
    }

    /// Returns `true` if a child is stored under `key`.
    pub fn contains_key(&self, key: u64) -> (r: bool)
        ensures
            r == self.lookup(key) is Some,
    {
        self.position(key).is_some()
    }

    /// A reference to the child stored under `key`, if any.
    pub fn get(&self, key: u64) -> (r: Option<&S>)
        ensures
            r is Some <==> self.lookup(key) is Some,
            r is Some ==> *r->Some_0 == self.lookup(key)->Some_0,
    {
        match self.position(key) {
            Some(i) => Some(&self.entries[i].1),
            None => None,
        }
    }

    /// Stores `state` under `key`: it replaces the child stored there, which is returned,
    /// or is appended as a new child.
    pub fn insert(&mut self, key: u64, state: S) -> (r: Option<S>)
        requires
            old(self).wf(),
        ensures
            final(self).wf(),
            old(self).lookup(key) is Some ==> r == old(self).lookup(key) && final(self)@
                == old(self)@.update(key_index(old(self)@, key)->Some_0, (key, state)),
            old(self).lookup(key) is None ==> r is None && final(self)@ == old(self)@.push(
                (key, state),
            ),
    {
        match self.position(key) {
            Some(i) => {
                let ghost before = self@;
                let (_, old_state) = self.entries.remove(i);
                self.entries.insert(i, (key, state));
                assert(self@ =~= before.update(i as int, (key, state)));
                assert(keys_unique(self@)) by {
                    assert forall|a: int, b: int|
                        0 <= a < self@.len() && 0 <= b < self@.len() && a != b implies self@[a].0
                        != self@[b].0 by {
                        assert(before[a].0 == self@[a].0);
                        assert(before[b].0 == self@[b].0);
                    }
                }
                Some(old_state)
            },
            None => {
                let ghost before = self@;
                self.entries.push((key, state));
                assert(keys_unique(self@)) by {
                    assert forall|a: int, b: int|
                        0 <= a < self@.len() && 0 <= b < self@.len() && a != b implies self@[a].0
                        != self@[b].0 by {
                        if a == before.len() {
                            assert(before[b].0 != key);
                        } else if b == before.len() {
                            assert(before[a].0 != key);
                        }
                    }
                }
                None
            },
        }
    }

    /// Removes the child stored under `key` and returns it, if any; the other children keep
    /// their order.
    pub fn remove(&mut self, key: u64) -> (r: Option<S>)
        requires
            old(self).wf(),
        ensures
            final(self).wf(),
            r == old(self).lookup(key),
            old(self).lookup(key) is Some ==> final(self)@ == old(self)@.remove(
                key_index(old(self)@, key)->Some_0,
            ),
            old(self).lookup(key) is None ==> final(self)@ == old(self)@,
    {
        match self.position(key) {
            Some(i) => {
                let ghost before = self@;
                let (_, s) = self.entries.remove(i);
                assert(keys_unique(self@)) by {
                    assert forall|a: int, b: int|
                        0 <= a < self@.len() && 0 <= b < self@.len() && a != b implies self@[a].0
                        != self@[b].0 by {
                        let a0 = if a < i { a } else { a + 1 };
                        let b0 = if b < i { b } else { b + 1 };
                        assert(before[a0].0 == self@[a].0);
                        assert(before[b0].0 == self@[b].0);
                    }
                }
                Some(s)
            },
            None => None,
        }
    }
}

impl<S: Reducer> Reducer for KeyedState<S> {
    type Action = Keyed<S::Action>;

    open spec fn transition(self, action: Keyed<S::Action>, next: Self) -> bool {
        match key_index(self@, action.key) {
            Some(i) => {
                &&& next@.len() == self@.len()
                &&& next@[i].0 == action.key
                &&& self@[i].1.transition(action.action, next@[i].1)
                &&& forall|j: int| 0 <= j < self@.len() && j != i ==> next@[j] == self@[j]
            },
            None => next@ == self@,
        }
    }

    open spec fn emits(self, action: Keyed<S::Action>) -> Seq<Keyed<S::Action>> {
        match key_index(self@, action.key) {
            Some(i) => keyed_all(action.key, self@[i].1.emits(action.action)),
            None => Seq::empty(),
        }
    }

    fn reduce(&mut self, action: Keyed<S::Action>, send: &mut Effects<Keyed<S::Action>>) {
        let Keyed { key, action: child_action } = action;
        match self.position(key) {
            Some(i) => {
                let mut child_send: Effects<S::Action> = Effects::new();
                let child = &mut self.entries[i].1;
                child.reduce(child_action, &mut child_send);
                send.wrap_keyed(key, child_send);
            },
            None => {
                assert(send@ =~= send@ + Seq::<Keyed<S::Action>>::empty());
            },
        }
    }
}

/// Under unique keys, the entry at `i` is the one found for its key.
proof fn lemma_key_index_at<S>(entries: Seq<(u64, S)>, key: u64, i: int)
    requires
        keys_unique(entries),
        0 <= i < entries.len(),
        entries[i].0 == key,
    ensures
        key_index(entries, key) == Some(i),
{
    assert(0 <= i < entries.len() && entries[i].0 == key && forall|j: int|
        0 <= j < i ==> entries[j].0 != key);
    let c = key_index(entries, key)->Some_0;
    assert(entries[c].0 == key);
}

/// Keyed routing: an action for key `K` changes at most the child under `K`, leaves every
/// other child as it was, and keeps the keys unique; where no child is under `K` it changes
/// nothing and emits nothing.
pub proof fn lemma_keyed_routing<S: Reducer>(
    children: KeyedState<S>,
    action: Keyed<S::Action>,
    next: KeyedState<S>,
)
    requires
        children.wf(),
        children.transition(action, next),
    ensures
        next.wf(),
        children.lookup(action.key) is None ==> next@ == children@ && children.emits(action)
            == Seq::<Keyed<S::Action>>::empty(),
        children.lookup(action.key) is Some ==> next.lookup(action.key) is Some
            && children.lookup(action.key)->Some_0.transition(
            action.action,
            next.lookup(action.key)->Some_0,
        ),
        forall|k: u64| k != action.key ==> #[trigger] next.lookup(k) == children.lookup(k),
{
    let old_entries = children@;
    let new_entries = next@;
    assert(new_entries.len() == old_entries.len());
    assert(forall|j: int| 0 <= j < old_entries.len() ==> new_entries[j].0 == old_entries[j].0);
    assert(keys_unique(new_entries));
    match key_index(old_entries, action.key) {
        Some(i) => {
            lemma_key_index_at(new_entries, action.key, i);
        },
        None => {},
    }
    assert forall|k: u64| k != action.key implies #[trigger] next.lookup(k) == children.lookup(k) by {
        if exists|i: int| 0 <= i < old_entries.len() && #[trigger] old_entries[i].0 == k {
            let i = choose|i: int| 0 <= i < old_entries.len() && #[trigger] old_entries[i].0 == k;
            lemma_key_index_at(old_entries, k, i);
            lemma_key_index_at(new_entries, k, i);
        } else {
            assert(!exists|i: int| 0 <= i < new_entries.len() && #[trigger] new_entries[i].0 == k)
                by {
                if exists|i: int| 0 <= i < new_entries.len() && #[trigger] new_entries[i].0 == k {
                    let i = choose|i: int|
                        0 <= i < new_entries.len() && #[trigger] new_entries[i].0 == k;
                    assert(old_entries[i].0 == k);
                }
            }
        }
    }
}

/// Composition order: for a parent with children `C1` then `C2`, an action that converts for
/// `C1` but not for `C2` runs the parent's own logic, then `C1`'s, emits the parent's actions
/// before `C1`'s, and leaves `C2`'s state untouched.
pub proof fn lemma_composition_order<P: Reducer, C1: Reducer, C2: Reducer>(
    composite: Composite<Composite<P, C1>, C2>,
    action: P::Action,
    next: Composite<Composite<P, C1>, C2>,
) where P::Action: ActionRoute<C1::Action> + ActionRoute<C2::Action>
    requires
        composite.transition(action, next),
        <P::Action as ActionRoute<C1::Action>>::to_child_spec(&action) is Some,
        <P::Action as ActionRoute<C2::Action>>::to_child_spec(&action) is None,
    ensures
        ({
            let c1 = <P::Action as ActionRoute<C1::Action>>::to_child_spec(&action)->Some_0;
            &&& composite.parent.parent.transition(action, next.parent.parent)
            &&& composite.parent.child.transition(c1, next.parent.child)
            &&& next.child == composite.child
            &&& composite.emits(action) == composite.parent.parent.emits(action) + lifted::<
                P::Action,
                C1::Action,
            >(composite.parent.child.emits(c1))
        }),
{
    let c1 = <P::Action as ActionRoute<C1::Action>>::to_child_spec(&action)->Some_0;
    assert(composite.emits(action) =~= composite.parent.parent.emits(action) + lifted::<
        P::Action,
        C1::Action,
    >(composite.parent.child.emits(c1)));
}

} // verus!
