//! Composites whose base logic sees the whole value.
//!
//! A [`Recursive`] state pairs base [`Logic`] with a value that holds children. An action
//! first runs the base logic on the whole value, which may change any part of it: reset a
//! child, or switch which variant of an [`Alternate`] is active. The same action is then
//! routed ([`Route`]) into the children as they are after the base logic: every
//! [`Child`] of a [`Pair`], in declaration order, and only the active variant of an
//! [`Alternate`]. A child whose action type the action does not convert to is left alone.
use vstd::prelude::*;

use crate::reducer::{lifted, ActionRoute, Effects, Reducer};

verus! {

/// Values that hand a parent action of type `P` on to the children they hold.
pub trait Route<P>: Sized {
    /// Whether `next` is a value that routing `action` can leave.
    spec fn route_transition(self, action: P, next: Self) -> bool;

    /// The actions, converted to `P`, that routing `action` emits, in order.
    spec fn route_emits(self, action: P) -> Seq<P>;

    /// Hands `action` on to the children.
    fn route(&mut self, action: &P, send: &mut Effects<P>)
        ensures
            old(self).route_transition(*action, *final(self)),
            final(send)@ == old(send)@ + old(self).route_emits(*action),
    ;
}

/// One child: it reduces the parent action if that converts to the child's action type.
pub struct Child<C>(pub C);

impl<P: ActionRoute<C::Action>, C: Reducer> Route<P> for Child<C> {
    open spec fn route_transition(self, action: P, next: Self) -> bool {
        match action.to_child_spec() {
            Some(c) => self.0.transition(c, next.0),
            None => next == self,
        }
    }

    open spec fn route_emits(self, action: P) -> Seq<P> {
        match action.to_child_spec() {
            Some(c) => lifted::<P, C::Action>(self.0.emits(c)),
            None => Seq::empty(),
        }
    }

    fn route(&mut self, action: &P, send: &mut Effects<P>) {
        match action.to_child() {
            Some(c) => {
                let mut child_send: Effects<C::Action> = Effects::new();
                self.0.reduce(c, &mut child_send);
                send.scope(child_send);
            },
            None => {
                assert(send@ =~= send@ + Seq::<P>::empty());
            },
        }
    }
}

/// Two groups of children, consulted in order: `first`, then `second`.
pub struct Pair<X, Y> {
    pub first: X,
    pub second: Y,
}

impl<P, X: Route<P>, Y: Route<P>> Route<P> for Pair<X, Y> {
    open spec fn route_transition(self, action: P, next: Self) -> bool {
        &&& self.first.route_transition(action, next.first)
        &&& self.second.route_transition(action, next.second)
    }

    open spec fn route_emits(self, action: P) -> Seq<P> {
        self.first.route_emits(action) + self.second.route_emits(action)
    }

    fn route(&mut self, action: &P, send: &mut Effects<P>) {
        self.first.route(action, send);
        self.second.route(action, send);
        assert(send@ =~= old(send)@ + (old(self).first.route_emits(*action) + old(
            self,
        ).second.route_emits(*action)));
    }
}

/// A state that is one of two alternatives; only the active one is ever consulted.
pub enum Alternate<A, B> {
    First(A),
    Second(B),
}

impl<P, A: Reducer, B: Reducer> Route<P> for Alternate<A, B> where
    P: ActionRoute<A::Action> + ActionRoute<B::Action>,
 {
    open spec fn route_transition(self, action: P, next: Self) -> bool {
        match self {
            Alternate::First(a) => match <P as ActionRoute<A::Action>>::to_child_spec(&action) {
                Some(c) => next is First && a.transition(c, next->First_0),
                None => next == self,
            },
            Alternate::Second(b) => match <P as ActionRoute<B::Action>>::to_child_spec(&action) {
                Some(c) => next is Second && b.transition(c, next->Second_0),
                None => next == self,
            },
        }
    }

    open spec fn route_emits(self, action: P) -> Seq<P> {
        match self {
            Alternate::First(a) => match <P as ActionRoute<A::Action>>::to_child_spec(&action) {
                Some(c) => lifted::<P, A::Action>(a.emits(c)),
                None => Seq::empty(),
            },
            Alternate::Second(b) => match <P as ActionRoute<B::Action>>::to_child_spec(&action) {
                Some(c) => lifted::<P, B::Action>(b.emits(c)),
                None => Seq::empty(),
            },
        }
    }

    fn route(&mut self, action: &P, send: &mut Effects<P>) {
        match self {
            Alternate::First(a) => match <P as ActionRoute<A::Action>>::to_child(action) {
                Some(c) => {
                    let mut child_send: Effects<A::Action> = Effects::new();
                    a.reduce(c, &mut child_send);
                    send.scope(child_send);
                },
                None => {
                    assert(send@ =~= send@ + Seq::<P>::empty());
                },
            },
            Alternate::Second(b) => match <P as ActionRoute<B::Action>>::to_child(action) {
                Some(c) => {
                    let mut child_send: Effects<B::Action> = Effects::new();
                    b.reduce(c, &mut child_send);
                    send.scope(child_send);
                },
                None => {
                    assert(send@ =~= send@ + Seq::<P>::empty());
                },
            },
        }
    }
}

/// The base logic of a composite, run on the whole composite value `S`.
///
/// An impl that changes the value or emits actions states so by overriding `next` and
/// `emits`; the defaults say that it does neither.
pub trait Logic<S>: Sized {
    /// All of the actions that the composite handles, its children's included.
    type Action;

    /// The value after the base logic handled `action`; by default the value as it was.
    open spec fn next(&self, state: S, action: Self::Action) -> S {
        state
    }

    /// The actions that the base logic emits for `action`, in order; by default none.
    open spec fn emits(&self, state: S, action: Self::Action) -> Seq<Self::Action> {
        Seq::empty()
    }

    /// Runs the base logic on the whole value.
    fn reduce(&self, state: &mut S, action: &Self::Action, send: &mut Effects<Self::Action>)
        ensures
            *final(state) == self.next(*old(state), *action),
            final(send)@ == old(send)@ + self.emits(*old(state), *action),
    ;
}

/// A composite value together with its base logic: the logic runs first, on the whole
/// value, then the action is routed into the children of the value as the logic left it.
pub struct Recursive<L, S> {
    pub logic: L,
    pub state: S,
}

impl<L: Logic<S>, S: Route<L::Action>> Reducer for Recursive<L, S> {
    type Action = L::Action;

    open spec fn transition(self, action: L::Action, next: Self) -> bool {
        &&& next.logic == self.logic
        &&& self.logic.next(self.state, action).route_transition(action, next.state)
    }

    open spec fn emits(self, action: L::Action) -> Seq<L::Action> {
        self.logic.emits(self.state, action) + self.logic.next(self.state, action).route_emits(
            action,
        )
    }

    fn reduce(&mut self, action: L::Action, send: &mut Effects<L::Action>) {
        self.logic.reduce(&mut self.state, &action, send);
        self.state.route(&action, send);
    }
}

/// Alternate routing: after the base logic, only the variant then active is consulted. If
/// the action converts for it, it takes a transition and its actions follow the base
/// logic's; otherwise the value is what the base logic left and only the base logic emits.
pub proof fn lemma_alternate_routing<L, A: Reducer, B: Reducer>(
    composite: Recursive<L, Alternate<A, B>>,
    action: L::Action,
    next: Recursive<L, Alternate<A, B>>,
) where L: Logic<Alternate<A, B>>, L::Action: ActionRoute<A::Action> + ActionRoute<B::Action>
    requires
        composite.transition(action, next),
    ensures
        ({
            let mid = composite.logic.next(composite.state, action);
            let base = composite.logic.emits(composite.state, action);
            &&& mid matches Alternate::First(a) ==> match <L::Action as ActionRoute<
                A::Action,
            >>::to_child_spec(&action) {
                Some(c) => next.state is First && a.transition(c, next.state->First_0)
                    && composite.emits(action) == base + lifted::<L::Action, A::Action>(
                    a.emits(c),
                ),
                None => next.state == mid && composite.emits(action) == base,
            }
            &&& mid matches Alternate::Second(b) ==> match <L::Action as ActionRoute<
                B::Action,
            >>::to_child_spec(&action) {
                Some(c) => next.state is Second && b.transition(c, next.state->Second_0)
                    && composite.emits(action) == base + lifted::<L::Action, B::Action>(
                    b.emits(c),
                ),
                None => next.state == mid && composite.emits(action) == base,
            }
        }),
{
    let base = composite.logic.emits(composite.state, action);
    assert(base + Seq::<L::Action>::empty() =~= base);
}

} // verus!
