//! Scoped dependency values.
//!
//! A [`Scopes`] value is the chain of registrations that is visible at one point of a
//! program, innermost last. [`Scopes::with`] runs a body with one more registration and
//! leaves the chain it was called on untouched, so the registration is gone on every way
//! out of the body. A [`Dependency`] is what a read of that chain found: it is *optionally*
//! present and offers the methods of an `Option`. Types with a [`DependencyDefault`] fall
//! back to a single cached default value, built at most once.
use std::rc::Rc;
use vstd::prelude::*;
use vstd::std_specs::iter::IteratorSpec;

verus! {

/// The value that a read of the registrations `regs` finds: the innermost one, if any.
pub open spec fn visible<T>(regs: Seq<T>) -> Option<T> {
    if regs.len() == 0 {
        None
    } else {
        Some(regs.last())
    }
}

/// The sequence of zero or one items that an optional value stands for.
pub open spec fn option_seq<T>(o: Option<T>) -> Seq<T> {
    match o {
        Some(v) => seq![v],
        None => Seq::empty(),
    }
}

/// The registrations of values of type `T` that are visible at one point, innermost last.
pub struct Scopes<T> {
    frames: Vec<Rc<T>>,
}

impl<T> View for Scopes<T> {
    type V = Seq<T>;

    closed spec fn view(&self) -> Seq<T> {
        self.frames@.map_values(|r: Rc<T>| *r)
    }
}

impl<T> Scopes<T> {
    /// A chain without any registration.
    pub fn new() -> (r: Scopes<T>)
        ensures
            r@ == Seq::<T>::empty(),
    {
        let frames: Vec<Rc<T>> = Vec::new();
        let r = Scopes { frames };
        assert(r@ =~= Seq::<T>::empty());
        r
    }

    /// The number of registrations in the chain.
    pub fn depth(&self) -> (r: usize)
        ensures
            r == self@.len(),
    {
        self.frames.len()
    }

    /// The chain with `value` registered inside all of the registrations of `self`.
    fn extended(&self, value: T) -> (r: Scopes<T>)
        ensures
            r@ == self@.push(value),
    {
        let mut frames: Vec<Rc<T>> = Vec::new();
        let mut i: usize = 0;
        while i < self.frames.len()
            invariant
                i <= self.frames.len(),
                frames@.len() == i,
                forall|j: int| 0 <= j < i ==> *frames@[j] == *self.frames@[j],
            decreases self.frames.len() - i,
        {
            frames.push(self.frames[i].clone());
            i = i + 1;
        }
        frames.push(Rc::new(value));
        let r = Scopes { frames };
        assert(r@ =~= self@.push(value));
        r
    }

    /// Runs `body` with `value` registered for the duration of the call.
    ///
    /// `self` is not changed: once `body` returns, reads see what they saw before.
    pub fn with<R, F: FnOnce(&Scopes<T>) -> R>(&self, value: T, body: F) -> (r: R)
        requires
            forall|s: Scopes<T>| s@ == self@.push(value) ==> body.requires((&s,)),
        ensures
            exists|s: Scopes<T>| s@ == self@.push(value) && body.ensures((&s,), r),
    {
        let inner = self.extended(value);
        body(&inner)
    }
}

/// Relies on `std::slice::from_ref`: a slice of length one that holds the referenced value.
#[verifier::external_body]
fn slice_of_one<T>(v: &T) -> (r: &[T])
    ensures
        r@ == seq![*v],
{
    std::slice::from_ref(v)
}

/// A value that is either borrowed from a dependency or owned by the caller.
pub enum Ref<'a, T> {
    Borrowed(&'a T),
    Owned(T),
}

impl<'a, T> Ref<'a, T> {
    /// The value held, borrowed or owned.
    pub open spec fn value(self) -> T {
        match self {
            Ref::Borrowed(v) => *v,
            Ref::Owned(v) => v,
        }
    }

    /// A reference to the value held.
    pub fn get(&self) -> (r: &T)
        ensures
            *r == self.value(),
    {
        match self {
            Ref::Borrowed(v) => *v,
            Ref::Owned(v) => v,
        }
    }
}

/// The result of reading the dependency of type `T`: the innermost registered value, if any.
pub struct Dependency<T> {
    inner: Option<Rc<T>>,
}

impl<T> View for Dependency<T> {
    type V = Option<T>;

    closed spec fn view(&self) -> Option<T> {
        match self.inner {
            Some(r) => Some(*r),
            None => None,
        }
    }
}

impl<T> Dependency<T> {
    /// Reads the dependency of type `T` from the registrations `scopes`.
    pub fn get(scopes: &Scopes<T>) -> (r: Dependency<T>)
        ensures
            r@ == visible(scopes@),
    {
        let n = scopes.frames.len();
        if n == 0 {
            Dependency { inner: None }
        } else {
            Dependency { inner: Some(scopes.frames[n - 1].clone()) }
        }
    }

    /// A dependency that is absent.
    pub fn absent() -> (r: Dependency<T>)
        ensures
            r@ is None,
    {
        Dependency { inner: None }
    }

    /// Returns `true` if the dependency is present.
    pub fn is_some(&self) -> (r: bool)
        ensures
            r == self@ is Some,
    {
        self.inner.is_some()
    }

    /// Returns `true` if the dependency is present and its value matches a predicate.
    pub fn is_some_and<F: FnOnce(&T) -> bool>(&self, f: F) -> (r: bool)
        requires
            self@ is Some ==> f.requires((&self@->Some_0,)),
        ensures
            self@ is None ==> !r,
            self@ is Some ==> f.ensures((&self@->Some_0,), r),
    {
        match self.as_deref() {
            Some(v) => f(v),
            None => false,
        }
    }

    /// Returns `true` if the dependency is absent.
    pub fn is_none(&self) -> (r: bool)
        ensures
            r == self@ is None,
    {
        self.inner.is_none()
    }

    /// A slice of the dependency value: one item if present, empty if absent.
    pub fn as_slice(&self) -> (r: &[T])
        ensures
            r@ == option_seq(self@),
    {
        match self.as_deref() {
            Some(v) => slice_of_one(v),
            None => {
                let empty: &[T] = &[];
                assert(empty@ =~= Seq::<T>::empty());
                empty
            },
        }
    }

    /// An iterator over the dependency value, if any.
    pub fn iter(&self) -> (r: std::slice::Iter<'_, T>)
        ensures
            r.remaining() == option_seq(self@).map_values(|v: T| &v),
    {
        self.as_slice().iter()
    }

    /// The dependency value; the dependency must be present.
    pub fn expect(&self, msg: &str) -> (r: &T)
        requires
            self@ is Some,
        ensures
            *r == self@->Some_0,
    {
        let rc = self.inner.as_ref().expect(msg);
        &**rc
    }

    /// The dependency value; the dependency must be present.
    pub fn unwrap(&self) -> (r: &T)
        requires
            self@ is Some,
        ensures
            *r == self@->Some_0,
    {
        self.expect("dependency is absent")
    }

    /// The dependency value if present, otherwise `default`.
    pub fn unwrap_or(&self, default: T) -> (r: Ref<'_, T>)
        ensures
            r is Borrowed <==> self@ is Some,
            r.value() == match self@ {
                Some(v) => v,
                None => default,
            },
    {
        match self.as_deref() {
            Some(v) => Ref::Borrowed(v),
            None => Ref::Owned(default),
        }
    }

    /// The dependency value if present, otherwise the result of `f`.
    pub fn unwrap_or_else<F: FnOnce() -> T>(&self, f: F) -> (r: Ref<'_, T>)
        requires
            self@ is None ==> f.requires(()),
        ensures
            r is Borrowed <==> self@ is Some,
            self@ is Some ==> r.value() == self@->Some_0,
            self@ is None ==> f.ensures((), r.value()),
    {
        match self.as_deref() {
            Some(v) => Ref::Borrowed(v),
            None => Ref::Owned(f()),
        }
    }

    /// The dependency value if present, otherwise `T::default()`.
    pub fn unwrap_or_default(&self) -> (r: Ref<'_, T>) where T: Default
        ensures
            r is Borrowed <==> self@ is Some,
            self@ is Some ==> r.value() == self@->Some_0,
            self@ is None ==> T::default.ensures((), r.value()),
    {
        match self.as_deref() {
            Some(v) => Ref::Borrowed(v),
            None => Ref::Owned(T::default()),
        }
    }

    /// Applies `f` to the dependency value, if present.
    pub fn map<U, F: FnOnce(&T) -> U>(&self, f: F) -> (r: Option<U>)
        requires
            self@ is Some ==> f.requires((&self@->Some_0,)),
        ensures
            r is Some <==> self@ is Some,
            self@ is Some ==> f.ensures((&self@->Some_0,), r->Some_0),
    {
        match self.as_deref() {
            Some(v) => Some(f(v)),
            None => None,
        }
    }

    /// Calls `f` with the dependency value, if present, and returns that value.
    pub fn inspect<F: FnOnce(&T)>(&self, f: F) -> (r: Option<&T>)
        requires
            self@ is Some ==> f.requires((&self@->Some_0,)),
        ensures
            r is Some <==> self@ is Some,
            self@ is Some ==> *r->Some_0 == self@->Some_0,
    {
        match self.as_deref() {
            Some(v) => {
                f(v);
                Some(v)
            },
            None => None,
        }
    }

    /// `default` if absent, otherwise `f` applied to the dependency value.
    pub fn map_or<U, F: FnOnce(&T) -> U>(&self, default: U, f: F) -> (r: U)
        requires
            self@ is Some ==> f.requires((&self@->Some_0,)),
        ensures
            self@ is None ==> r == default,
            self@ is Some ==> f.ensures((&self@->Some_0,), r),
    {
        match self.as_deref() {
            Some(v) => f(v),
            None => default,
        }
    }

    /// The result of `default` if absent, otherwise `f` applied to the dependency value.
    pub fn map_or_else<U, D: FnOnce() -> U, F: FnOnce(&T) -> U>(&self, default: D, f: F) -> (r: U)
        requires
            self@ is None ==> default.requires(()),
            self@ is Some ==> f.requires((&self@->Some_0,)),
        ensures
            self@ is None ==> default.ensures((), r),
            self@ is Some ==> f.ensures((&self@->Some_0,), r),
    {
        match self.as_deref() {
            Some(v) => f(v),
            None => default(),
        }
    }

    /// `Ok` with the dependency value if present, otherwise `Err(err)`.
    pub fn ok_or<E>(&self, err: E) -> (r: Result<&T, E>)
        ensures
            r is Ok <==> self@ is Some,
            self@ is Some ==> *r->Ok_0 == self@->Some_0,
            self@ is None ==> r->Err_0 == err,
    {
        match self.as_deref() {
            Some(v) => Ok(v),
            None => Err(err),
        }
    }

    /// `Ok` with the dependency value if present, otherwise `Err` with the result of `err`.
    pub fn ok_or_else<E, F: FnOnce() -> E>(&self, err: F) -> (r: Result<&T, E>)
        requires
            self@ is None ==> err.requires(()),
        ensures
            r is Ok <==> self@ is Some,
            self@ is Some ==> *r->Ok_0 == self@->Some_0,
            self@ is None ==> err.ensures((), r->Err_0),
    {
        match self.as_deref() {
            Some(v) => Ok(v),
            None => Err(err()),
        }
    }

    /// A reference to the dependency value, if present.
    pub fn as_deref(&self) -> (r: Option<&T>)
        ensures
            r is Some <==> self@ is Some,
            self@ is Some ==> *r->Some_0 == self@->Some_0,
    {
        match &self.inner {
            Some(rc) => Some(&**rc),
            None => None,
        }
    }

    /// `None` if absent, otherwise `rhs`.
    pub fn and<U>(&self, rhs: Option<U>) -> (r: Option<U>)
        ensures
            r == if self@ is Some { rhs } else { None },
    {
        if self.inner.is_some() {
            rhs
        } else {
            None
        }
    }

    /// `None` if absent, otherwise the result of `f` applied to the dependency value.
    pub fn and_then<U, F: FnOnce(&T) -> Option<U>>(&self, f: F) -> (r: Option<U>)
        requires
            self@ is Some ==> f.requires((&self@->Some_0,)),
        ensures
            self@ is None ==> r is None,
            self@ is Some ==> f.ensures((&self@->Some_0,), r),
    {
        match self.as_deref() {
            Some(v) => f(v),
            None => None,
        }
    }

    /// The dependency value if it is present and matches `predicate`, otherwise `None`.
    pub fn filter<P: FnOnce(&T) -> bool>(&self, predicate: P) -> (r: Option<&T>)
        requires
            self@ is Some ==> predicate.requires((&self@->Some_0,)),
        ensures
            self@ is None ==> r is None,
            self@ is Some ==> exists|keep: bool|
                predicate.ensures((&self@->Some_0,), keep) && (r is Some <==> keep),
            r is Some ==> *r->Some_0 == self@->Some_0,
    {
        match self.as_deref() {
            Some(v) => {
                let keep = predicate(v);
                if keep {
                    Some(v)
                } else {
                    None
                }
            },
            None => None,
        }
    }

    /// The dependency value if present, otherwise `rhs`.
    pub fn or(&self, rhs: Option<T>) -> (r: Option<Ref<'_, T>>)
        ensures
            r is Some <==> (self@ is Some || rhs is Some),
            self@ is Some ==> r->Some_0 is Borrowed && r->Some_0.value() == self@->Some_0,
            self@ is None && rhs is Some ==> r->Some_0 is Owned && r->Some_0.value()
                == rhs->Some_0,
    {
        match self.as_deref() {
            Some(v) => Some(Ref::Borrowed(v)),
            None => match rhs {
                Some(w) => Some(Ref::Owned(w)),
                None => None,
            },
        }
    }

    /// The dependency value if present, otherwise the result of `f`.
    pub fn or_else<F: FnOnce() -> Option<T>>(&self, f: F) -> (r: Option<Ref<'_, T>>)
        requires
            self@ is None ==> f.requires(()),
        ensures
            self@ is Some ==> r is Some && r->Some_0 is Borrowed && r->Some_0.value()
                == self@->Some_0,
            self@ is None && r is Some ==> r->Some_0 is Owned && f.ensures(
                (),
                Some(r->Some_0.value()),
            ),
            self@ is None && r is None ==> f.ensures((), None),
    {
        match self.as_deref() {
            Some(v) => Some(Ref::Borrowed(v)),
            None => {
                match f() {
                    Some(w) => Some(Ref::Owned(w)),
                    None => None,
                }
            },
        }
    }

    /// The one value present among the dependency and `rhs`, or `None` if both or neither are.
    pub fn xor(&self, rhs: Option<T>) -> (r: Option<Ref<'_, T>>)
        ensures
            r is Some <==> (self@ is Some != rhs is Some),
            self@ is Some && rhs is None ==> r->Some_0 is Borrowed && r->Some_0.value()
                == self@->Some_0,
            self@ is None && rhs is Some ==> r->Some_0 is Owned && r->Some_0.value()
                == rhs->Some_0,
    {
        match (self.as_deref(), rhs) {
            (Some(v), None) => Some(Ref::Borrowed(v)),
            (None, Some(w)) => Some(Ref::Owned(w)),
            _ => None,
        }
    }

    /// A copy of the dependency value, if present.
    pub fn copied(&self) -> (r: Option<T>) where T: Copy
        ensures
            r == self@,
    {
        match self.as_deref() {
            Some(v) => Some(*v),
            None => None,
        }
    }

    /// A clone of the dependency value, if present.
    pub fn cloned(&self) -> (r: Option<T>) where T: Clone
        ensures
            r is Some <==> self@ is Some,
            self@ is Some ==> T::clone.ensures((&self@->Some_0,), r->Some_0),
    {
        match self.as_deref() {
            Some(v) => Some(v.clone()),
            None => None,
        }
    }

    /// A copy of the dependency value visible in `scopes`, or `T::default()` if there is none.
    pub fn get_or_default(scopes: &Scopes<T>) -> (r: T) where T: Copy + Default
        ensures
            scopes@.len() > 0 ==> r == scopes@.last(),
            scopes@.len() == 0 ==> T::default.ensures((), r),
    {
        match Self::get(scopes).copied() {
            Some(v) => v,
            None => T::default(),
        }
    }
}

/// A type whose dependency always has a value: where none is registered, a default is built
/// once and cached for all later reads.
pub trait DependencyDefault: Default {
}

/// What a read with a fallback resolves to, and the cache after it: the registered value
/// `found` if any, else the cached default, else `fresh`, which is then cached.
pub open spec fn resolve_default<T>(found: Option<T>, cached: Option<T>, fresh: T) -> (T, Option<T>) {
    match found {
        Some(v) => (v, cached),
        None => match cached {
            Some(c) => (c, cached),
            None => (fresh, Some(fresh)),
        },
    }
}

/// The cached default value of a dependency type; empty until the first read that needs it.
pub struct DefaultCell<T> {
    cached: Option<Rc<T>>,
    testing: bool,
}

impl<T> View for DefaultCell<T> {
    type V = Option<T>;

    closed spec fn view(&self) -> Option<T> {
        match self.cached {
            Some(r) => Some(*r),
            None => None,
        }
    }
}

/// A read under test that found no registered value for a type with a default: tests must
/// register every dependency they use, so the default is not built.
#[derive(Clone, Copy, Debug, PartialEq, Eq, Structural)]
pub struct MissingDependency;

impl<T> DefaultCell<T> {
    /// A cell that holds no default yet and builds one on the first read that needs it.
    pub fn new() -> (r: DefaultCell<T>)
        ensures
            r@ is None,
            !r.in_test_mode(),
    {
        DefaultCell { cached: None, testing: false }
    }

    /// A cell for tests: it never builds a default, so every dependency must be registered.
    pub fn for_tests() -> (r: DefaultCell<T>)
        ensures
            r@ is None,
            r.in_test_mode(),
    {
        DefaultCell { cached: None, testing: true }
    }

    /// Whether the cell refuses to build a default.
    pub closed spec fn in_test_mode(&self) -> bool {
        self.testing
    }

    /// Returns `true` once the default has been built.
    pub fn is_built(&self) -> (r: bool)
        ensures
            r == self@ is Some,
    {
        self.cached.is_some()
    }

    /// Returns `true` if the cell refuses to build a default.
    pub fn is_test_mode(&self) -> (r: bool)
        ensures
            r == self.in_test_mode(),
    {
        self.testing
    }
}

impl<T: DependencyDefault> Dependency<T> {
    /// The dependency value; where none was registered, the default of `T`, built with
    /// `T::default()` on the first such read and taken from `defaults` on every later one.
    /// A cell for tests builds nothing, so there a value must be registered.
    pub fn get_or_insert_default(&mut self, defaults: &mut DefaultCell<T>) -> (r: &T)
        requires
            old(self)@ is Some || old(defaults)@ is Some || !old(defaults).in_test_mode(),
        ensures
            exists|fresh: T|
                (*r, final(defaults)@) == resolve_default(old(self)@, old(defaults)@, fresh),
            old(self)@ is None && old(defaults)@ is None ==> T::default.ensures((), *r),
            final(self)@ == Some(*r),
            final(defaults).in_test_mode() == old(defaults).in_test_mode(),
    {
        if self.inner.is_none() {
            match &defaults.cached {
                Some(c) => {
                    self.inner = Some(c.clone());
                },
                None => {
                    let value = T::default();
                    let built = Rc::new(value);
                    defaults.cached = Some(built.clone());
                    self.inner = Some(built);
                },
            }
        }
        let rc = self.inner.as_ref().unwrap();
        let r: &T = &**rc;
        assert((*r, defaults@) == resolve_default(old(self)@, old(defaults)@, *r));
        r
    }

    /// As [`Dependency::get_or_insert_default`], but where a cell for tests would have to
    /// build the default, the read fails and nothing is built.
    pub fn try_get_or_insert_default(&mut self, defaults: &mut DefaultCell<T>) -> (r: Result<
        &T,
        MissingDependency,
    >)
        ensures
            r is Err <==> (old(self)@ is None && old(defaults)@ is None && old(
                defaults,
            ).in_test_mode()),
            r is Err ==> *final(self) == *old(self) && *final(defaults) == *old(defaults),
            r matches Ok(v) ==> final(self)@ == Some(*v) && exists|fresh: T|
                (*v, final(defaults)@) == resolve_default(old(self)@, old(defaults)@, fresh),
            r matches Ok(v) ==> (old(self)@ is None && old(defaults)@ is None
                ==> T::default.ensures((), *v)),
    {
        if self.inner.is_none() && defaults.cached.is_none() && defaults.testing {
            Err(MissingDependency)
        } else {
            Ok(self.get_or_insert_default(defaults))
        }
    }
}

/// Nested registrations: a read inside `with(v1, || with(v2, || get()))` finds `v2`, a read
/// between the two finds `v1`, and the chain outside both is `regs` itself, so a read there
/// finds what it found before `v1` was registered.
pub proof fn lemma_nested_scopes<T>(regs: Seq<T>, v1: T, v2: T)
    ensures
        visible(regs.push(v1).push(v2)) == Some(v2),
        visible(regs.push(v1)) == Some(v1),
        regs.push(v1).push(v2).drop_last().drop_last() == regs,
{
    assert(regs.push(v1).push(v2).drop_last() =~= regs.push(v1));
    assert(regs.push(v1).drop_last() =~= regs);
}

/// Default once: two reads that find no registration resolve to the same value, the second
/// leaves the cache as the first left it, and a default that was already cached is kept.
pub proof fn lemma_default_once<T>(cached: Option<T>, fresh1: T, fresh2: T)
    ensures
        ({
            let (v1, c1) = resolve_default(None, cached, fresh1);
            let (v2, c2) = resolve_default(None, c1, fresh2);
            &&& v1 == v2
            &&& c2 == c1
            &&& c1 == Some(v1)
            &&& cached is Some ==> c1 == cached
        }),
{
}

} // verus!
