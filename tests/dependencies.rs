use composable::dependencies::{
    DefaultCell, Dependency, DependencyDefault, MissingDependency, Ref, Scopes,
};

#[derive(Clone, Copy, Debug, Default, PartialEq)]
struct Clock(u64);

impl DependencyDefault for Clock {}

#[test]
fn absent_without_registration() {
    let scopes: Scopes<u32> = Scopes::new();
    let dep = Dependency::get(&scopes);
    assert!(dep.is_none());
    assert!(!dep.is_some());
    assert_eq!(dep.as_slice(), &[] as &[u32]);
    assert_eq!(dep.iter().count(), 0);
    assert_eq!(dep.copied(), None);
    assert_eq!(dep.as_deref(), None);
}

#[test]
fn nested_scopes_see_innermost_and_restore() {
    let scopes: Scopes<u32> = Scopes::new();
    let inner = scopes.with(1, |s1| s1.with(2, |s2| Dependency::get(s2).copied()));
    assert_eq!(inner, Some(2));
    let middle = scopes.with(1, |s1| Dependency::get(s1).copied());
    assert_eq!(middle, Some(1));
    assert_eq!(Dependency::get(&scopes).copied(), None);
    assert_eq!(scopes.depth(), 0);
}

#[test]
fn outer_registration_is_visible_again_after_inner_scope() {
    let scopes: Scopes<u32> = Scopes::new();
    let seen = scopes.with(10, |outer| {
        let inner = outer.with(20, |s| Dependency::get(s).copied());
        (inner, Dependency::get(outer).copied())
    });
    assert_eq!(seen, (Some(20), Some(10)));
}

#[test]
fn option_like_accessors_when_present() {
    let scopes: Scopes<u32> = Scopes::new();
    scopes.with(5, |s| {
        let dep = Dependency::get(s);
        assert!(dep.is_some_and(|v| *v == 5));
        assert!(!dep.is_some_and(|v| *v == 6));
        assert_eq!(dep.as_slice(), &[5]);
        assert_eq!(dep.iter().copied().collect::<Vec<u32>>(), vec![5]);
        assert_eq!(*dep.expect("registered"), 5);
        assert_eq!(*dep.unwrap(), 5);
        assert_eq!(*dep.unwrap_or(9).get(), 5);
        assert!(matches!(dep.unwrap_or(9), Ref::Borrowed(_)));
        assert_eq!(*dep.unwrap_or_else(|| 9).get(), 5);
        assert_eq!(*dep.unwrap_or_default().get(), 5);
        assert_eq!(dep.map(|v| v * 2), Some(10));
        assert_eq!(dep.inspect(|_| {}), Some(&5));
        assert_eq!(dep.map_or(0, |v| v + 1), 6);
        assert_eq!(dep.map_or_else(|| 0, |v| v + 2), 7);
        assert_eq!(dep.ok_or("absent"), Ok(&5));
        assert_eq!(dep.ok_or_else(|| "absent"), Ok(&5));
        assert_eq!(dep.and(Some('x')), Some('x'));
        assert_eq!(dep.and_then(|v| if *v > 3 { Some(*v) } else { None }), Some(5));
        assert_eq!(dep.filter(|v| *v == 5), Some(&5));
        assert_eq!(dep.filter(|v| *v == 4), None);
        assert_eq!(dep.or(Some(8)).map(|r| *r.get()), Some(5));
        assert_eq!(dep.or_else(|| Some(8)).map(|r| *r.get()), Some(5));
        assert_eq!(dep.xor(None).map(|r| *r.get()), Some(5));
        assert!(dep.xor(Some(8)).is_none());
        assert_eq!(dep.copied(), Some(5));
        assert_eq!(dep.cloned(), Some(5));
    });
}

#[test]
fn option_like_accessors_when_absent() {
    let scopes: Scopes<u32> = Scopes::new();
    let dep = Dependency::get(&scopes);
    assert!(!dep.is_some_and(|_| true));
    assert_eq!(*dep.unwrap_or(9).get(), 9);
    assert!(matches!(dep.unwrap_or(9), Ref::Owned(9)));
    assert_eq!(*dep.unwrap_or_else(|| 4).get(), 4);
    assert_eq!(*dep.unwrap_or_default().get(), 0);
    assert_eq!(dep.map(|v| v * 2), None);
    assert_eq!(dep.inspect(|_| {}), None);
    assert_eq!(dep.map_or(3, |v| v + 1), 3);
    assert_eq!(dep.map_or_else(|| 11, |v| v + 2), 11);
    assert_eq!(dep.ok_or("absent"), Err("absent"));
    assert_eq!(dep.ok_or_else(|| "gone"), Err("gone"));
    assert_eq!(dep.and(Some('x')), None);
    assert_eq!(dep.and_then(|v| Some(*v)), None);
    assert_eq!(dep.filter(|_| true), None);
    assert_eq!(dep.or(Some(8)).map(|r| *r.get()), Some(8));
    assert!(dep.or(None).is_none());
    assert_eq!(dep.or_else(|| Some(6)).map(|r| *r.get()), Some(6));
    assert_eq!(dep.xor(Some(8)).map(|r| *r.get()), Some(8));
    assert!(dep.xor(None).is_none());
    assert_eq!(dep.cloned(), None);
}

#[test]
fn get_or_default_falls_back() {
    let scopes: Scopes<u32> = Scopes::new();
    assert_eq!(Dependency::get_or_default(&scopes), 0);
    assert_eq!(scopes.with(42, |s| Dependency::get_or_default(s)), 42);
}

#[test]
fn default_is_built_once_and_shared() {
    let scopes: Scopes<Clock> = Scopes::new();
    let mut defaults = DefaultCell::new();
    assert!(!defaults.is_built());

    let mut first = Dependency::get(&scopes);
    let a: &Clock = first.get_or_insert_default(&mut defaults);
    assert!(defaults.is_built());

    let mut second = Dependency::get(&scopes);
    let b: &Clock = second.get_or_insert_default(&mut defaults);
    assert!(std::ptr::eq(a, b));
    assert_eq!(*second.unwrap(), Clock(0));
}

#[test]
fn registered_value_wins_over_default() {
    let scopes: Scopes<Clock> = Scopes::new();
    let mut defaults = DefaultCell::new();
    let seen = scopes.with(Clock(7), |s| *Dependency::get(s).get_or_insert_default(&mut defaults));
    assert_eq!(seen, Clock(7));
    assert!(!defaults.is_built());
}

#[test]
fn test_mode_refuses_to_build_a_default() {
    let scopes: Scopes<Clock> = Scopes::new();
    let mut defaults = DefaultCell::for_tests();
    assert!(defaults.is_test_mode());
    let mut dep = Dependency::get(&scopes);
    assert_eq!(dep.try_get_or_insert_default(&mut defaults).err(), Some(MissingDependency));
    assert!(!defaults.is_built());
    assert!(dep.is_none());
}

#[test]
fn test_mode_accepts_a_registered_value() {
    let scopes: Scopes<Clock> = Scopes::new();
    let mut defaults = DefaultCell::for_tests();
    let seen = scopes.with(Clock(3), |s| {
        Dependency::get(s).try_get_or_insert_default(&mut defaults).map(|c| *c)
    });
    assert_eq!(seen.ok(), Some(Clock(3)));
    assert!(!defaults.is_built());
}
