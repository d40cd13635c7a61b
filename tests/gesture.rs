use composable::gesture::{recognizer, Event, Gesture, Id, Response, Values};
use composable::reducer::ActionRoute;

#[test]
fn confirm_id_niche_optimization() {
    assert_eq!(std::mem::size_of::<Id>(), std::mem::size_of::<u128>());
}

fn id(n: u128) -> Id {
    Id::new(n).unwrap()
}

#[test]
fn id_zero_is_rejected() {
    assert!(Id::new(0).is_none());
    assert_eq!(Id::new(7).map(|i| i.get()), Some(7));
}

#[test]
fn press_inside_activates_and_release_inside_ends() {
    let mut values = Values::default();
    let a = id(1);

    let r = recognizer(a, Gesture::Began { n: 0 }, true, &mut values);
    assert_eq!(r, Some(Response::DownInside));
    assert_eq!(values.active, Some(a));
    assert_eq!(values.hover, Some(a));

    let r = recognizer(a, Gesture::Ended { n: 0 }, true, &mut values);
    assert_eq!(r, Some(Response::UpInside));
    assert_eq!(values, Values::default());
}

#[test]
fn press_outside_does_nothing() {
    let mut values = Values::default();
    let r = recognizer(id(1), Gesture::Began { n: 0 }, false, &mut values);
    assert_eq!(r, None);
    assert_eq!(values, Values::default());
}

#[test]
fn drag_exits_and_enters() {
    let mut values = Values::default();
    let a = id(3);
    recognizer(a, Gesture::Began { n: 0 }, true, &mut values);

    assert_eq!(recognizer(a, Gesture::Moved { n: 0 }, true, &mut values), Some(Response::DragInside));
    assert_eq!(recognizer(a, Gesture::Moved { n: 0 }, false, &mut values), Some(Response::DragExit));
    assert_eq!(values.hover, None);
    assert_eq!(recognizer(a, Gesture::Moved { n: 0 }, false, &mut values), Some(Response::DragOutside));
    assert_eq!(recognizer(a, Gesture::Moved { n: 0 }, true, &mut values), Some(Response::DragEnter));
    assert_eq!(values.hover, Some(a));
    recognizer(a, Gesture::Moved { n: 0 }, false, &mut values);
    assert_eq!(recognizer(a, Gesture::Ended { n: 0 }, false, &mut values), Some(Response::UpOutside));
    assert_eq!(values.active, None);
}

#[test]
fn another_active_element_blocks_press() {
    let mut values = Values::default();
    recognizer(id(1), Gesture::Began { n: 0 }, true, &mut values);
    let r = recognizer(id(2), Gesture::Began { n: 0 }, true, &mut values);
    assert_eq!(r, None);
    assert_eq!(values.active, Some(id(1)));
}

#[test]
fn event_routes_gestures_only() {
    let g = Gesture::Moved { n: 2 };
    assert_eq!(Event::from_child(g), Event::Gesture(g));
    assert_eq!(Event::Gesture(g).to_child(), Some(g));
    assert_eq!(ActionRoute::<Gesture>::to_child(&Event::Redraw), None);
    assert_eq!(ActionRoute::<Gesture>::to_child(&Event::Resize { width: 3, height: 4 }), None);
}
