use composable::reducer::{Effects, Reducer};
use composable::store::Store;

#[derive(Clone, Debug, PartialEq)]
enum Action {
    Internal(char),
    External(char),
}

#[derive(Default)]
struct State {
    characters: Vec<char>,
}

impl Reducer for State {
    type Action = Action;

    fn reduce(&mut self, action: Action, send: &mut Effects<Action>) {
        match action {
            Action::Internal(ch) => self.characters.push(ch),
            Action::External(ch) => {
                self.characters.push(ch);
                if ch == '1' {
                    send.action(Action::Internal('A'));
                    send.action(Action::Internal('B'));
                    send.action(Action::Internal('C'));
                    send.action(Action::Internal('D'));
                }
            }
        }
    }
}

#[test]
fn test_action_ordering_guarantees() {
    let mut store = Store::with_initial(State::default());

    store.send(Action::External('1'));
    store.send(Action::External('2'));
    store.send(Action::External('3'));

    while store.step() {}

    assert_eq!(store.state().characters, vec!['1', 'A', 'B', 'C', 'D', '2', '3']);
}

#[test]
fn test_into_inner_returns() {
    let store = Store::with_initial(State::default());
    let state = store.into_inner();
    assert!(state.characters.is_empty());
}

#[test]
fn cascade_is_not_interrupted_by_later_sends() {
    let mut store = Store::with_initial(State::default());

    store.send(Action::External('1'));
    assert!(store.step());
    store.send(Action::External('2'));
    assert!(store.step());
    store.send(Action::External('3'));
    while store.step() {}

    assert!(store.is_idle());
    assert_eq!(store.state().characters, vec!['1', 'A', 'B', 'C', 'D', '2', '3']);
}

#[test]
fn idle_store_does_nothing() {
    let mut store = Store::with_initial(State::default());
    assert!(store.is_idle());
    assert!(!store.step());
    assert!(store.state().characters.is_empty());
}

struct Nested(Vec<String>);

impl Reducer for Nested {
    type Action = (char, u8);

    fn reduce(&mut self, action: (char, u8), send: &mut Effects<(char, u8)>) {
        let (name, depth) = action;
        self.0.push(format!("{}{}", name, depth));
        if depth > 0 {
            send.action((name, depth - 1));
            send.action((name.to_ascii_uppercase(), depth - 1));
        }
    }
}

#[test]
fn nested_cascades_finish_before_the_next_send() {
    let mut store = Store::with_initial(Nested(Vec::new()));
    store.send(('a', 2));
    assert!(store.step());
    store.send(('b', 0));
    assert!(store.step());
    store.send(('c', 1));
    while store.step() {}
    assert_eq!(
        store.into_inner().0,
        vec!["a2", "a1", "A1", "a0", "A0", "A0", "A0", "b0", "c1", "c0", "C0"]
    );
}
