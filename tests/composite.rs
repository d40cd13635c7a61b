use composable::composite::{Alternate, Child, Logic, Pair, Recursive};
use composable::reducer::{ActionRoute, Effects, Reducer};

#[derive(Clone, Debug, PartialEq)]
struct Counter {
    total: i64,
}

#[derive(Clone, Debug, PartialEq)]
enum CounterAction {
    Add(i64),
    Echo,
}

impl Reducer for Counter {
    type Action = CounterAction;

    fn reduce(&mut self, action: CounterAction, send: &mut Effects<CounterAction>) {
        match action {
            CounterAction::Add(n) => self.total += n,
            CounterAction::Echo => send.action(CounterAction::Add(1)),
        }
    }
}

#[derive(Clone, Debug, PartialEq)]
struct Login {
    attempts: u32,
}

#[derive(Clone, Debug, PartialEq)]
enum LoginAction {
    Try,
}

impl Reducer for Login {
    type Action = LoginAction;

    fn reduce(&mut self, _action: LoginAction, _send: &mut Effects<LoginAction>) {
        self.attempts += 1;
    }
}

#[derive(Clone, Debug, PartialEq)]
enum Action {
    LoggedIn(CounterAction),
    LoggedOut(LoginAction),
    SignIn,
    SignOut,
}

impl ActionRoute<CounterAction> for Action {
    fn from_child(c: CounterAction) -> Action {
        Action::LoggedIn(c)
    }

    fn to_child(&self) -> Option<CounterAction> {
        match self {
            Action::LoggedIn(c) => Some(c.clone()),
            _ => None,
        }
    }
}

impl ActionRoute<LoginAction> for Action {
    fn from_child(c: LoginAction) -> Action {
        Action::LoggedOut(c)
    }

    fn to_child(&self) -> Option<LoginAction> {
        match self {
            Action::LoggedOut(c) => Some(c.clone()),
            _ => None,
        }
    }
}

struct Session;

impl Logic<Alternate<Counter, Login>> for Session {
    type Action = Action;

    fn reduce(&self, state: &mut Alternate<Counter, Login>, action: &Action, _send: &mut Effects<Action>) {
        match action {
            Action::SignIn => *state = Alternate::First(Counter { total: 0 }),
            Action::SignOut => *state = Alternate::Second(Login { attempts: 0 }),
            _ => {}
        }
    }
}

fn session() -> Recursive<Session, Alternate<Counter, Login>> {
    Recursive { logic: Session, state: Alternate::Second(Login { attempts: 0 }) }
}

fn total(state: &Alternate<Counter, Login>) -> Option<i64> {
    match state {
        Alternate::First(c) => Some(c.total),
        Alternate::Second(_) => None,
    }
}

#[test]
fn only_the_active_alternative_is_consulted() {
    let mut s = session();
    let mut send = Effects::new();
    s.reduce(Action::LoggedIn(CounterAction::Add(5)), &mut send);
    assert!(matches!(s.state, Alternate::Second(Login { attempts: 0 })));

    s.reduce(Action::LoggedOut(LoginAction::Try), &mut send);
    assert!(matches!(s.state, Alternate::Second(Login { attempts: 1 })));
    assert!(send.is_empty());
}

#[test]
fn base_logic_switches_the_variant_before_routing() {
    let mut s = session();
    let mut send = Effects::new();
    s.reduce(Action::SignIn, &mut send);
    assert_eq!(total(&s.state), Some(0));

    s.reduce(Action::LoggedIn(CounterAction::Add(3)), &mut send);
    assert_eq!(total(&s.state), Some(3));

    s.reduce(Action::LoggedIn(CounterAction::Echo), &mut send);
    assert_eq!(send.into_vec(), vec![Action::LoggedIn(CounterAction::Add(1))]);

    let mut send = Effects::new();
    s.reduce(Action::SignOut, &mut send);
    assert_eq!(total(&s.state), None);
}

// Base logic that sees both children of a struct composite and resets one of them.

#[derive(Clone, Debug, PartialEq)]
enum PairAction {
    Left(CounterAction),
    Right(LoginAction),
    ResetLeft,
}

impl ActionRoute<CounterAction> for PairAction {
    fn from_child(c: CounterAction) -> PairAction {
        PairAction::Left(c)
    }

    fn to_child(&self) -> Option<CounterAction> {
        match self {
            PairAction::Left(c) => Some(c.clone()),
            _ => None,
        }
    }
}

impl ActionRoute<LoginAction> for PairAction {
    fn from_child(c: LoginAction) -> PairAction {
        PairAction::Right(c)
    }

    fn to_child(&self) -> Option<LoginAction> {
        match self {
            PairAction::Right(c) => Some(c.clone()),
            _ => None,
        }
    }
}

struct Reset;

impl Logic<Pair<Child<Counter>, Child<Login>>> for Reset {
    type Action = PairAction;

    fn reduce(
        &self,
        state: &mut Pair<Child<Counter>, Child<Login>>,
        action: &PairAction,
        _send: &mut Effects<PairAction>,
    ) {
        if *action == PairAction::ResetLeft {
            state.first.0.total = 0;
        }
    }
}

#[test]
fn struct_composite_base_sees_whole_value() {
    let mut s = Recursive {
        logic: Reset,
        state: Pair { first: Child(Counter { total: 0 }), second: Child(Login { attempts: 0 }) },
    };
    let mut send = Effects::new();
    s.reduce(PairAction::Left(CounterAction::Add(7)), &mut send);
    s.reduce(PairAction::Right(LoginAction::Try), &mut send);
    assert_eq!(s.state.first.0.total, 7);
    assert_eq!(s.state.second.0.attempts, 1);

    s.reduce(PairAction::ResetLeft, &mut send);
    assert_eq!(s.state.first.0.total, 0);
    assert_eq!(s.state.second.0.attempts, 1);
    assert!(send.is_empty());
}
