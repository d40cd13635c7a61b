use composable::channel::{Channel, Received};

#[test]
fn values_arrive_in_order() {
    let mut channel = Channel::new();
    assert!(channel.send(1).is_ok());
    assert!(channel.send(2).is_ok());
    assert!(matches!(channel.receive(), Received::Value(1)));
    assert!(matches!(channel.receive(), Received::Value(2)));
    assert!(matches!(channel.receive(), Received::Empty));
}

#[test]
fn closes_after_last_strong_sender_and_drain() {
    let mut channel = Channel::new();
    channel.add_sender();
    channel.send('a').unwrap();
    channel.drop_sender();
    channel.drop_sender();
    assert!(matches!(channel.receive(), Received::Value('a')));
    assert!(matches!(channel.receive(), Received::Closed));
    assert!(matches!(channel.receive(), Received::Closed));
}

#[test]
fn send_after_receiver_is_gone_fails() {
    let mut channel = Channel::new();
    channel.drop_receiver();
    assert_eq!(channel.send(9), Err(9));
}
