use chat_relay::authorization::{create_token_at, TokenAuthority};
use chat_relay::session::{
    Action, ChatMessage, Delivery, Event, Inbound, Session, WebsocketSignal, HUB_CAPACITY,
};
use tokio::sync::broadcast::error::TryRecvError;
use tokio::sync::broadcast::{channel, Receiver, Sender};

fn message(author: &str, text: &str) -> ChatMessage {
    ChatMessage { author: author.to_string(), message: text.to_string() }
}

fn poll(subscription: &mut Receiver<ChatMessage>) -> Option<Delivery> {
    match subscription.try_recv() {
        Ok(message) => Some(Delivery::Message(message)),
        Err(TryRecvError::Lagged(missed)) => Some(Delivery::Lagged(missed)),
        Err(TryRecvError::Closed) => Some(Delivery::Closed),
        Err(TryRecvError::Empty) => None,
    }
}

fn carry_out(hub: &Sender<ChatMessage>, action: Action) {
    if let Action::Publish(message) = action {
        let _ = hub.send(message);
    }
}

fn drain(session: &mut Session, subscription: &mut Receiver<ChatMessage>) -> Vec<Action> {
    let authority = TokenAuthority::new([0; 32]);
    let mut actions = Vec::new();
    while let Some(delivery) = poll(subscription) {
        actions.push(session.step_at(&authority, Event::Delivery(delivery), 0));
    }
    actions
}

#[test]
fn hub_capacity_is_thirty_two() {
    assert_eq!(HUB_CAPACITY, 32);
}

#[test]
fn every_subscriber_gets_each_message_once_in_order() {
    let (hub, mut a) = channel::<ChatMessage>(HUB_CAPACITY);
    let mut b = hub.subscribe();
    let mut c = hub.subscribe();
    hub.send(message("alice", "one")).unwrap();
    hub.send(message("bob", "two")).unwrap();
    for subscription in [&mut a, &mut b, &mut c] {
        let mut session = Session::new();
        assert_eq!(
            drain(&mut session, subscription),
            vec![
                Action::Forward(message("alice", "one")),
                Action::Forward(message("bob", "two")),
            ]
        );
        assert_eq!(poll(subscription), None);
    }
}

#[test]
fn slow_subscriber_sees_one_lag_notice_then_the_surviving_tail() {
    let (hub, mut slow) = channel::<ChatMessage>(HUB_CAPACITY);
    let mut quick = hub.subscribe();
    let mut quick_session = Session::new();
    let mut seen = Vec::new();
    for i in 0..40 {
        hub.send(message("alice", &format!("{}", i))).unwrap();
        seen.extend(drain(&mut quick_session, &mut quick));
    }
    let all: Vec<Action> =
        (0..40).map(|i| Action::Forward(message("alice", &format!("{}", i)))).collect();
    assert_eq!(seen, all);

    assert_eq!(poll(&mut slow), Some(Delivery::Lagged(8)));
    let mut session = Session::new();
    let tail = drain(&mut session, &mut slow);
    assert_eq!(tail, all[8..].to_vec());
    assert!(!session.is_terminated());
}

#[test]
fn lag_notice_leaves_the_session_waiting() {
    let (hub, mut slow) = channel::<ChatMessage>(HUB_CAPACITY);
    for i in 0..33 {
        hub.send(message("alice", &format!("{}", i))).unwrap();
    }
    let mut session = Session::new();
    let actions = drain(&mut session, &mut slow);
    assert_eq!(actions.len(), 33);
    assert_eq!(actions[0], Action::Wait);
    assert_eq!(actions[1], Action::Forward(message("alice", "1")));
    assert_eq!(actions[32], Action::Forward(message("alice", "32")));
}

#[test]
fn authenticated_post_reaches_every_subscriber_and_the_sender() {
    let authority = TokenAuthority::new([0; 32]);
    let (hub, mut own) = channel::<ChatMessage>(HUB_CAPACITY);
    let mut second = hub.subscribe();
    let mut third = hub.subscribe();

    let mut alice = Session::new();
    let token = create_token_at(&authority, "alice", 0, [0; 12]).unwrap();
    let login = Event::Inbound(Inbound::Signal(WebsocketSignal::Authorization(Some(token))));
    carry_out(&hub, alice.step_at(&authority, login, 0));
    let post = Event::Inbound(Inbound::Signal(WebsocketSignal::Message("hello".to_string())));
    carry_out(&hub, alice.step_at(&authority, post, 0));

    let expected = vec![Action::Forward(message("alice", "hello"))];
    assert_eq!(drain(&mut alice, &mut own), expected);
    assert_eq!(drain(&mut Session::new(), &mut second), expected);
    assert_eq!(drain(&mut Session::new(), &mut third), expected);
}

#[test]
fn unauthenticated_post_reaches_nobody() {
    let authority = TokenAuthority::new([0; 32]);
    let (hub, mut own) = channel::<ChatMessage>(HUB_CAPACITY);
    let mut other = hub.subscribe();
    let mut session = Session::new();
    let post = Event::Inbound(Inbound::Signal(WebsocketSignal::Message("hi".to_string())));
    let action = session.step_at(&authority, post, 0);
    assert_eq!(action, Action::Close);
    carry_out(&hub, action);
    assert_eq!(poll(&mut own), None);
    assert_eq!(poll(&mut other), None);
}

#[test]
fn subscriber_sees_only_what_is_published_after_it_subscribed() {
    let (hub, mut early) = channel::<ChatMessage>(HUB_CAPACITY);
    hub.send(message("alice", "before")).unwrap();
    let mut late = hub.subscribe();
    hub.send(message("alice", "after")).unwrap();
    assert_eq!(
        drain(&mut Session::new(), &mut early),
        vec![
            Action::Forward(message("alice", "before")),
            Action::Forward(message("alice", "after")),
        ]
    );
    assert_eq!(
        drain(&mut Session::new(), &mut late),
        vec![Action::Forward(message("alice", "after"))]
    );
}
