use tool_web::bus::BroadcastBus;
use tool_web::registry::ParticipantRegistry;
use tool_web::session::{format_chat_line, ChatSession};

#[test]
fn exactly_one_of_two_sessions_wins_a_contested_name() {
    let mut reg = ParticipantRegistry::new();
    let mut first = ChatSession::new();
    let mut second = ChatSession::new();
    first.on_connect();
    second.on_connect();
    let won = first.on_name_frame(String::from("alice"), &mut reg);
    assert_eq!(won, Some(String::from("alice joined.")));
    assert!(first.is_active());
    let lost = second.on_name_frame(String::from("alice"), &mut reg);
    assert_eq!(lost, None);
    assert!(second.is_awaiting_name());
    assert!(!second.is_active());
}

#[test]
fn empty_name_is_reprompted() {
    let mut reg = ParticipantRegistry::new();
    let mut session = ChatSession::new();
    session.on_connect();
    assert_eq!(session.on_name_frame(String::new(), &mut reg), None);
    assert!(session.is_awaiting_name());
    assert!(session.on_name_frame(String::from("bob"), &mut reg).is_some());
    assert!(session.is_active());
}

#[test]
fn peer_session_receives_prefixed_chat_line() {
    let mut reg = ParticipantRegistry::new();
    let mut bus = BroadcastBus::new(100);

    let mut bob = ChatSession::new();
    bob.on_connect();
    let mut carol = ChatSession::new();
    carol.on_connect();

    let bob_joined = bob.on_name_frame(String::from("bob"), &mut reg).unwrap();
    bus.publish(bob_joined);
    let mut carol_rx = bus.subscribe();
    let carol_joined = carol.on_name_frame(String::from("carol"), &mut reg).unwrap();
    bus.publish(carol_joined);
    assert_eq!(carol_rx.pull(&bus), Some(String::from("carol joined.")));

    let line = bob.on_chat_frame("hi");
    assert_eq!(line, String::from("bob: hi"));
    bus.publish(line);
    assert_eq!(carol_rx.pull(&bus), Some(String::from("bob: hi")));
    assert_eq!(carol_rx.pull(&bus), None);
}

#[test]
fn closing_releases_the_claim_and_announces_departure() {
    let mut reg = ParticipantRegistry::new();
    let mut session = ChatSession::new();
    session.on_connect();
    session.on_name_frame(String::from("bob"), &mut reg);
    assert_eq!(session.current_name(), Some(&String::from("bob")));
    let farewell = session.on_close(&mut reg);
    assert_eq!(farewell, Some(String::from("bob left.")));
    assert!(session.is_closed());
    assert!(!reg.is_claimed(&String::from("bob")));
    // the name is free again for a new session
    let mut next = ChatSession::new();
    next.on_connect();
    assert!(next.on_name_frame(String::from("bob"), &mut reg).is_some());
}

#[test]
fn close_before_joining_releases_nothing() {
    let mut reg = ParticipantRegistry::new();
    assert!(reg.try_claim(String::from("alice")));
    let mut session = ChatSession::new();
    session.on_connect();
    let farewell = session.on_close(&mut reg);
    assert_eq!(farewell, None);
    assert!(session.is_closed());
    assert!(reg.is_claimed(&String::from("alice")));
}

#[test]
fn chat_lines_carry_the_sender_prefix() {
    assert_eq!(format_chat_line("bob", "hi"), String::from("bob: hi"));
    assert_eq!(format_chat_line("a", ""), String::from("a: "));
}
