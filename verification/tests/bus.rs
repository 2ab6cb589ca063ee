use tool_web::bus::BroadcastBus;

#[test]
fn every_live_subscriber_sees_a_publish_in_order() {
    let mut bus = BroadcastBus::new(100);
    let mut first = bus.subscribe();
    let mut second = bus.subscribe();
    bus.publish(String::from("one"));
    bus.publish(String::from("two"));
    assert_eq!(first.pull(&bus), Some(String::from("one")));
    assert_eq!(first.pull(&bus), Some(String::from("two")));
    assert_eq!(first.pull(&bus), None);
    assert_eq!(second.pull(&bus), Some(String::from("one")));
    assert_eq!(second.pull(&bus), Some(String::from("two")));
    assert_eq!(second.pull(&bus), None);
}

#[test]
fn late_subscriber_does_not_observe_earlier_publish() {
    let mut bus = BroadcastBus::new(100);
    bus.publish(String::from("before"));
    let mut sub = bus.subscribe();
    assert_eq!(sub.pull(&bus), None);
    bus.publish(String::from("after"));
    assert_eq!(sub.pull(&bus), Some(String::from("after")));
    assert_eq!(sub.pull(&bus), None);
}

#[test]
fn slow_subscriber_loses_only_the_oldest_messages() {
    let mut bus = BroadcastBus::new(2);
    let mut sub = bus.subscribe();
    bus.publish(String::from("one"));
    bus.publish(String::from("two"));
    bus.publish(String::from("three"));
    // capacity 2: "one" was discarded, delivery resumes at "two"
    assert_eq!(sub.pull(&bus), Some(String::from("two")));
    assert_eq!(sub.pull(&bus), Some(String::from("three")));
    assert_eq!(sub.pull(&bus), None);
}

#[test]
fn publisher_is_never_blocked_with_no_subscribers() {
    let mut bus = BroadcastBus::new(2);
    bus.publish(String::from("a"));
    bus.publish(String::from("b"));
    bus.publish(String::from("c"));
    let mut sub = bus.subscribe();
    assert_eq!(sub.pull(&bus), None);
}
