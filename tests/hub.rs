use rust_chat::hub::{Hub, QUEUE_CAPACITY};
use rust_chat::message::{Message, UserMessage};

fn um(s: &str) -> UserMessage {
    UserMessage { username: None, message: Message::Text(String::from(s)) }
}

fn drain(h: &mut Hub, addr: &str) -> Vec<UserMessage> {
    let mut out = Vec::new();
    while let Some(m) = h.next_for(addr) {
        out.push(m);
    }
    out
}

fn three() -> Hub {
    let mut h = Hub::new();
    assert!(h.register(String::from("A")));
    assert!(h.register(String::from("B")));
    assert!(h.register(String::from("C")));
    h
}

#[test]
fn one_entry_per_address() {
    let mut h = three();
    assert!(!h.register(String::from("B")));
    assert_eq!(h.len(), 3);
    assert!(h.is_registered("C"));
    assert!(!h.is_registered("D"));
}

#[test]
fn publisher_gets_no_echo() {
    let mut h = three();
    assert_eq!(h.publish("A", &um("M")), 0);
    assert!(drain(&mut h, "A").is_empty());
}

#[test]
fn every_other_peer_gets_it_once() {
    let mut h = three();
    h.publish("A", &um("M"));
    assert_eq!(drain(&mut h, "B"), vec![um("M")]);
    assert_eq!(drain(&mut h, "C"), vec![um("M")]);
    assert!(drain(&mut h, "B").is_empty());
}

#[test]
fn order_per_source_is_kept() {
    let mut h = three();
    h.publish("A", &um("1"));
    h.publish("C", &um("x"));
    h.publish("A", &um("2"));
    assert_eq!(drain(&mut h, "B"), vec![um("1"), um("x"), um("2")]);
    assert_eq!(drain(&mut h, "C"), vec![um("1"), um("2")]);
}

#[test]
fn removed_peer_gets_nothing_more() {
    let mut h = three();
    h.publish("A", &um("before"));
    assert!(h.unregister("B"));
    assert!(!h.is_registered("B"));
    assert!(!h.unregister("B"));
    h.publish("A", &um("after"));
    assert!(h.next_for("B").is_none());
    assert_eq!(drain(&mut h, "C"), vec![um("before"), um("after")]);
}

#[test]
fn full_queue_drops_new_message() {
    let mut h = Hub::new();
    h.register(String::from("A"));
    h.register(String::from("B"));
    for _ in 0..QUEUE_CAPACITY {
        assert_eq!(h.publish("A", &um("fill")), 0);
    }
    assert_eq!(h.publish("A", &um("lost")), 1);
    let got = drain(&mut h, "B");
    assert_eq!(got.len(), QUEUE_CAPACITY);
    assert!(got.iter().all(|m| *m == um("fill")));
}

#[test]
fn publish_from_unknown_origin_reaches_all() {
    let mut h = three();
    h.publish("Z", &um("hi"));
    assert_eq!(drain(&mut h, "A"), vec![um("hi")]);
}
