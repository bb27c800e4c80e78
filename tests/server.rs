use rust_chat::client::{on_incoming, Effect};
use rust_chat::frame::FrameError;
use rust_chat::hub::Hub;
use rust_chat::message::{Message, UserMessage};
use rust_chat::server::{
    receive_step, send_step, Incoming, RecvAction, SendAction, ServerError, Session, StoredRow, WriteOutcome,
};

fn um(user: Option<&str>, m: Message) -> UserMessage {
    UserMessage { username: user.map(String::from), message: m }
}

fn text(s: &str) -> Message {
    Message::Text(String::from(s))
}

fn hub_abc() -> Hub {
    let mut h = Hub::new();
    h.register(String::from("A"));
    h.register(String::from("B"));
    h.register(String::from("C"));
    h
}

fn row(user: &str, msg: &str) -> Option<StoredRow> {
    Some(StoredRow { username: String::from(user), message: String::from(msg) })
}

/// Runs a receive step and, as the server does once the row is stored,
/// publishes what it hands back.
fn step(hub: &mut Hub, s: &mut Session, event: Incoming) -> RecvAction {
    let r = receive_step(hub, s, event);
    if let RecvAction::Continue { relay: Some(m), .. } = &r {
        hub.publish(&s.peer, m);
    }
    r
}

#[test]
fn text_is_stored_as_anonymous_and_relayed() {
    let mut hub = hub_abc();
    let mut s = Session::new(String::from("A"));
    let r = step(&mut hub, &mut s, Incoming::Message(um(None, text("hello"))));
    assert_eq!(
        r,
        RecvAction::Continue { row: row("Anonymous", "hello"), relay: Some(um(None, text("hello"))) }
    );
    assert_eq!(hub.next_for("B"), Some(um(None, text("hello"))));
    assert_eq!(hub.next_for("C"), Some(um(None, text("hello"))));
    assert_eq!(hub.next_for("A"), None);
}

#[test]
fn receive_step_leaves_the_hub_to_the_relay() {
    let mut hub = hub_abc();
    let mut s = Session::new(String::from("A"));
    receive_step(&mut hub, &mut s, Incoming::Message(um(None, text("hello"))));
    assert_eq!(hub.next_for("B"), None);
}

#[test]
fn end_to_end_hello() {
    let mut hub = hub_abc();
    let mut a = Session::new(String::from("A"));
    let r = step(&mut hub, &mut a, Incoming::Message(um(None, text("hello"))));
    match r {
        RecvAction::Continue { row: Some(row), .. } => {
            assert_eq!(row.username, "Anonymous");
            assert_eq!(row.message, "hello");
        }
        other => panic!("unexpected {:?}", other),
    }
    for peer in ["B", "C"] {
        let got = hub.next_for(peer);
        assert_eq!(on_incoming(got, 0), Effect::Print(String::from("hello")));
    }
    assert_eq!(hub.next_for("A"), None);
}

#[test]
fn set_user_names_later_rows_but_not_relayed_messages() {
    let mut hub = hub_abc();
    let mut s = Session::new(String::from("A"));
    let set = um(None, Message::SetUser { username: Some(String::from("ann")) });
    let r = step(&mut hub, &mut s, Incoming::Message(set.clone()));
    assert_eq!(r, RecvAction::Continue { row: None, relay: Some(set.clone()) });
    assert_eq!(s.username, Some(String::from("ann")));
    let r = step(&mut hub, &mut s, Incoming::Message(um(None, text("hi"))));
    assert_eq!(r, RecvAction::Continue { row: row("ann", "hi"), relay: Some(um(None, text("hi"))) });
    assert_eq!(hub.next_for("B"), Some(set));
    assert_eq!(hub.next_for("B"), Some(um(None, text("hi"))));
}

#[test]
fn name_in_message_is_remembered() {
    let mut hub = hub_abc();
    let mut s = Session::new(String::from("A"));
    let photo = um(Some("zed"), Message::Photo { data: vec![1] });
    let r = step(&mut hub, &mut s, Incoming::Message(photo.clone()));
    assert_eq!(r, RecvAction::Continue { row: None, relay: Some(photo) });
    assert_eq!(s.username, Some(String::from("zed")));
    let r = step(&mut hub, &mut s, Incoming::Message(um(None, Message::Photo { data: vec![2] })));
    assert_eq!(r, RecvAction::Continue { row: None, relay: Some(um(None, Message::Photo { data: vec![2] })) });
    let r = step(&mut hub, &mut s, Incoming::Message(um(None, text("t"))));
    assert_eq!(r, RecvAction::Continue { row: row("zed", "t"), relay: Some(um(None, text("t"))) });
}

#[test]
fn stop_is_not_relayed() {
    let mut hub = hub_abc();
    let mut s = Session::new(String::from("A"));
    let r = step(&mut hub, &mut s, Incoming::Message(um(None, Message::Stop)));
    assert_eq!(r, RecvAction::Continue { row: None, relay: None });
    assert_eq!(hub.next_for("B"), None);
}

#[test]
fn closed_connection_leaves_the_hub() {
    let mut hub = hub_abc();
    let mut s = Session::new(String::from("B"));
    let r = step(&mut hub, &mut s, Incoming::Failed(FrameError::ConnectionClosed));
    assert_eq!(r, RecvAction::Close(ServerError::ConnectionClosed(String::from("B"))));
    assert!(!hub.is_registered("B"));
    let mut a = Session::new(String::from("A"));
    step(&mut hub, &mut a, Incoming::Message(um(None, text("later"))));
    assert_eq!(hub.next_for("B"), None);
    assert_eq!(hub.next_for("C"), Some(um(None, text("later"))));
}

#[test]
fn garbage_payload_counts_as_closed() {
    let mut hub = hub_abc();
    let mut s = Session::new(String::from("C"));
    let r = step(&mut hub, &mut s, Incoming::Undecodable);
    assert_eq!(r, RecvAction::Close(ServerError::ConnectionClosed(String::from("C"))));
    assert!(!hub.is_registered("C"));
}

#[test]
fn short_payload_and_oversize_errors() {
    let mut hub = hub_abc();
    let mut s = Session::new(String::from("A"));
    let r = step(&mut hub, &mut s, Incoming::Failed(FrameError::ReadFailed));
    assert_eq!(r, RecvAction::Close(ServerError::ReadFailed(String::from("A"))));
    let mut s = Session::new(String::from("B"));
    let r = step(&mut hub, &mut s, Incoming::Failed(FrameError::TooLarge));
    assert_eq!(r, RecvAction::Close(ServerError::FrameTooLarge(String::from("B"))));
}

#[test]
fn would_block_waits() {
    let mut hub = hub_abc();
    let mut s = Session::new(String::from("A"));
    assert_eq!(step(&mut hub, &mut s, Incoming::WouldBlock), RecvAction::Wait);
    assert!(hub.is_registered("A"));
}

#[test]
fn send_path_outcomes() {
    assert_eq!(send_step("p", WriteOutcome::Written), SendAction::Next);
    assert_eq!(send_step("p", WriteOutcome::WouldBlock), SendAction::Retry);
    assert_eq!(
        send_step("p", WriteOutcome::Failed),
        SendAction::Close(ServerError::MessageSendFailed(String::from("p")))
    );
    assert_eq!(
        send_step("p", WriteOutcome::Unencodable),
        SendAction::Close(ServerError::MessageSerializeFailed)
    );
}

#[test]
fn server_error_descriptions() {
    assert_eq!(
        ServerError::ConnectionClosed(String::from("1.2.3.4:5")).describe(),
        "Client 1.2.3.4:5 closed the connection."
    );
    assert_eq!(ServerError::ReadFailed(String::from("x")).describe(), "Failed to read valid data from client x.");
    assert_eq!(ServerError::DBWriteFailed.describe(), "Failed to write to DB.");
    assert_eq!(ServerError::PeerAddressUnknown.describe(), "Could not get peer address.");
}
