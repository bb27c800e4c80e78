use rust_chat::message::{FileProbe, Message, MessageError, Parsed, UserMessage};

fn text(s: &str) -> Parsed {
    Parsed::Ready(Message::Text(String::from(s)))
}

#[test]
fn lib_test_text_message() {
    let value = String::from("hello");
    let message = Message::parse(&value);
    let expected = Parsed::Ready(Message::Text(value.clone()));
    assert_eq!(message, expected);
}

#[test]
fn test_stop_message() {
    let value = String::from(".stop");
    let message = Message::parse(&value);
    let expected = Parsed::Ready(Message::Stop);
    assert_eq!(message, expected);
}

#[test]
fn test_set_user_message() {
    let value = String::from(".user Custom");
    let message = Message::parse(&value);
    let expected = Parsed::Ready(Message::SetUser {
        username: Some(String::from("Custom")),
    });
    assert_eq!(message, expected);
}

#[test]
fn test_set_user_empty_message() {
    let value = String::from(".user");
    let message = Message::parse(&value);
    let expected = Parsed::Ready(Message::SetUser { username: None });
    assert_eq!(message, expected);
}

#[test]
fn message_test_text_message() {
    let value = String::from("hello");
    let message = Message::parse(&value);
    let expected = Parsed::Ready(Message::Text(value.clone()));
    assert_eq!(message, expected);
}

#[test]
fn unknown_command_stays_text() {
    assert_eq!(Message::parse(".bogus command"), text(".bogus command"));
    assert_eq!(Message::parse("."), text("."));
    assert_eq!(Message::parse(".stopper"), text(".stopper"));
}

#[test]
fn stop_ignores_what_follows() {
    assert_eq!(Message::parse(".stop now please"), Parsed::Ready(Message::Stop));
    assert_eq!(Message::parse(".stop "), Parsed::Ready(Message::Stop));
}

#[test]
fn user_takes_the_rest_of_the_line() {
    assert_eq!(
        Message::parse(".user Alice"),
        Parsed::Ready(Message::SetUser { username: Some(String::from("Alice")) })
    );
    assert_eq!(
        Message::parse(".user Mary Ann"),
        Parsed::Ready(Message::SetUser { username: Some(String::from("Mary Ann")) })
    );
}

#[test]
fn empty_line_is_text() {
    assert_eq!(Message::parse(""), text(""));
    assert_eq!(Message::parse("no dot .stop"), text("no dot .stop"));
}

#[test]
fn file_and_image_commands_name_a_path() {
    assert_eq!(Message::parse(".file docs/a b.txt"), Parsed::File(String::from("docs/a b.txt")));
    assert_eq!(Message::parse(".image cat.png"), Parsed::Image(String::from("cat.png")));
    assert_eq!(Message::parse(".file"), Parsed::File(String::new()));
}

#[test]
fn missing_file_is_file_not_found_with_its_path() {
    let path = match Message::parse(".file /no/such/file.txt") {
        Parsed::File(p) => p,
        other => panic!("unexpected {:?}", other),
    };
    let r = Message::from_file(&path, FileProbe::Missing);
    assert_eq!(r, Err(MessageError::FileNotFound(String::from("/no/such/file.txt"))));
}

#[test]
fn unreadable_file_is_read_failure() {
    assert_eq!(Message::from_file("x", FileProbe::Unreadable), Err(MessageError::FileReadFailed));
}

#[test]
fn file_message_carries_base_name_and_bytes() {
    let r = Message::from_file("some/dir/notes.txt", FileProbe::Contents(vec![1, 2, 3]));
    assert_eq!(
        r,
        Ok(Message::File { name: String::from("notes.txt"), data: vec![1, 2, 3] })
    );
    let r = Message::from_file("plain", FileProbe::Contents(vec![]));
    assert_eq!(r, Ok(Message::File { name: String::from("plain"), data: vec![] }));
}

#[test]
fn base_name_is_last_component() {
    assert_eq!(rust_chat::message::basename("a/b/c.txt"), "c.txt");
    assert_eq!(rust_chat::message::basename("c.txt"), "c.txt");
    assert_eq!(rust_chat::message::basename("a/b/"), "");
}

#[test]
fn error_descriptions() {
    assert_eq!(MessageError::FileNotFound(String::from("x.txt")).describe(), "File x.txt not found.");
    assert_eq!(MessageError::FileReadFailed.describe(), "Failed to read from file.");
    assert_eq!(MessageError::UnsupportedImage.describe(), "Unsupported image format.");
}

#[test]
fn copy_keeps_the_value() {
    let m = UserMessage {
        username: Some(String::from("bob")),
        message: Message::File { name: String::from("f"), data: vec![9, 8] },
    };
    assert_eq!(m.copy(), m);
    let s = Message::SetUser { username: None };
    assert_eq!(s.copy(), s);
}
