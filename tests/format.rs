use rust_chat::format::{
    handle_request, RequestError,
    consonants, format_string, lowercase, no_spaces, reverse, slugify, table, uppercase, FormattingFunction,
    InvalidFormatType, NoFormatPassed,
};

#[test]
fn case_changes() {
    assert_eq!(lowercase("Hello World"), "hello world");
    assert_eq!(uppercase("Hello World"), "HELLO WORLD");
}

#[test]
fn vowels_are_dropped() {
    assert_eq!(consonants("Hello World"), "Hll Wrld");
    assert_eq!(consonants("AEIOUaeiouáxy"), "xy");
    assert_eq!(consonants(""), "");
}

#[test]
fn reversed_text() {
    assert_eq!(reverse("abc d"), "d cba");
    assert_eq!(reverse(""), "");
}

#[test]
fn spaces_are_dropped() {
    assert_eq!(no_spaces(" a b  c "), "abc");
}

#[test]
fn slugs() {
    assert_eq!(slugify("My Test String!!!1!1"), "my-test-string-1-1");
    assert_eq!(slugify("  --test_-_cool"), "test-cool");
    let once = slugify("Æúű--cool?");
    assert_eq!(once, "aeuu-cool");
    assert_eq!(slugify(&once), once);
}

#[test]
fn formatter_names() {
    assert_eq!(FormattingFunction::from_str("no_spaces"), Ok(FormattingFunction::NoSpaces));
    assert_eq!(FormattingFunction::from_str("csv"), Ok(FormattingFunction::Csv));
    assert_eq!(FormattingFunction::from_str("nope"), Err(InvalidFormatType(String::from("nope"))));
    assert_eq!(FormattingFunction::Reverse.format("ab"), Some(String::from("ba")));
    assert_eq!(FormattingFunction::Csv.format("ab"), None);
}

#[test]
fn format_by_name() {
    assert_eq!(rust_chat::format::format("uppercase", "ab"), Ok(Some(String::from("AB"))));
    assert_eq!(rust_chat::format::format("csv", "file.csv"), Ok(None));
    assert_eq!(rust_chat::format::format("no-spaces", "a b"), Err(InvalidFormatType(String::from("no-spaces"))));
}

#[test]
fn format_string_by_command_line_name() {
    assert_eq!(format_string("no-spaces", "a b"), Ok(String::from("ab")));
    assert_eq!(format_string("slugify", "You & Me"), Ok(String::from("you-me")));
    assert_eq!(format_string("no_spaces", "a b"), Err(InvalidFormatType(String::from("no_spaces"))));
    assert_eq!(format_string("csv", "x"), Err(InvalidFormatType(String::from("csv"))));
}

#[test]
fn error_texts() {
    assert_eq!(InvalidFormatType(String::from("x")).describe(), "invalid formatting type: x");
    assert_eq!(NoFormatPassed.describe(), "no formatting passed");
}

#[test]
fn table_rendering() {
    let headers = vec![String::from("first name"), String::from("age")];
    let records = vec![
        vec![String::from("Al"), String::from("7")],
        vec![String::from("Barbara"), String::from("42")],
    ];
    let expected = "| firstname | age |\n|-----------|-----|\n\
| Al        | 7   |\n|-----------|-----|\n\
| Barbara   | 42  |\n|-----------|-----|\n";
    assert_eq!(table(&headers, &records), expected);
}

#[test]
fn table_of_headers_only() {
    let headers = vec![String::from("a")];
    assert_eq!(table(&headers, &vec![]), "| a |\n|---|\n");
}

#[test]
fn requests_name_format_then_data() {
    assert_eq!(handle_request("reverse ab c"), Ok(Some(String::from("c ba"))));
    assert_eq!(handle_request("csv data.csv"), Ok(None));
    assert_eq!(handle_request("reverse"), Err(RequestError::InvalidInput));
    assert_eq!(
        handle_request("shout it"),
        Err(RequestError::InvalidFormat(InvalidFormatType(String::from("shout"))))
    );
}
