//! The decisions of the client: what to do with a line the user typed, and
//! with each message that arrives from the server.
use vstd::prelude::*;
use crate::message::{
    basename, basename_spec, copy_opt, opt_view, Message, MessageError, MessageView, UserMessage,
    UserMessageView,
};
use crate::text::push_char;

verus! {

/// Directory that received files are written to.
pub open spec fn files_dir() -> Seq<char> {
    "files/"@
}

/// Directory that received photos are written to.
pub open spec fn images_dir() -> Seq<char> {
    "files/images/"@
}

/// The character of the decimal digit `d`.
pub open spec fn digit_char(d: nat) -> char {
    if d == 0 { '0' }
    else if d == 1 { '1' }
    else if d == 2 { '2' }
    else if d == 3 { '3' }
    else if d == 4 { '4' }
    else if d == 5 { '5' }
    else if d == 6 { '6' }
    else if d == 7 { '7' }
    else if d == 8 { '8' }
    else { '9' }
}

/// The decimal digits of `n`, most significant first.
pub open spec fn decimal(n: nat) -> Seq<char>
    decreases n,
{
    if n < 10 {
        seq![digit_char(n)]
    } else {
        decimal(n / 10).push(digit_char(n % 10))
    }
}

/// `n` written in decimal, with a leading `-` when it is negative.
pub open spec fn signed_decimal(n: int) -> Seq<char> {
    if n < 0 {
        seq!['-'] + decimal((-n) as nat)
    } else {
        decimal(n as nat)
    }
}

fn digit(d: u64) -> (c: char)
    requires
        d < 10,
    ensures
        c == digit_char(d as nat),
{
    match d {
        0 => '0',
        1 => '1',
        2 => '2',
        3 => '3',
        4 => '4',
        5 => '5',
        6 => '6',
        7 => '7',
        8 => '8',
        _ => '9',
    }
}

fn push_decimal(s: &mut String, n: u64)
    ensures
        final(s)@ == old(s)@ + decimal(n as nat),
    decreases n,
{
    if n < 10 {
        push_char(s, digit(n));
        assert(final(s)@ =~= old(s)@ + decimal(n as nat));
    } else {
        push_decimal(s, n / 10);
        push_char(s, digit(n % 10));
        assert(final(s)@ =~= old(s)@ + decimal(n as nat));
    }
}

/// The file name under which a photo received at `timestamp` (seconds since
/// the epoch) is saved: the timestamp in decimal, then `.png`.
pub fn photo_file_name(timestamp: i64) -> (r: String)
    ensures
        r@ == signed_decimal(timestamp as int) + ".png"@,
{
    let mut r = String::new();
    if timestamp < 0 {
        push_char(&mut r, '-');
        let magnitude: u64 = if timestamp == i64::MIN {
            9223372036854775808u64
        } else {
            (-timestamp) as u64
        };
        push_decimal(&mut r, magnitude);
    } else {
        push_decimal(&mut r, timestamp as u64);
    }
    assert(r@ =~= signed_decimal(timestamp as int));
    r.append(".png");
    r
}

/// What the client does with a message from the server.
#[derive(Debug, Clone, PartialEq, Eq)]
pub enum Effect {
    /// Show the text to the user.
    Print(String),
    /// Write `data` to the file at `path`.
    Save { path: String, data: Vec<u8> },
    /// Nothing to do.
    Ignore,
    /// The server went away: stop the client.
    Exit,
}

/// What a message from the server leads to. `incoming` is `None` when the
/// frame could not be read or decoded, which means the server disconnected.
/// A file is saved under `files/` by the last component of its name, so that
/// a name sent by a peer cannot point elsewhere; a photo under
/// `files/images/`, named by `timestamp`.
pub fn on_incoming(incoming: Option<UserMessage>, timestamp: i64) -> (r: Effect)
    ensures
        incoming is None ==> r == Effect::Exit,
        incoming matches Some(m) ==> match m@.message {
            MessageView::Text(t) => r matches Effect::Print(p) && p@ == t,
            MessageView::File { name, data } => r matches Effect::Save { path, data: d } && path@
                == files_dir() + basename_spec(name) && d@ == data,
            MessageView::Photo { data } => r matches Effect::Save { path, data: d } && path@
                == images_dir() + signed_decimal(timestamp as int) + ".png"@ && d@ == data,
            _ => r == Effect::Ignore,
        },
{
    let m = match incoming {
        None => return Effect::Exit,
        Some(m) => m,
    };
    match m.message {
        Message::Text(t) => Effect::Print(t),
        Message::File { name, data } => {
            let mut path = String::from_str("files/");
            let base = basename(name.as_str());
            path.append(base.as_str());
            Effect::Save { path, data }
        },
        Message::Photo { data } => {
            let mut path = String::from_str("files/images/");
            let file = photo_file_name(timestamp);
            path.append(file.as_str());
            assert(path@ =~= images_dir() + signed_decimal(timestamp as int) + ".png"@);
            Effect::Save { path, data }
        },
        _ => Effect::Ignore,
    }
}

/// What the client does with a line the user typed, once it became a
/// message or an error.
#[derive(Debug, Clone, PartialEq, Eq)]
pub enum InputAction {
    /// Stop the client without telling the server.
    Exit,
    /// Send this message to the server.
    Send(UserMessage),
    /// Tell the user what went wrong, and read the next line.
    Report(String),
}

/// What an input line leads to. `Stop` ends the client and is never sent.
/// An error is reported to the user. `SetUser` changes the name the client
/// sends under, and is sent too. Every other message is sent under the
/// current name.
pub fn on_input(username: &mut Option<String>, input: Result<Message, MessageError>) -> (r: InputAction)
    ensures
        input matches Ok(m) ==> (m is Stop ==> r == InputAction::Exit && *final(username)
            == *old(username)),
        input matches Err(e) ==> (r matches InputAction::Report(s) && s@ == e.describe_spec())
            && *final(username) == *old(username),
        input matches Ok(m) ==> (m@ matches MessageView::SetUser { username: u } ==> opt_view(
            *final(username),
        ) == u),
        input matches Ok(m) ==> (!(m is SetUser) ==> *final(username) == *old(username)),
        input matches Ok(m) ==> (!(m is Stop) ==> (r matches InputAction::Send(um) && um@
            == UserMessageView { username: opt_view(*final(username)), message: m@ })),
{
    match input {
        Err(e) => InputAction::Report(e.describe()),
        Ok(Message::Stop) => InputAction::Exit,
        Ok(m) => {
            match &m {
                Message::SetUser { username: u } => {
                    *username = copy_opt(u);
                },
                _ => {},
            }
            InputAction::Send(UserMessage { username: copy_opt(username), message: m })
        },
    }
}

} // verus!
