//! The decisions of the server's two paths per connection. The receive path
//! turns each incoming frame into a row to store and a message for the hub;
//! the send path reacts to the outcome of each write.
use vstd::prelude::*;
use crate::frame::FrameError;
use crate::hub::{index_of, registered, Hub};
use crate::message::{copy_opt, opt_view, Message, MessageView, UserMessage, UserMessageView};

verus! {

/// Why the server stopped serving a connection.
#[derive(Debug, Clone, PartialEq, Eq)]
pub enum ServerError {
    PeerAddressUnknown,
    ReadWriteInitFailed(String),
    ReadFailed(String),
    ConnectionClosed(String),
    MessageSendFailed(String),
    MessageSerializeFailed,
    DBWriteFailed,
    FrameTooLarge(String),
}

fn sentence(head: &str, peer: &str, tail: &str) -> (r: String)
    ensures
        r@ == head@ + peer@ + tail@,
{
    let mut r = String::from_str(head);
    r.append(peer);
    r.append(tail);
    r
}

/// Whether `err` is the error that ends the connection to `peer` when a
/// frame fails with `e`.
pub open spec fn closes_for(err: ServerError, e: FrameError, peer: Seq<char>) -> bool {
    match e {
        FrameError::ConnectionClosed => err matches ServerError::ConnectionClosed(p) && p@ == peer,
        FrameError::ReadFailed => err matches ServerError::ReadFailed(p) && p@ == peer,
        FrameError::TooLarge => err matches ServerError::FrameTooLarge(p) && p@ == peer,
    }
}

impl ServerError {
    /// A sentence that describes the error for the log.
    pub fn describe(&self) -> (r: String)
        ensures
            self is PeerAddressUnknown ==> r@ == "Could not get peer address."@,
            self matches ServerError::ReadWriteInitFailed(p) ==> r@
                == "Failed to initialize read/write checks for client "@ + p@ + "."@,
            self matches ServerError::ReadFailed(p) ==> r@ == "Failed to read valid data from client "@
                + p@ + "."@,
            self matches ServerError::ConnectionClosed(p) ==> r@ == "Client "@ + p@
                + " closed the connection."@,
            self matches ServerError::MessageSendFailed(p) ==> r@ == "Failed to send message to client "@
                + p@ + "."@,
            self is MessageSerializeFailed ==> r@ == "Failed to serialize message."@,
            self is DBWriteFailed ==> r@ == "Failed to write to DB."@,
            self matches ServerError::FrameTooLarge(p) ==> r@ == "Client "@ + p@
                + " sent a frame over the size limit."@,
    {
        match self {
            ServerError::PeerAddressUnknown => String::from_str("Could not get peer address."),
            ServerError::ReadWriteInitFailed(p) => sentence(
                "Failed to initialize read/write checks for client ",
                p.as_str(),
                ".",
            ),
            ServerError::ReadFailed(p) => sentence("Failed to read valid data from client ", p.as_str(), "."),
            ServerError::ConnectionClosed(p) => sentence("Client ", p.as_str(), " closed the connection."),
            ServerError::MessageSendFailed(p) => sentence("Failed to send message to client ", p.as_str(), "."),
            ServerError::MessageSerializeFailed => String::from_str("Failed to serialize message."),
            ServerError::DBWriteFailed => String::from_str("Failed to write to DB."),
            ServerError::FrameTooLarge(p) => sentence("Client ", p.as_str(), " sent a frame over the size limit."),
        }
    }

    /// The error that ends a connection whose frame could not be read.
    pub fn from_frame_error(e: FrameError, peer: &str) -> (r: ServerError)
        ensures
            closes_for(r, e, peer@),
    {
        match e {
            FrameError::ConnectionClosed => ServerError::ConnectionClosed(peer.to_string()),
            FrameError::ReadFailed => ServerError::ReadFailed(peer.to_string()),
            FrameError::TooLarge => ServerError::FrameTooLarge(peer.to_string()),
        }
    }
}

/// A row for the message store: who wrote a text message, and the text.
#[derive(Debug, Clone, PartialEq, Eq)]
pub struct StoredRow {
    pub username: String,
    pub message: String,
}

/// The name stored for a user who never gave one.
pub open spec fn anonymous() -> Seq<char> {
    "Anonymous"@
}

pub open spec fn name_or_anonymous(u: Option<Seq<char>>) -> Seq<char> {
    match u {
        Some(n) => n,
        None => anonymous(),
    }
}

/// The user a connection speaks for after it sent `m`: a `SetUser` message
/// names it (or clears it), and any other message that carries a name names
/// it too.
pub open spec fn next_username(cur: Option<Seq<char>>, m: UserMessageView) -> Option<Seq<char>> {
    match m.message {
        MessageView::SetUser { username } => username,
        _ => match m.username {
            Some(n) => Some(n),
            None => cur,
        },
    }
}

/// What the receive path of one connection knows about its peer.
pub struct Session {
    pub peer: String,
    pub username: Option<String>,
}

impl Session {
    /// A session for a newly accepted peer, with no user name yet.
    pub fn new(peer: String) -> (r: Session)
        ensures
            r.peer@ == peer@,
            r.username is None,
    {
        Session { peer, username: None }
    }
}

/// What one attempt to read a message from a connection produced.
#[derive(Debug, Clone, PartialEq, Eq)]
pub enum Incoming {
    /// A frame whose payload decoded to a message.
    Message(UserMessage),
    /// Nothing to read yet.
    WouldBlock,
    /// The frame could not be read.
    Failed(FrameError),
    /// The frame was read but its payload is no message: the peer went away
    /// in the middle of sending.
    Undecodable,
}

/// What the receive path must do next.
#[derive(Debug, Clone, PartialEq, Eq)]
pub enum RecvAction {
    /// Store `row` when there is one; once it is stored, publish `relay`,
    /// when there is one, to the hub under the peer's address. Then read the
    /// next frame.
    Continue { row: Option<StoredRow>, relay: Option<UserMessage> },
    /// Wait until the connection is readable again.
    Wait,
    /// Stop serving the connection; its entry has left the hub.
    Close(ServerError),
}

fn anonymous_name() -> (r: String)
    ensures
        r@ == anonymous(),
{
    String::from_str("Anonymous")
}

/// One step of a connection's receive path.
///
/// A message updates the session's user name (`next_username`). It is to be
/// relayed as it was received, unless it is a `Stop`, which is never
/// relayed. A text message also yields the row to store, under the session's
/// name or `Anonymous`; the row comes before the relay, so a message that
/// could not be stored is not relayed. A failed or undecodable frame removes
/// the peer from the hub and closes the connection.
pub fn receive_step(hub: &mut Hub, session: &mut Session, event: Incoming) -> (r: RecvAction)
    requires
        old(hub).wf(),
    ensures
        final(hub).wf(),
        final(session).peer == old(session).peer,
        event is WouldBlock ==> r == RecvAction::Wait && final(hub)@ == old(hub)@
            && final(session).username == old(session).username,
        event matches Incoming::Message(m) ==> final(hub)@ == old(hub)@,
        event matches Incoming::Message(m) ==> opt_view(final(session).username) == next_username(
            opt_view(old(session).username),
            m@,
        ),
        event matches Incoming::Message(m) ==> (r matches RecvAction::Continue { relay, .. } && (if m.message is Stop {
            relay is None
        } else {
            relay matches Some(x) && x@ == m@
        })),
        event matches Incoming::Message(m) ==> (r matches RecvAction::Continue { row, .. } && (
        match m@.message {
            MessageView::Text(t) => (row matches Some(w) && w.message@ == t && w.username@
                == name_or_anonymous(opt_view(final(session).username))),
            _ => row is None,
        })),
        event matches Incoming::Failed(e) ==> (r matches RecvAction::Close(err) && closes_for(
            err,
            e,
            old(session).peer@,
        )),
        event is Undecodable ==> (r matches RecvAction::Close(ServerError::ConnectionClosed(p))
            && p@ == old(session).peer@),
        (event is Failed || event is Undecodable) ==> !registered(final(hub)@, old(session).peer@),
        (event is Failed || event is Undecodable) && registered(old(hub)@, old(session).peer@)
            ==> final(hub)@ == old(hub)@.remove(index_of(old(hub)@, old(session).peer@)),
        (event is Failed || event is Undecodable) && !registered(old(hub)@, old(session).peer@)
            ==> final(hub)@ == old(hub)@,
{
    match event {
        Incoming::WouldBlock => RecvAction::Wait,
        Incoming::Failed(e) => {
            hub.unregister(session.peer.as_str());
            RecvAction::Close(ServerError::from_frame_error(e, session.peer.as_str()))
        },
        Incoming::Undecodable => {
            hub.unregister(session.peer.as_str());
            RecvAction::Close(ServerError::ConnectionClosed(session.peer.clone()))
        },
        Incoming::Message(m) => {
            match &m.message {
                Message::SetUser { username } => {
                    session.username = copy_opt(username);
                },
                _ => match &m.username {
                    Some(n) => {
                        session.username = Some(n.clone());
                    },
                    None => {},
                },
            }
            let row = match &m.message {
                Message::Text(t) => {
                    let name = match &session.username {
                        Some(n) => n.clone(),
                        None => anonymous_name(),
                    };
                    Some(StoredRow { username: name, message: t.clone() })
                },
                _ => None,
            };
            let relay = match &m.message {
                Message::Stop => None,
                _ => Some(m),
            };
            RecvAction::Continue { row, relay }
        },
    }
}

/// What became of one attempt to write a frame to a peer.
#[derive(Debug, Clone, Copy, PartialEq, Eq)]
pub enum WriteOutcome {
    /// The frame was written whole.
    Written,
    /// The socket was not ready: the same frame must be written again.
    WouldBlock,
    /// The write failed for good.
    Failed,
    /// The message could not be serialized or framed.
    Unencodable,
}

/// What the send path must do next.
#[derive(Debug, Clone, PartialEq, Eq)]
pub enum SendAction {
    /// Go on with the next queued message.
    Next,
    /// Write the same frame again; nothing is dropped.
    Retry,
    /// Stop the send path.
    Close(ServerError),
}

/// One step of a connection's send path, after a write to `peer`.
pub fn send_step(peer: &str, outcome: WriteOutcome) -> (r: SendAction)
    ensures
        outcome is Written ==> r == SendAction::Next,
        outcome is WouldBlock ==> r == SendAction::Retry,
        outcome is Failed ==> (r matches SendAction::Close(ServerError::MessageSendFailed(p)) && p@
            == peer@),
        outcome is Unencodable ==> r == SendAction::Close(ServerError::MessageSerializeFailed),
{
    match outcome {
        WriteOutcome::Written => SendAction::Next,
        WriteOutcome::WouldBlock => SendAction::Retry,
        WriteOutcome::Failed => SendAction::Close(ServerError::MessageSendFailed(peer.to_string())),
        WriteOutcome::Unencodable => SendAction::Close(ServerError::MessageSerializeFailed),
    }
}

} // verus!
