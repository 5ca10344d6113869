use vstd::prelude::*;

use crate::client::Client;
use crate::registry::Registry;
use crate::types::{ClientMessage, Message, ResponseError, ServerMessage, WsMessage};

verus! {

pub const EMPTY_MESSAGE_TEXT: &'static str = "Invalid message: empty message";

/// What the router decided about one request.
#[derive(Debug, Clone, PartialEq, Eq)]
pub enum Dispatch {
    /// Nothing to do beyond logging.
    Ignore,
    /// Send this error to the sender only; the connection stays open.
    Reply(ResponseError),
    /// Store this message, then broadcast the stored record to every member.
    Persist { channel_id: String, author: String, contents: String, timestamp: i64 },
}

/// A message for each of `targets`.
pub struct Broadcast {
    pub targets: Vec<u64>,
    pub message: ServerMessage,
}

/// `r` is what the router decides for `req` from the user `author` at time
/// `timestamp`.
pub open spec fn is_plan(
    req: WsMessage<ClientMessage>,
    author: Seq<char>,
    timestamp: i64,
    r: Dispatch,
) -> bool {
    match req {
        WsMessage::Message(ClientMessage::SendMessage { channel_id, contents }) => if contents@.len()
            == 0 {
            r matches Dispatch::Reply(ResponseError::InvalidRequest(m)) && m@ == EMPTY_MESSAGE_TEXT@
        } else {
            r matches Dispatch::Persist { channel_id: c, author: a, contents: k, timestamp: t } && c
                == channel_id && a@ == author && k == contents && t == timestamp
        },
        _ => r == Dispatch::Ignore,
    }
}

/// A message for a channel: refused when empty, else to be stored and
/// broadcast.
pub fn send(channel_id: String, contents: String, author: String, timestamp: i64) -> (r: Dispatch)
    ensures
        is_plan(
            WsMessage::Message(ClientMessage::SendMessage { channel_id, contents }),
            author@,
            timestamp,
            r,
        ),
{
    if contents.as_str().is_empty() {
        return Dispatch::Reply(ResponseError::InvalidRequest(EMPTY_MESSAGE_TEXT.to_string()));
    }
    Dispatch::Persist { channel_id, author, contents, timestamp }
}

/// An edit is taken note of; nothing is changed yet.
pub fn edit(channel_id: String, message_id: usize, new_contents: String) -> (r: Dispatch)
    ensures
        r == Dispatch::Ignore,
{
    Dispatch::Ignore
}

/// A deletion is taken note of; nothing is changed yet.
pub fn delete(channel_id: String, message_id: usize) -> (r: Dispatch)
    ensures
        r == Dispatch::Ignore,
{
    Dispatch::Ignore
}

/// What the router does with `req` from the user `author` at `timestamp`.
pub fn plan_request(req: WsMessage<ClientMessage>, author: String, timestamp: i64) -> (r: Dispatch)
    ensures
        is_plan(req, author@, timestamp, r),
{
    match req {
        WsMessage::Message(m) => match m {
            ClientMessage::SendMessage { channel_id, contents } => send(
                channel_id,
                contents,
                author,
                timestamp,
            ),
            ClientMessage::EditMessage { channel_id, message_id, new_contents } => edit(
                channel_id,
                message_id,
                new_contents,
            ),
            ClientMessage::DeleteMessage { channel_id, message_id } => delete(
                channel_id,
                message_id,
            ),
        },
        WsMessage::Binary(_) => Dispatch::Ignore,
        WsMessage::String(_) => Dispatch::Ignore,
    }
}

/// Relies on `chrono::Utc::now` and `DateTime::timestamp`: the current time
/// in seconds since the Unix epoch; nothing is known of its value. chrono
/// panics on a system clock set before 1970.
#[verifier::external_body]
fn unix_now() -> (r: i64) {
    chrono::Utc::now().timestamp()
}

/// The user id of `client`, empty before authentication.
pub open spec fn author_of(client: &Client) -> Seq<char> {
    match client.uuid {
        Some(u) => u@,
        None => Seq::empty(),
    }
}

/// Routes a request of `client`, stamped with the current time.
pub fn call_request(req: WsMessage<ClientMessage>, client: &Client) -> (r: Dispatch)
    ensures
        exists|t: i64| is_plan(req, author_of(client), t, r),
{
    let author = match &client.uuid {
        Some(u) => u.clone(),
        None => String::new(),
    };
    let now = unix_now();
    let r = plan_request(req, author, now);
    assert(is_plan(req, author_of(client), now, r));
    r
}

/// The broadcast of a stored record: a `MessageCreate` for every member,
/// the sender included.
pub fn announce_created<T>(registry: &Registry<T>, record: Message) -> (r: Broadcast)
    ensures
        r.targets@ == crate::registry::tokens_except(registry@, None),
        r.message == ServerMessage::MessageCreate(record),
{
    Broadcast { targets: registry.broadcast_targets(None), message: ServerMessage::MessageCreate(record) }
}

} // verus!
