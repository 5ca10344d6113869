use vstd::prelude::*;

verus! {

/// Requests that a client sends to the server.
#[derive(Debug, Clone, PartialEq, Eq)]
pub enum ClientMessage {
    /// Send a message to a channel.
    SendMessage { channel_id: String, contents: String },
    /// Edit a message.
    EditMessage { channel_id: String, message_id: usize, new_contents: String },
    /// Delete a message.
    DeleteMessage { channel_id: String, message_id: usize },
}

/// Messages that the server sends to clients.
#[derive(Debug, Clone, PartialEq, Eq)]
pub enum ServerMessage {
    /// Authentication succeeded; `messages` is the backlog.
    Authenticated { uuid: String, messages: Vec<Message> },
    TempMessage { message: String },
    /// A new message in a channel.
    MessageCreate(Message),
    /// A message was edited.
    MessageUpdate(Message),
    /// A message was deleted.
    MessageDelete { channel_id: String, message_id: usize },
    /// Presence updates.
    PresenceUpdate { user_id: String, status: String },
    /// Typing indicator.
    Typing { user_id: String, channel_id: String },
}

/// Errors reported to a client.
#[derive(Debug, Clone, PartialEq, Eq)]
pub enum ResponseError {
    InvalidRequest(String),
    InvalidHandshake(String),
    Unauthorized(String),
    NotFound(String),
    InternalError(String),
}

/// A reassembled application message: decoded, or raw where it did not
/// decode.
#[derive(Debug, Clone, PartialEq, Eq)]
pub enum WsMessage<T> {
    Message(T),
    Binary(Vec<u8>),
    String(String),
}

/// A stored chat message.
#[derive(Debug, Clone, PartialEq, Eq)]
pub struct Message {
    pub id: i64,
    pub channel_id: String,
    pub from: String,
    pub contents: String,
    pub timestamp: i64,
}

#[derive(Debug, Clone, PartialEq, Eq)]
pub struct Channel {
    pub id: String,
    pub name: String,
    pub kind: ChannelKind,
}

#[derive(Debug, Clone, Copy, PartialEq, Eq)]
pub enum ChannelKind {
    Text,
    Voice,
}

/// What the server announces of itself after the upgrade.
#[derive(Debug, Clone, PartialEq, Eq)]
pub struct ServerDetails {
    pub version: String,
    pub name: String,
    pub id: String,
}

/// What the client answers with: its credentials and the last message it saw.
#[derive(Debug, Clone, PartialEq, Eq)]
pub struct ClientDetails {
    pub version: String,
    pub auth_token: String,
    pub last_message: Option<usize>,
}

/// The text of a reassembled payload, or `None` where it is not UTF-8.
pub open spec fn payload_text(payload: Seq<u8>) -> Option<Seq<char>> {
    if vstd::utf8::valid_utf8(payload) {
        Some(vstd::utf8::decode_utf8(payload))
    } else {
        None
    }
}

/// Relies on `String::from_utf8`: it succeeds exactly on valid UTF-8, with
/// the text that the bytes encode.
#[verifier::external_body]
fn utf8_text(payload: Vec<u8>) -> (r: Result<String, Vec<u8>>)
    ensures
        match r {
            Ok(s) => payload_text(payload@) == Some(s@),
            Err(b) => payload_text(payload@) is None && b@ == payload@,
        },
{
    String::from_utf8(payload).map_err(|e| e.into_bytes())
}

/// A reassembled payload before any decoding: text where it is valid UTF-8,
/// bytes otherwise.
pub fn classify_payload<T>(payload: Vec<u8>) -> (r: WsMessage<T>)
    ensures
        match payload_text(payload@) {
            Some(t) => r matches WsMessage::String(s) && s@ == t,
            None => r matches WsMessage::Binary(b) && b@ == payload@,
        },
{
    match utf8_text(payload) {
        Ok(s) => WsMessage::String(s),
        Err(b) => WsMessage::Binary(b),
    }
}

} // verus!
