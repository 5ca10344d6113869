use voxa_server::client::{Client, SessionAction, SessionError, SessionEvent, SessionState};
use voxa_server::config::ServerConfig;
use voxa_server::handshake::{
    accept_from_digest, accept_key, find_header, handshake_response, is_blank_line, negotiate,
    parse_header_line, HandshakeError,
};
use voxa_server::logger::Logger;
use voxa_server::plugin::{route, run_plugins, MyPlugin, Plugin};
use voxa_server::registry::Registry;
use voxa_server::requests::{
    announce_created, call_request, delete, edit, plan_request, send, Dispatch,
};
use voxa_server::text::{contains_bytes, to_lower, trim_range};
use voxa_server::types::{
    classify_payload, ClientMessage, Message, ResponseError, ServerMessage, WsMessage,
};

fn lines(hs: &[&str]) -> Vec<Vec<u8>> {
    hs.iter().map(|h| h.as_bytes().to_vec()).collect()
}

#[test]
fn accept_key_reference_vector() {
    let accept = accept_key(b"dGhlIHNhbXBsZSBub25jZQ==");
    assert_eq!(accept, b"s3pPLMBiTxaQ9kYGzzhZRbK+xOo=".to_vec());
}

#[test]
fn accept_from_digest_is_base64() {
    assert_eq!(accept_from_digest(b"hello"), b"aGVsbG8=".to_vec());
    assert_eq!(accept_from_digest(b"hi"), b"aGk=".to_vec());
    assert_eq!(accept_from_digest(&[0xfb, 0xff]), b"+/8=".to_vec());
    assert_eq!(accept_from_digest(b""), Vec::<u8>::new());
}

#[test]
fn negotiate_accepts_a_proper_request() {
    let hs = lines(&[
        "Host: example.com\r\n",
        "Upgrade: WebSocket\r\n",
        "Connection: keep-alive, Upgrade\r\n",
        "Sec-WebSocket-Key:   dGhlIHNhbXBsZSBub25jZQ==  \r\n",
        "Sec-WebSocket-Version: 13\r\n",
    ]);
    let resp = negotiate(b"GET /chat HTTP/1.1\r\n", &hs).unwrap();
    let text = String::from_utf8(resp).unwrap();
    assert_eq!(
        text,
        "HTTP/1.1 101 Switching Protocols\r\nUpgrade: websocket\r\nConnection: Upgrade\r\nSec-WebSocket-Accept: s3pPLMBiTxaQ9kYGzzhZRbK+xOo=\r\n\r\n"
    );
}

#[test]
fn negotiate_errors() {
    let good = [
        "Upgrade: websocket\r\n",
        "Connection: Upgrade\r\n",
        "Sec-WebSocket-Key: abc\r\n",
    ];
    assert_eq!(negotiate(b"POST / HTTP/1.1\r\n", &lines(&good)), Err(HandshakeError::InvalidMethod));
    assert_eq!(
        negotiate(b"GET / HTTP/1.1\r\n", &lines(&good[..2])),
        Err(HandshakeError::MissingKey)
    );
    assert_eq!(
        negotiate(b"GET / HTTP/1.1\r\n", &lines(&["Upgrade: h2c\r\n", good[1], good[2]])),
        Err(HandshakeError::InvalidUpgrade)
    );
    assert_eq!(
        negotiate(b"GET / HTTP/1.1\r\n", &lines(&[good[0], "Connection: close\r\n", good[2]])),
        Err(HandshakeError::InvalidConnection)
    );
    assert_eq!(
        negotiate(
            b"GET / HTTP/1.1\r\n",
            &lines(&[good[0], good[1], good[2], "Sec-WebSocket-Version: 8\r\n"])
        ),
        Err(HandshakeError::UnsupportedVersion)
    );
    assert!(negotiate(b"GET / HTTP/1.1\r\n", &lines(&good)).is_ok());
}

#[test]
fn later_header_wins() {
    let hs = lines(&["X-A: 1\r\n", "no colon here\r\n", "x-a : 2 \r\n"]);
    assert_eq!(find_header(&hs, b"x-a"), Some(b"2".to_vec()));
    assert_eq!(find_header(&hs, b"x-b"), None);
}

#[test]
fn header_line_split() {
    assert_eq!(
        parse_header_line(b" Content-Type : text/html; a:b\r\n"),
        Some((b"content-type".to_vec(), b"text/html; a:b".to_vec()))
    );
    assert_eq!(parse_header_line(b"\r\n"), None);
    assert!(is_blank_line(b"\r\n"));
    assert!(!is_blank_line(b"\n"));
}

#[test]
fn text_helpers() {
    assert_eq!(to_lower(b"AbC-1"), b"abc-1".to_vec());
    assert_eq!(trim_range(b"  x y \t", 0, 7), b"x y".to_vec());
    assert_eq!(trim_range(b"   ", 0, 3), Vec::<u8>::new());
    assert!(contains_bytes(b"keep-alive, upgrade", b"upgrade"));
    assert!(!contains_bytes(b"keep-alive", b"upgrade"));
}

#[test]
fn handshake_response_layout() {
    let r = handshake_response(b"XYZ");
    assert!(r.ends_with(b"Sec-WebSocket-Accept: XYZ\r\n\r\n"));
}

#[test]
fn payload_classification() {
    let t: WsMessage<ClientMessage> = classify_payload(b"hi".to_vec());
    assert_eq!(t, WsMessage::String("hi".to_string()));
    let b: WsMessage<ClientMessage> = classify_payload(vec![0xff, 0xfe]);
    assert_eq!(b, WsMessage::Binary(vec![0xff, 0xfe]));
}

fn active_client(token: u64, user: &str) -> Client {
    let mut c = Client::new(token);
    assert_eq!(c.handle(SessionEvent::Accepted), SessionAction::Negotiate);
    assert_eq!(c.handle(SessionEvent::Upgraded), SessionAction::Introduce);
    assert_eq!(
        c.handle(SessionEvent::Identified { auth_token: "t".to_string(), last_message: Some(5) }),
        SessionAction::Authenticate { auth_token: "t".to_string() }
    );
    assert_eq!(
        c.handle(SessionEvent::Authenticated { user_id: user.to_string() }),
        SessionAction::Admit { after: 5 }
    );
    c
}

#[test]
fn session_lifecycle() {
    let mut c = active_client(7, "alice");
    assert_eq!(c.state, SessionState::Active);
    assert_eq!(c.get_uuid(), Ok("alice".to_string()));
    assert_eq!(
        c.handle(SessionEvent::Failed { message: "boom".to_string() }),
        SessionAction::EvictAndReport(ResponseError::InternalError("boom".to_string()))
    );
    assert_eq!(c.state, SessionState::Closing);
    assert_eq!(c.handle(SessionEvent::ShutDown), SessionAction::Nothing);
    assert_eq!(c.state, SessionState::Closed);
    assert_eq!(c.handle(SessionEvent::Accepted), SessionAction::Nothing);
}

#[test]
fn session_failures() {
    let mut c = Client::new(1);
    assert_eq!(c.get_uuid(), Err(SessionError::UuidNotSet { token: 1 }));
    c.handle(SessionEvent::Accepted);
    assert_eq!(c.handle(SessionEvent::UpgradeFailed), SessionAction::Drop);
    assert_eq!(c.state, SessionState::Closing);

    let mut d = Client::new(2);
    d.handle(SessionEvent::Accepted);
    d.handle(SessionEvent::Upgraded);
    assert_eq!(
        d.handle(SessionEvent::Unidentified { description: "String(\"x\")".to_string() }),
        SessionAction::Refuse(ResponseError::InvalidHandshake(
            "Invalid handshake: String(\"x\")".to_string()
        ))
    );

    let mut e = Client::new(3);
    e.handle(SessionEvent::Accepted);
    e.handle(SessionEvent::Upgraded);
    e.handle(SessionEvent::Identified { auth_token: "bad".to_string(), last_message: None });
    assert_eq!(
        e.handle(SessionEvent::AuthFailed { message: "denied".to_string() }),
        SessionAction::Refuse(ResponseError::InternalError("denied".to_string()))
    );

    let mut f = active_client(4, "bob");
    assert_eq!(f.handle(SessionEvent::TransportFailed), SessionAction::Evict);
    let mut g = active_client(5, "eve");
    assert_eq!(g.handle(SessionEvent::PeerGone), SessionAction::Evict);
}

#[test]
fn admit_without_last_message_starts_at_zero() {
    let mut c = Client::new(9);
    c.handle(SessionEvent::Accepted);
    c.handle(SessionEvent::Upgraded);
    c.handle(SessionEvent::Identified { auth_token: "t".to_string(), last_message: None });
    assert_eq!(
        c.handle(SessionEvent::Authenticated { user_id: "u".to_string() }),
        SessionAction::Admit { after: 0 }
    );
}

#[test]
fn clients_compare_by_token() {
    let mut a = Client::new(11);
    let b = Client::new(11);
    a.set_uuid("someone");
    assert!(a == b);
    assert!(Client::new(12) != b);
}

#[test]
fn registry_membership() {
    let mut r: Registry<&str> = Registry::new();
    assert!(r.insert(1, "a"));
    assert!(r.insert(2, "b"));
    assert!(!r.insert(1, "c"));
    assert_eq!(r.get(1), Some(&"a"));
    assert_eq!(r.len(), 2);
    assert_eq!(r.broadcast_targets(None), vec![1, 2]);
    assert_eq!(r.broadcast_targets(Some(1)), vec![2]);
    assert_eq!(r.remove(1), Some("a"));
    assert_eq!(r.remove(1), None);
    assert!(!r.contains(1));
    r.insert(3, "c");
    r.remove_all(&vec![2, 9]);
    assert_eq!(r.broadcast_targets(None), vec![3]);
}

#[test]
fn send_message_is_persisted_and_broadcast_to_all() {
    let sender = active_client(1, "alice");
    let mut registry: Registry<&str> = Registry::new();
    registry.insert(1, "alice's socket");
    registry.insert(2, "bob's socket");
    let req = WsMessage::Message(ClientMessage::SendMessage {
        channel_id: "general".to_string(),
        contents: "hi".to_string(),
    });
    let d = plan_request(req.clone(), "alice".to_string(), 100);
    assert_eq!(
        d,
        Dispatch::Persist {
            channel_id: "general".to_string(),
            author: "alice".to_string(),
            contents: "hi".to_string(),
            timestamp: 100,
        }
    );
    match call_request(req, &sender) {
        Dispatch::Persist { channel_id, author, contents, .. } => {
            assert_eq!(channel_id, "general");
            assert_eq!(author, "alice");
            assert_eq!(contents, "hi");
        }
        other => panic!("unexpected {other:?}"),
    }
    let record = Message {
        id: 1,
        channel_id: "general".to_string(),
        from: "alice".to_string(),
        contents: "hi".to_string(),
        timestamp: 100,
    };
    let b = announce_created(&registry, record.clone());
    assert_eq!(b.targets, vec![1, 2]);
    assert_eq!(b.message, ServerMessage::MessageCreate(record));
}

#[test]
fn empty_message_is_refused_to_sender_only() {
    let d = send("general".to_string(), String::new(), "alice".to_string(), 5);
    assert_eq!(
        d,
        Dispatch::Reply(ResponseError::InvalidRequest("Invalid message: empty message".to_string()))
    );
}

#[test]
fn edit_delete_and_raw_are_ignored() {
    assert_eq!(edit("general".to_string(), 3, "x".to_string()), Dispatch::Ignore);
    assert_eq!(delete("general".to_string(), 3), Dispatch::Ignore);
    assert_eq!(plan_request(WsMessage::String("x".to_string()), String::new(), 0), Dispatch::Ignore);
    assert_eq!(plan_request(WsMessage::Binary(vec![1]), String::new(), 0), Dispatch::Ignore);
}

struct Counter {
    seen: usize,
    take: bool,
}

impl Plugin for Counter {
    fn init(&mut self, _config: &ServerConfig) {}

    fn claims(&self, _req: WsMessage<ClientMessage>) -> bool {
        self.take
    }

    fn on_request(
        &mut self,
        _req: &WsMessage<ClientMessage>,
        _client: &Client,
        replies: &mut Vec<ServerMessage>,
    ) -> bool {
        self.seen += 1;
        if self.take {
            replies.push(ServerMessage::TempMessage { message: "taken".to_string() });
        }
        self.take
    }
}

#[test]
fn plugin_chain_stops_at_first_taker() {
    let client = active_client(1, "alice");
    let mut plugins = vec![
        Counter { seen: 0, take: false },
        Counter { seen: 0, take: true },
        Counter { seen: 0, take: true },
    ];
    let req: WsMessage<ClientMessage> = WsMessage::String("x".to_string());
    let mut replies = Vec::new();
    assert_eq!(run_plugins(&mut plugins, &req, &client, &mut replies), Some(1));
    assert_eq!(plugins[0].seen, 1);
    assert_eq!(plugins[1].seen, 1);
    assert_eq!(plugins[2].seen, 0);
    assert_eq!(replies.len(), 1);
    let routed = route(&mut plugins, req, &client);
    assert!(routed.dispatch.is_none());
}

#[test]
fn my_plugin_answers_ping() {
    let client = active_client(1, "alice");
    let mut plugins = vec![MyPlugin];
    let ping = WsMessage::Message(ClientMessage::SendMessage {
        channel_id: "general".to_string(),
        contents: "ping".to_string(),
    });
    let routed = route(&mut plugins, ping, &client);
    assert!(routed.dispatch.is_none());
    assert_eq!(
        routed.replies,
        vec![ServerMessage::TempMessage { message: "pong".to_string() }]
    );
    let hello = WsMessage::Message(ClientMessage::SendMessage {
        channel_id: "general".to_string(),
        contents: "hello".to_string(),
    });
    let routed = route(&mut plugins, hello, &client);
    assert!(routed.replies.is_empty());
    assert!(matches!(routed.dispatch, Some(Dispatch::Persist { .. })));
}

#[test]
fn config_defaults_and_details() {
    let c = ServerConfig::default();
    assert_eq!(c.port, 7080);
    assert_eq!(c.server_name, "Server Name");
    assert_eq!(c.server_id, "offline-server");
    assert!(c.channels.is_empty());
    let d = c.details();
    assert_eq!(d.name, "Server Name");
    assert_eq!(d.id, "offline-server");
    assert_eq!(d.version, "0.0.1");
}

#[test]
fn logger_keeps_its_name() {
    assert_eq!(Logger::new("Server").name(), "Server");
}
