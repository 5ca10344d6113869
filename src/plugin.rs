use vstd::prelude::*;

use crate::client::Client;
use crate::config::ServerConfig;
use crate::requests::{call_request, Dispatch};
use crate::types::{ClientMessage, ServerMessage, WsMessage};

verus! {

/// An interceptor offered each request before the router.
pub trait Plugin {
    /// Called once when the server starts.
    fn init(&mut self, config: &ServerConfig);

    /// Whether, in its present state, the plugin takes `req` for itself.
    spec fn claims(&self, req: WsMessage<ClientMessage>) -> bool;

    /// Looks at `req` from `client`; may add messages for the sender to
    /// `replies`. Returns `true` when it takes the request, which then goes no
    /// further.
    fn on_request(
        &mut self,
        req: &WsMessage<ClientMessage>,
        client: &Client,
        replies: &mut Vec<ServerMessage>,
    ) -> (r: bool)
        ensures
            r == old(self).claims(*req),
    ;
}

/// Offers `req` to each plugin in order until one takes it; gives the
/// position of that plugin. Plugins after it are not asked.
pub fn run_plugins<P: Plugin>(
    plugins: &mut Vec<P>,
    req: &WsMessage<ClientMessage>,
    client: &Client,
    replies: &mut Vec<ServerMessage>,
) -> (r: Option<usize>)
    ensures
        final(plugins)@.len() == old(plugins)@.len(),
        match r {
            Some(i) => {
                &&& i < old(plugins)@.len()
                &&& old(plugins)@[i as int].claims(*req)
                &&& forall|j: int| 0 <= j < i ==> !(#[trigger] old(plugins)@[j]).claims(*req)
                &&& forall|j: int| i < j < old(plugins)@.len() ==> #[trigger] final(plugins)@[j]
                    == old(plugins)@[j]
            },
            None => forall|j: int| 0 <= j < old(plugins)@.len() ==> !(#[trigger] old(
                plugins,
            )@[j]).claims(*req),
        },
{
    let ghost start = plugins@;
    let n: usize = plugins.len();
    let mut i: usize = 0;
    let mut found: Option<usize> = None;
    while i < n
        invariant_except_break
            found is None,
            forall|j: int| i <= j < n ==> #[trigger] plugins@[j] == start[j],
        invariant
            i <= n,
            n == start.len(),
            start == old(plugins)@,
            plugins@.len() == n,
            forall|j: int| 0 <= j < i ==> !(#[trigger] start[j]).claims(*req),
        ensures
            plugins@.len() == n,
            match found {
                Some(k) => k < n && start[k as int].claims(*req) && (forall|j: int|
                    0 <= j < k ==> !(#[trigger] start[j]).claims(*req)) && (forall|j: int|
                    k < j < n ==> #[trigger] plugins@[j] == start[j]),
                None => forall|j: int| 0 <= j < n ==> !(#[trigger] start[j]).claims(*req),
            },
        decreases n - i,
    {
        let ghost before = plugins@;
        let mut p = plugins.remove(i);
        assert(p == start[i as int]);
        let taken = p.on_request(req, client, replies);
        plugins.insert(i, p);
        assert(forall|j: int| 0 <= j < n && j != i ==> plugins@[j] == before[j]);
        if taken {
            found = Some(i);
            break;
        }
        i = i + 1;
    }
    found
}

/// Where a request ends: the messages that plugins address to the sender,
/// and the router's decision, `None` where a plugin took the request.
pub struct Routed {
    pub replies: Vec<ServerMessage>,
    pub dispatch: Option<Dispatch>,
}

/// Offers `req` to the plugins, then, where none takes it, to the router.
pub fn route<P: Plugin>(plugins: &mut Vec<P>, req: WsMessage<ClientMessage>, client: &Client) -> (r:
    Routed)
    ensures
        final(plugins)@.len() == old(plugins)@.len(),
        (exists|i: int| 0 <= i < old(plugins)@.len() && (#[trigger] old(plugins)@[i]).claims(req))
            <==> r.dispatch is None,
        r.dispatch matches Some(d) ==> exists|t: i64|
            crate::requests::is_plan(req, crate::requests::author_of(client), t, d),
{
    let mut replies: Vec<ServerMessage> = Vec::new();
    match run_plugins(plugins, &req, client, &mut replies) {
        Some(i) => {
            assert(old(plugins)@[i as int].claims(req));
            Routed { replies, dispatch: None }
        },
        None => Routed { replies, dispatch: Some(call_request(req, client)) },
    }
}

pub const PING_TEXT: &'static str = "ping";

pub const PONG_TEXT: &'static str = "pong";

/// Answers a message `ping` with `pong` to its sender, and takes it.
#[derive(Debug, Clone, Copy, Default)]
pub struct MyPlugin;

impl Plugin for MyPlugin {
    fn init(&mut self, config: &ServerConfig) {
    }

    open spec fn claims(&self, req: WsMessage<ClientMessage>) -> bool {
        req matches WsMessage::Message(ClientMessage::SendMessage { contents, .. }) && contents@
            == PING_TEXT@
    }

    fn on_request(
        &mut self,
        req: &WsMessage<ClientMessage>,
        client: &Client,
        replies: &mut Vec<ServerMessage>,
    ) -> (r: bool) {
        match req {
            WsMessage::Message(ClientMessage::SendMessage { contents, .. }) => {
                let ping = PING_TEXT.to_string();
                if *contents == ping {
                    replies.push(ServerMessage::TempMessage { message: PONG_TEXT.to_string() });
                    true
                } else {
                    false
                }
            },
            _ => false,
        }
    }
}

} // verus!
