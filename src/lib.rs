//! Protocol engine of a chat relay: the WebSocket frame codec, the upgrade
//! handshake, message reassembly, the per-connection session machine, the
//! registry of connected clients, the plugin chain and the routing of client
//! requests.
pub mod client;
pub mod config;
pub mod frame;
pub mod handshake;
pub mod logger;
pub mod plugin;
pub mod reader;
pub mod registry;
pub mod requests;
pub mod text;
pub mod types;
