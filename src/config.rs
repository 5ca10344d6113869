use vstd::prelude::*;

use crate::types::{Channel, ServerDetails};

verus! {

/// The version that the server announces.
pub const SERVER_VERSION: &'static str = "0.0.1";

pub const DEFAULT_PORT: u16 = 7080;

pub const DEFAULT_NAME: &'static str = "Server Name";

pub const DEFAULT_ID: &'static str = "offline-server";

/// How a server presents itself and where it listens.
#[derive(Debug, Clone)]
pub struct ServerConfig {
    pub server_name: String,
    pub server_id: String,
    pub port: u16,
    pub channels: Vec<Channel>,
}

impl Default for ServerConfig {
    fn default() -> (r: ServerConfig)
        ensures
            r.port == DEFAULT_PORT,
            r.server_name@ == DEFAULT_NAME@,
            r.server_id@ == DEFAULT_ID@,
            r.channels@.len() == 0,
    {
        ServerConfig {
            server_name: DEFAULT_NAME.to_string(),
            server_id: DEFAULT_ID.to_string(),
            port: DEFAULT_PORT,
            channels: Vec::new(),
        }
    }
}

impl ServerConfig {
    /// What the server announces of itself to a new connection.
    pub fn details(&self) -> (r: ServerDetails)
        ensures
            r.name@ == self.server_name@,
            r.id@ == self.server_id@,
            r.version@ == SERVER_VERSION@,
    {
        ServerDetails {
            version: SERVER_VERSION.to_string(),
            name: self.server_name.clone(),
            id: self.server_id.clone(),
        }
    }
}

} // verus!
