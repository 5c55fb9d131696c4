//! Wake-on-LAN control over an authenticated, encrypted channel.

pub mod actions;
pub mod channel;
pub mod cli;
pub mod client;
pub mod client_view;
pub mod clock;
pub mod compact;
pub mod config;
pub mod credential;
pub mod crypto;
pub mod deployment;
pub mod desk;
pub mod forms;
pub mod handshake;
pub mod header_map;
pub mod issue;
pub mod laws;
pub mod ledger;
pub mod limits;
pub mod literals;
pub mod logging;
pub mod net;
pub mod noise;
pub mod octets;
pub mod panel;
pub mod policy;
pub mod private_file;
pub mod probe;
pub mod protocol;
pub mod redacted;
pub mod replay;
pub mod request;
pub mod round_trip;
pub mod security;
pub mod server;
pub mod server_view;
pub mod session;
pub mod snapshot;
pub mod table;
pub mod text;
pub mod transfer;
pub mod wake;
pub mod wire;
