//! A peer-to-peer LAN chat: the wire formats, the connection and peer
//! registries, and the state machine behind the terminal interface.

pub mod text;
pub mod protocol;
pub mod nickmap;
pub mod network;
pub mod ui;
pub mod peer;
pub mod logger;
pub mod startup;
