//! Coordination of a few networked participants who pass one token around:
//! the frame codec, the three-lane event multiplexer, the per-connection
//! session state machine, the coordinator's token rules and the decisions of
//! the terminal client.
pub mod game;
pub mod message;
pub mod server;
pub mod encoding;
pub mod mailbox;
pub mod events;
pub mod session;
pub mod client;
