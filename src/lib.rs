//! A real-time chat relay: identification of persistent connections, a
//! bounded fan-out channel with per-subscriber cursors, the per-connection
//! session state machine, and the decisions of the account façade.

pub mod models;
pub mod frame;
pub mod hub;
pub mod session;
pub mod auth;
pub mod directory;
pub mod token;
pub mod message_log;
