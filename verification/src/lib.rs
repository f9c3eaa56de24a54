//! Real-time relay for a two-party chat service.
//!
//! The crate holds the part of a chat backend that decides: who is reachable
//! right now, where a message or a read receipt goes, what is asked of the
//! durable store, and when a silent connection is given up. It performs no
//! I/O. Every operation takes plain values and returns, besides the new
//! state, the actions that the surrounding program has to carry out.
//!
//! - [`server`] holds the registry of live sessions, which routes events.
//! - [`sessions`] holds the handler of one connection, with its heartbeat.
//! - [`wire`] reads and writes the records that travel over a connection.
//! - [`store`] names the requests that go to the durable store.
//! - [`auth`] resolves identities and checks passwords.
//! - [`api`] holds the rules of the plain request handlers.

pub mod api;
pub mod auth;
pub mod message;
pub mod server;
pub mod sessions;
pub mod store;
pub mod wire;

pub use auth::{chat_route, validate_session, User};
pub use message::{Connect, Disconnect, ReadMessage, WsMessage};
pub use server::ChatServer;
pub use sessions::WsChatSession;
