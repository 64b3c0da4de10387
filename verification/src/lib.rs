//! Server and client logic of a small web service that runs configured shell
//! commands on request: password login with rate limiting, session tokens that
//! expire after a week, a registry of launched commands whose output is
//! streamed over a websocket, and the client-side state that collects that
//! output per command.
pub mod time;
pub mod decimal;
pub mod error;
pub mod session;
pub mod auth;
pub mod commands;
pub mod messages;
pub mod streaming;
pub mod client;
