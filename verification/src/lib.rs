//! Message types, wire framing, server bookkeeping and chat-window state of a
//! small broadcast chat service.
pub mod message;
pub mod codec;
pub mod scroll;
pub mod chat_view;
pub mod client;
pub mod server;
