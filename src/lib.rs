//! A client library for the ServerQuery protocol of a voice-chat server:
//! the escaping codec, the record parser, the protocol's error model, the
//! client and channel entities with the merge that puts clients into their
//! channels, and the protocol engine apart from the transport: the session
//! that frames commands and responses, and the composite operations.
pub mod escaping;
pub mod text;
pub mod map;
pub mod error;
pub mod client;
pub mod channel;
pub mod command;
pub mod session;
pub mod query;
pub mod prelude;
