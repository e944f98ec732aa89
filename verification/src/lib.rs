//! Identity-addressed peer-to-peer RPC substrate: a routing table keyed by
//! account identities, signed request/response envelopes, and the framing
//! protocol that carries them over a reliable stream transport.

pub mod codec;
pub mod errors;
pub mod types;
pub mod account;
pub mod envelope;
pub mod flag;
pub mod opcode;
pub mod book;
pub mod io;
pub mod client;
pub mod server;
pub mod cert;
pub mod args;
pub mod wasi;
