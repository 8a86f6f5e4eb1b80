//! Session fabric for a peer-to-peer remote-shell service.
//!
//! A daemon accepts authenticated peer connections and spawns a login shell
//! in a pseudo-terminal; a client proxies its local terminal to that shell
//! over a bidirectional byte stream. This crate holds the logic of that
//! fabric — the wire handshake, the access gate, the shell policy, the
//! proxy-loop and shutdown decisions — with machine-checked contracts.
//! Transport, PTY and terminal I/O are performed by the surrounding binary.

pub mod config;
pub mod errors;
pub mod handles;
pub mod hexfmt;
pub mod keys;
pub mod proto;
pub mod proxy;
pub mod session;
pub mod shutdown;
