//! A transparent relay for a length-prefixed binary protocol: a stateful
//! stream decoder that reassembles frames out of an arbitrarily chunked byte
//! stream, a byte-exact forwarding engine that observes traffic without
//! altering it, a header-to-name catalog for diagnostics, an in-band debug
//! toggle, and the per-connection lifecycle state machine.

pub mod catalog;
pub mod debug_flag;
pub mod decoder;
pub mod forwarder;
pub mod logger;
pub mod packet;
pub mod redirect;
pub mod session;
pub mod text;
pub mod wire;
