//! Core of a minimal TCP/IP stack: the TCP segment wire codec, the Internet
//! checksum engine, and the connection state machine that drives the
//! three-way handshake and the steady-state send/receive/acknowledge cycle.
//!
//! All I/O (the underlying raw IP datagram resource) lives outside this
//! crate; the functions here turn received datagram bytes into decisions,
//! state updates and fully formed reply segments.

pub mod checksum;
pub mod conn;
pub mod parse;
pub mod scheme;
pub mod time;
pub mod segment;
