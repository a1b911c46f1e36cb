//! Decision logic of a single-port protocol-multiplexing proxy.
//!
//! The proxy listens on one port, looks at the first bytes of each client
//! without taking them, tells SSH, HTTP, WebSocket upgrades, OpenVPN and TLS
//! apart, and relays the connection to the backend of its protocol. Tunnelled
//! clients are first sent an HTTP upgrade that is only a disguise.
//!
//! Every function here is pure: it takes bytes, counters and states as plain
//! values and returns the next state or the bytes to put on the wire. Sockets,
//! timers and tasks belong to the program that drives these functions.
//!
//! - [`sniff`] classifies the first bytes; [`http`] and [`ascii`] read the
//!   request head for it.
//! - [`handshake`] holds the disguise lines and the WebSocket upgrade, with
//!   [`sha1`] and [`base64`] for the accept key.
//! - [`dispatch`] picks the backend and [`backoff`] spaces the attempts to
//!   reach it.
//! - [`relay`] keeps the books of the two directions of a relay and
//!   [`frame`] reads and writes WebSocket frames.
//! - [`session`] leads one connection through these steps.
//! - [`listener`] leads the accept loop, with [`admission`] bounding the
//!   number of connections.
//! - [`config`] holds the settings.

pub mod admission;
pub mod ascii;
pub mod backoff;
pub mod base64;
pub mod config;
pub mod dispatch;
pub mod frame;
pub mod handshake;
pub mod http;
pub mod listener;
pub mod protocol;
pub mod relay;
pub mod session;
pub mod sha1;
pub mod sniff;
