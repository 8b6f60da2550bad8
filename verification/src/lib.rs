//! Status probes for game servers that speak either of two wire protocols:
//! the connectionless UDP ping ("BE") and the TCP status exchange ("JE").
//!
//! The crate holds the parts that compute. Sockets, timers and name
//! resolution are the caller's: the caller sends what the crate builds and
//! hands back what came.
//!
//! - `utils`: the validator of hosts and ports.
//! - `varint`: the variable-length integer of the JE protocol.
//! - `motd_be`: the ping datagram and the reading of its reply.
//! - `motd_je`: the handshake, the framing of the response and the reading
//!   of the status document.
//! - `json`: JSON documents as plain data.
//! - `fetch`: the order in which a lookup asks its questions.
//! - `report`: the text that a lookup hands back.
//! - `text`, `wire`: helpers on characters and on bytes.

pub mod fetch;
pub mod json;
pub mod motd_be;
pub mod motd_je;
pub mod probe;
pub mod report;
pub mod text;
pub mod utils;
pub mod varint;
pub mod wire;
