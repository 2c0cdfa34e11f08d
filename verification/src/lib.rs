//! A minimal forward proxy core: it understands exactly one HTTP method,
//! CONNECT, and after a successful handshake becomes a transparent
//! bidirectional byte tunnel between a client and a target host:port.
//!
//! The crate holds the connection-handling logic: the incremental request-line
//! parser, the byte-exact wire responses, and the per-connection decision
//! machine that an I/O driver runs. All I/O (accepting, reading, dialing,
//! relaying) lives outside this crate; the driver feeds events in and performs
//! the actions handed back.
#![allow(unused_imports)]

pub mod handler;
pub mod parser;
pub mod responses;
