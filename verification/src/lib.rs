//! A file-transfer server's protocol logic: command parsing, the per-session
//! state machine, address encoding, path confinement and data-port allocation.
//!
//! Text on the wire is handled as bytes; every function states its result over
//! `Seq<u8>` models.

pub mod text;
pub mod number;
pub mod path;
pub mod addr;
pub mod user;
pub mod reply;
pub mod session;
pub mod command;
pub mod laws;
pub mod ports;
pub mod unique;
pub mod config;
pub mod listing;
