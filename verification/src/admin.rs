//! The admin socket: how other commands talk to the running server.

pub mod client;
pub mod connection;
pub mod message;
pub mod server;
pub mod socket;
