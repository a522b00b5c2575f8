//! The protocol: frames and their codec, and the two sides of a connection.

pub mod client;
pub mod exchange;
pub mod server;
pub mod shared;
