//! The listening side.

pub mod errors;
pub mod handshake;
pub mod run;
