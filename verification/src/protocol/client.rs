//! The connecting side.

pub mod errors;
pub mod handshake;
pub mod run;
