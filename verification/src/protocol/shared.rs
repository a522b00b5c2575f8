//! What both sides share: constants, frames and the wire codec.

pub mod codec;
pub mod constant;
pub mod nonce;
pub mod session;
pub mod types;
pub mod wire;
