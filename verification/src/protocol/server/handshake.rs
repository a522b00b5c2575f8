//! The server's handshake: what it reads, what it sends, and the state
//! machine that orders the two.

pub mod receive;
pub mod send;
pub mod validate;
