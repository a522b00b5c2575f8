//! The client's handshake: what it sends, what it reads, and the state
//! machine that orders the two.

pub mod receive;
pub mod send;
pub mod validate;
