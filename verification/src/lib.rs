//! A two-party messaging tunnel: textbook RSA key generation and cipher, a
//! framed wire codec, and the handshake and session state machines that
//! drive one connection.

pub mod cypher;
pub mod keys_generator;
pub mod protocol;
