//! What can go wrong on the connecting side.

use vstd::prelude::*;

verus! {

/// Why a handshake or a session ended on the client.
#[derive(Debug, Clone, Copy, PartialEq, Eq)]
pub enum TunnelError {
    /// Bytes from the server are not what was awaited: no frame at all, a
    /// frame of another variant where a hello or a key was awaited, or a key
    /// that cannot be used.
    InvalidData,
    /// The server sent a frame of another variant where its verdict was
    /// awaited.
    UnexpectedFrame,
    /// The server's verdict is neither "OK" nor "KO".
    UnexpectedValue,
    /// The server said "KO".
    HandshakeWentWrong,
    /// The client's own key pair cannot be used.
    KeyGenFailed,
    /// The server closed the connection.
    ServerDisconnected,
}

/// The result of a step on the client.
pub type TunnelResult<T> = Result<T, TunnelError>;

} // verus!
