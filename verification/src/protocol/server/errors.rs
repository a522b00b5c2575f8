//! What can go wrong on the listening side.

use vstd::prelude::*;

verus! {

/// Why a handshake or a session ended on the server.
#[derive(Debug, Clone, Copy, PartialEq, Eq)]
pub enum TunnelError {
    /// Bytes from the client are not what was awaited: no frame at all, a
    /// frame of another variant where a hello or a key was awaited, or a key
    /// that cannot be used.
    InvalidData,
    /// The client sent a frame of another variant where the encrypted master
    /// password was awaited.
    UnexpectedFrame,
    /// The master password that the client sent does not decrypt to
    /// `MASTER_KEY_SIZE` bytes.
    InvalidKeySize,
    /// The master password that the client sent is not the server's.
    HandshakeWentWrong,
    /// The server's own key pair cannot be used.
    KeyGenFailed,
    /// The client closed the connection.
    ClientDisconnected,
}

/// The result of a step on the server.
pub type TunnelResult<T> = Result<T, TunnelError>;

} // verus!
