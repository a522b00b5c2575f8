//! Constants of the protocol.

use vstd::prelude::*;

verus! {

/// Size of the buffer that the session loop reads into.
pub const MAX_PACKET_SIZE: usize = 1024;

/// How many handshakes a server tries with one client before it leaves.
pub const MAX_CONNECTION_ATTEMPTS: u8 = 3;

/// Number of random bytes in the client's hello.
pub const CLIENT_MASTER_KEY_SIZE: usize = 12;

/// Number of random bytes in the server's hello.
pub const SERVER_MASTER_KEY_SIZE: usize = 12;

/// Size of the master password: both hellos, the client's first.
pub const MASTER_KEY_SIZE: usize = CLIENT_MASTER_KEY_SIZE + SERVER_MASTER_KEY_SIZE;

/// Status of a handshake that succeeded: ASCII "OK".
pub const OK_BYTES: [u8; 2] = [0x4F, 0x4B];

/// Status of a handshake that failed: ASCII "KO".
pub const KO_BYTES: [u8; 2] = [0x4B, 0x4F];

} // verus!
