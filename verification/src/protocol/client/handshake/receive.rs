//! What the client reads during a handshake.

use vstd::prelude::*;

use crate::protocol::client::errors::{TunnelError, TunnelResult};
use crate::protocol::shared::types::{Frame, PacketType};
use crate::protocol::shared::wire::{decode_frame, reads_back, wire_frame, CodecError};

verus! {

/// The server's random bytes, if the input is a server hello. Anything else
/// is invalid data, a frame of another variant too.
pub open spec fn expect_server_hello(input: Result<Frame, CodecError>) -> Result<
    Seq<u8>,
    TunnelError,
> {
    match input {
        Ok(Frame::HelloServer { nonce }) => Ok(nonce),
        Ok(_) => Err(TunnelError::InvalidData),
        Err(_) => Err(TunnelError::InvalidData),
    }
}

/// The encrypted key of the server, if the input is one. Anything else is
/// invalid data, a frame of another variant too.
pub open spec fn expect_crypted_pub_key(input: Result<Frame, CodecError>) -> Result<
    Seq<u8>,
    TunnelError,
> {
    match input {
        Ok(Frame::SharingCryptedPubKey { ciphertext }) => Ok(ciphertext),
        Ok(_) => Err(TunnelError::InvalidData),
        Err(_) => Err(TunnelError::InvalidData),
    }
}

/// Reads the server's hello from a text off the wire.
pub fn read_server_hello(packet: &[u8]) -> (hello: TunnelResult<[u8; 12]>)
    ensures
        match hello {
            Ok(nonce) => expect_server_hello(wire_frame(packet@)) == Ok::<Seq<u8>, TunnelError>(
                nonce@,
            ),
            Err(error) => expect_server_hello(wire_frame(packet@)) == Err::<Seq<u8>, TunnelError>(
                error,
            ) && error == TunnelError::InvalidData,
        },
        reads_back(packet@),
{
    match decode_frame(packet) {
        Ok(PacketType::HELLOSERVER(request)) => Ok(request.key()),
        Ok(_) => Err(TunnelError::InvalidData),
        Err(_) => Err(TunnelError::InvalidData),
    }
}

/// Reads the server's encrypted public key from a text off the wire.
pub fn read_server_cyphered_pub_key(packet: &[u8]) -> (key: TunnelResult<Vec<u8>>)
    ensures
        match key {
            Ok(ciphertext) => expect_crypted_pub_key(wire_frame(packet@)) == Ok::<
                Seq<u8>,
                TunnelError,
            >(ciphertext@),
            Err(error) => expect_crypted_pub_key(wire_frame(packet@)) == Err::<
                Seq<u8>,
                TunnelError,
            >(error) && error == TunnelError::InvalidData,
        },
        reads_back(packet@),
{
    match decode_frame(packet) {
        Ok(PacketType::SHARINGCRYPTEDPUBKEY(request)) => Ok(request.crypted_pub_key()),
        Ok(_) => Err(TunnelError::InvalidData),
        Err(_) => Err(TunnelError::InvalidData),
    }
}

} // verus!
