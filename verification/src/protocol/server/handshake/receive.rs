//! What the server reads during a handshake.

use vstd::prelude::*;

use crate::keys_generator::keys::{KeyView, PublicKey};
use crate::protocol::server::errors::{TunnelError, TunnelResult};
use crate::protocol::shared::types::{Frame, PacketType};
use crate::protocol::shared::wire::{decode_frame, reads_back, wire_frame, CodecError};

verus! {

/// The client's random bytes, if the input is a client hello. Anything else
/// is invalid data, a frame of another variant too.
pub open spec fn expect_client_hello(input: Result<Frame, CodecError>) -> Result<
    Seq<u8>,
    TunnelError,
> {
    match input {
        Ok(Frame::HelloClient { nonce }) => Ok(nonce),
        Ok(_) => Err(TunnelError::InvalidData),
        Err(_) => Err(TunnelError::InvalidData),
    }
}

/// The client's public key, if the input is one. Anything else is invalid
/// data, a frame of another variant too.
pub open spec fn expect_public_key(input: Result<Frame, CodecError>) -> Result<
    KeyView,
    TunnelError,
> {
    match input {
        Ok(Frame::SharingPubKey { key }) => Ok(key),
        Ok(_) => Err(TunnelError::InvalidData),
        Err(_) => Err(TunnelError::InvalidData),
    }
}

/// The encrypted master password, if the input is one.
pub open spec fn expect_password(input: Result<Frame, CodecError>) -> Result<Seq<u8>, TunnelError> {
    match input {
        Ok(Frame::KeysValidated { ciphertext }) => Ok(ciphertext),
        Ok(_) => Err(TunnelError::UnexpectedFrame),
        Err(_) => Err(TunnelError::InvalidData),
    }
}

/// Reads the client's hello from a text off the wire.
pub fn read_client_hello(packet: &[u8]) -> (hello: TunnelResult<[u8; 12]>)
    ensures
        match hello {
            Ok(nonce) => expect_client_hello(wire_frame(packet@)) == Ok::<Seq<u8>, TunnelError>(
                nonce@,
            ),
            Err(error) => expect_client_hello(wire_frame(packet@)) == Err::<Seq<u8>, TunnelError>(
                error,
            ) && error == TunnelError::InvalidData,
        },
        reads_back(packet@),
{
    match decode_frame(packet) {
        Ok(PacketType::HELLOCLIENT(request)) => Ok(request.key()),
        Ok(_) => Err(TunnelError::InvalidData),
        Err(_) => Err(TunnelError::InvalidData),
    }
}

/// Reads the client's public key from a text off the wire.
pub fn read_client_public_key(packet: &[u8]) -> (key: TunnelResult<PublicKey>)
    ensures
        match key {
            Ok(public) => expect_public_key(wire_frame(packet@)) == Ok::<KeyView, TunnelError>(
                public@,
            ),
            Err(error) => expect_public_key(wire_frame(packet@)) == Err::<KeyView, TunnelError>(
                error,
            ) && error == TunnelError::InvalidData,
        },
        reads_back(packet@),
{
    match decode_frame(packet) {
        Ok(PacketType::SHARINGPUBKEY(request)) => Ok(request.pub_key()),
        Ok(_) => Err(TunnelError::InvalidData),
        Err(_) => Err(TunnelError::InvalidData),
    }
}

/// Reads the encrypted master password from a text off the wire. Its length
/// says nothing yet: the size that counts is that of the password once
/// decrypted.
pub fn read_cyphered_password(packet: &[u8]) -> (password: TunnelResult<Vec<u8>>)
    ensures
        match password {
            Ok(ciphertext) => expect_password(wire_frame(packet@)) == Ok::<Seq<u8>, TunnelError>(
                ciphertext@,
            ),
            Err(error) => expect_password(wire_frame(packet@)) == Err::<Seq<u8>, TunnelError>(
                error,
            ),
        },
        reads_back(packet@),
{
    match decode_frame(packet) {
        Ok(PacketType::KEYSVALIDATED(request)) => Ok(request.key()),
        Ok(_) => Err(TunnelError::UnexpectedFrame),
        Err(_) => Err(TunnelError::InvalidData),
    }
}

} // verus!
