//! What the client sends during a handshake.

use vstd::prelude::*;

use crate::cypher::{enigma, transform};
use crate::keys_generator::keys::PublicKey;
use crate::keys_generator::maths::natural::copy_range;
use crate::protocol::client::errors::{TunnelError, TunnelResult};
use crate::protocol::shared::nonce::{fresh_nonce, NONCE_BYTE_BOUND};
use crate::protocol::shared::types::{
    Frame, HelloClientRequest, KeysValidatedRequest, PacketType, SharingPubKeyRequest,
};
use crate::protocol::shared::codec::encodable;
use crate::protocol::shared::wire::{encode_frame, wire_text};

verus! {

/// The text of the hello that carries `nonce`.
pub fn hello_packet(nonce: [u8; 12]) -> (text: Vec<u8>)
    ensures
        text@ == wire_text(Frame::HelloClient { nonce: nonce@ }),
        encodable(Frame::HelloClient { nonce: nonce@ }),
{
    encode_frame(&PacketType::HELLOCLIENT(HelloClientRequest::new(nonce)))
}

/// Draws the client's random bytes and writes the hello that carries them:
/// the bytes, and the text to send.
pub fn send_hello() -> (sent: ([u8; 12], Vec<u8>))
    ensures
        sent.1@ == wire_text(Frame::HelloClient { nonce: sent.0@ }),
        forall|i: int| 0 <= i < 12 ==> sent.0@[i] < NONCE_BYTE_BOUND,
{
    let nonce: [u8; 12] = fresh_nonce();
    (nonce, hello_packet(nonce))
}

/// The text that shares the client's public key, in the clear.
pub fn send_public_key(pub_key: &PublicKey) -> (text: Vec<u8>)
    ensures
        text@ == wire_text(Frame::SharingPubKey { key: pub_key@ }),
        encodable(Frame::SharingPubKey { key: pub_key@ }),
{
    encode_frame(&PacketType::SHARINGPUBKEY(SharingPubKeyRequest::new(pub_key.clone())))
}

/// The text that carries the master password, encrypted under the server's
/// public key. A key with a zero modulus encrypts nothing and is refused.
pub fn send_cyphered_master_password(public_key: &PublicKey, password: &[u8; 24]) -> (text:
    TunnelResult<Vec<u8>>)
    ensures
        match text {
            Ok(sent) => public_key@.n() != 0 && sent@ == wire_text(
                Frame::KeysValidated {
                    ciphertext: transform(password@, public_key@.e(), public_key@.n()),
                },
            ) && encodable(
                Frame::KeysValidated {
                    ciphertext: transform(password@, public_key@.e(), public_key@.n()),
                },
            ),
            Err(error) => public_key@.n() == 0 && error == TunnelError::InvalidData,
        },
{
    let modulus = public_key.modulus();
    if modulus.is_zero() {
        return Err(TunnelError::InvalidData);
    }
    let plain = copy_range(password.as_slice(), 0, 24);
    assert(plain@ =~= password@);
    let data = enigma(&plain, &public_key.encryption_value(), &modulus);
    Ok(encode_frame(&PacketType::KEYSVALIDATED(KeysValidatedRequest::new(data))))
}

} // verus!
