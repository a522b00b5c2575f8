//! What the server sends during a handshake.

use vstd::prelude::*;

use crate::cypher::{enigma, transform};
use crate::keys_generator::keys::{KeyView, PublicKey};
use crate::protocol::server::errors::{TunnelError, TunnelResult};
use crate::protocol::shared::codec::{encodable, encode_record, record};
use crate::protocol::shared::nonce::{fresh_nonce, NONCE_BYTE_BOUND};
use crate::protocol::shared::types::{
    Frame, HelloServerRequest, PacketType, SharingCryptedPubKeyRequest, SharingPubKeyRequest,
};
use crate::protocol::shared::wire::{encode_frame, wire_text};

verus! {

/// The server's public key as the client is to receive it: the record of
/// the key, encrypted under the client's public key.
pub open spec fn sealed_key(server: KeyView, client: KeyView) -> Seq<u8> {
    transform(record(Frame::SharingPubKey { key: server }), client.e(), client.n())
}

/// The text of the hello that carries `nonce`.
pub fn hello_packet(nonce: [u8; 12]) -> (text: Vec<u8>)
    ensures
        text@ == wire_text(Frame::HelloServer { nonce: nonce@ }),
        encodable(Frame::HelloServer { nonce: nonce@ }),
{
    encode_frame(&PacketType::HELLOSERVER(HelloServerRequest::new(nonce)))
}

/// Draws the server's random bytes and writes the hello that carries them:
/// the bytes, and the text to send.
pub fn send_hello() -> (sent: ([u8; 12], Vec<u8>))
    ensures
        sent.1@ == wire_text(Frame::HelloServer { nonce: sent.0@ }),
        forall|i: int| 0 <= i < 12 ==> sent.0@[i] < NONCE_BYTE_BOUND,
{
    let nonce: [u8; 12] = fresh_nonce();
    (nonce, hello_packet(nonce))
}

/// The text that carries the server's public key, encrypted under the
/// client's. A client key with a zero modulus encrypts nothing and is
/// refused.
pub fn send_crypted_public_key(pub_key: &PublicKey, other_pub_key: &PublicKey) -> (text:
    TunnelResult<Vec<u8>>)
    ensures
        match text {
            Ok(sent) => other_pub_key@.n() != 0 && sent@ == wire_text(
                Frame::SharingCryptedPubKey { ciphertext: sealed_key(pub_key@, other_pub_key@) },
            ) && encodable(
                Frame::SharingCryptedPubKey { ciphertext: sealed_key(pub_key@, other_pub_key@) },
            ),
            Err(error) => other_pub_key@.n() == 0 && error == TunnelError::InvalidData,
        },
{
    let modulus = other_pub_key.modulus();
    if modulus.is_zero() {
        return Err(TunnelError::InvalidData);
    }
    let data = encode_record(&PacketType::SHARINGPUBKEY(SharingPubKeyRequest::new(pub_key.clone())));
    let data = enigma(&data, &other_pub_key.encryption_value(), &modulus);
    Ok(encode_frame(&PacketType::SHARINGCRYPTEDPUBKEY(SharingCryptedPubKeyRequest::new(data))))
}

} // verus!
