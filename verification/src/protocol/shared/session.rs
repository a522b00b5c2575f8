//! The messages of a session: each line goes out encrypted under the peer's
//! public key, and comes in to be decrypted under the own private key.

use vstd::prelude::*;

use super::wire::{encode_payload, json_array};
use crate::cypher::{enigma, transform};
use crate::keys_generator::keys::{KeyView, PrivateKey, PublicKey};

verus! {

/// ASCII line feed.
pub const NEWLINE: u8 = 10;

/// The message without its last byte, if that is a line feed.
pub open spec fn strip_newline(message: Seq<u8>) -> Seq<u8> {
    if message.len() > 0 && message.last() == NEWLINE {
        message.drop_last()
    } else {
        message
    }
}

/// A line as it travels: encrypted under `key`, then written as a JSON
/// array.
pub open spec fn sealed_message(line: Seq<u8>, key: KeyView) -> Seq<u8> {
    json_array(transform(line, key.e(), key.n()))
}

/// A message as it is shown: decrypted under `key`, without the line feed
/// at its end.
pub open spec fn opened_message(ciphertext: Seq<u8>, key: KeyView) -> Seq<u8> {
    strip_newline(transform(ciphertext, key.e(), key.n()))
}

/// Encrypts a line under the peer's public key and writes the text to send.
/// There is none for a key with a zero modulus.
pub fn seal_message(line: &Vec<u8>, pub_key: &PublicKey) -> (text: Option<Vec<u8>>)
    ensures
        text is Some <==> pub_key@.n() != 0,
        text matches Some(sent) ==> sent@ == sealed_message(line@, pub_key@),
{
    let modulus = pub_key.modulus();
    if modulus.is_zero() {
        return None;
    }
    let data = enigma(line, &pub_key.encryption_value(), &modulus);
    Some(encode_payload(&data))
}

/// Decrypts a message under the own private key and strips the line feed at
/// its end. There is none for a key with a zero modulus.
pub fn open_message(ciphertext: &Vec<u8>, private_key: &PrivateKey) -> (message: Option<Vec<u8>>)
    ensures
        message is Some <==> private_key@.n() != 0,
        message matches Some(shown) ==> shown@ == opened_message(ciphertext@, private_key@),
{
    let modulus = private_key.modulus();
    if modulus.is_zero() {
        return None;
    }
    let mut plain = enigma(ciphertext, &private_key.decryption_value(), &modulus);
    let len: usize = plain.len();
    if len > 0 && plain[len - 1] == NEWLINE {
        plain.pop();
    }
    Some(plain)
}

} // verus!
