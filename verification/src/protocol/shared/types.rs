//! The frames of the protocol.

use vstd::prelude::*;

use crate::keys_generator::keys::{KeyView, PublicKey};
use crate::keys_generator::maths::natural::copy_range;

verus! {

/// What a frame holds, whatever it is stored in.
pub ghost enum Frame {
    /// The client's random bytes.
    HelloClient { nonce: Seq<u8> },
    /// The server's random bytes.
    HelloServer { nonce: Seq<u8> },
    /// The client's public key, in the clear.
    SharingPubKey { key: KeyView },
    /// The server's public key, encrypted under the client's.
    SharingCryptedPubKey { ciphertext: Seq<u8> },
    /// The master password, encrypted under the server's public key.
    KeysValidated { ciphertext: Seq<u8> },
    /// The server's verdict.
    HandshakeValidated { status: Seq<u8> },
    /// The server closes the connection.
    Leave,
}

impl Frame {
    /// The fixed-length fields have their lengths.
    pub open spec fn wf(self) -> bool {
        match self {
            Frame::HelloClient { nonce } => nonce.len() == 12,
            Frame::HelloServer { nonce } => nonce.len() == 12,
            Frame::HandshakeValidated { status } => status.len() == 2,
            _ => true,
        }
    }
}

/// The client's hello.
#[derive(Debug, PartialEq, Clone, Copy)]
pub struct HelloClientRequest {
    key: [u8; 12],
}

impl View for HelloClientRequest {
    type V = Seq<u8>;

    closed spec fn view(&self) -> Seq<u8> {
        self.key@
    }
}

impl HelloClientRequest {
    /// The hello that carries `key`.
    pub fn new(key: [u8; 12]) -> (request: Self)
        ensures
            request@ == key@,
    {
        Self { key }
    }

    /// The random bytes of the client.
    pub fn key(&self) -> (key: [u8; 12])
        ensures
            key@ == self@,
    {
        self.key
    }
}

/// The server's hello.
#[derive(Debug, PartialEq, Clone, Copy)]
pub struct HelloServerRequest {
    key: [u8; 12],
}

impl View for HelloServerRequest {
    type V = Seq<u8>;

    closed spec fn view(&self) -> Seq<u8> {
        self.key@
    }
}

impl HelloServerRequest {
    /// The hello that carries `key`.
    pub fn new(key: [u8; 12]) -> (request: Self)
        ensures
            request@ == key@,
    {
        Self { key }
    }

    /// The random bytes of the server.
    pub fn key(&self) -> (key: [u8; 12])
        ensures
            key@ == self@,
    {
        self.key
    }
}

/// The client's public key.
#[derive(Debug, PartialEq, Clone)]
pub struct SharingPubKeyRequest {
    pub_key: PublicKey,
}

impl View for SharingPubKeyRequest {
    type V = KeyView;

    closed spec fn view(&self) -> KeyView {
        self.pub_key@
    }
}

impl SharingPubKeyRequest {
    /// The request that carries `pub_key`.
    pub fn new(pub_key: PublicKey) -> (request: Self)
        ensures
            request@ == pub_key@,
    {
        Self { pub_key }
    }

    /// The public key of the client.
    pub fn pub_key(&self) -> (key: PublicKey)
        ensures
            key@ == self@,
    {
        self.pub_key.clone()
    }
}

/// The server's public key, encrypted.
#[derive(Debug, PartialEq, Clone)]
pub struct SharingCryptedPubKeyRequest {
    crypted_pub_key: Vec<u8>,
}

impl View for SharingCryptedPubKeyRequest {
    type V = Seq<u8>;

    closed spec fn view(&self) -> Seq<u8> {
        self.crypted_pub_key@
    }
}

impl SharingCryptedPubKeyRequest {
    /// The request that carries `crypted_pub_key`.
    pub fn new(crypted_pub_key: Vec<u8>) -> (request: Self)
        ensures
            request@ == crypted_pub_key@,
    {
        Self { crypted_pub_key }
    }

    /// The encrypted public key of the server.
    pub fn crypted_pub_key(&self) -> (bytes: Vec<u8>)
        ensures
            bytes@ == self@,
    {
        let bytes = copy_range(self.crypted_pub_key.as_slice(), 0, self.crypted_pub_key.len());
        assert(bytes@ =~= self.crypted_pub_key@);
        bytes
    }
}

/// The master password, encrypted.
#[derive(Debug, PartialEq, Clone)]
pub struct KeysValidatedRequest {
    key: Vec<u8>,
}

impl View for KeysValidatedRequest {
    type V = Seq<u8>;

    closed spec fn view(&self) -> Seq<u8> {
        self.key@
    }
}

impl KeysValidatedRequest {
    /// The request that carries `key`.
    pub fn new(key: Vec<u8>) -> (request: Self)
        ensures
            request@ == key@,
    {
        Self { key }
    }

    /// The encrypted master password.
    pub fn key(&self) -> (bytes: Vec<u8>)
        ensures
            bytes@ == self@,
    {
        let bytes = copy_range(self.key.as_slice(), 0, self.key.len());
        assert(bytes@ =~= self.key@);
        bytes
    }
}

/// The server's verdict on a handshake.
#[derive(Debug, PartialEq, Clone, Copy)]
pub struct HandshakeValidatedRequest {
    status: [u8; 2],
}

impl View for HandshakeValidatedRequest {
    type V = Seq<u8>;

    closed spec fn view(&self) -> Seq<u8> {
        self.status@
    }
}

/// What a status means: `Some(true)` for "OK", `Some(false)` for "KO",
/// nothing for anything else.
pub open spec fn verdict_of(status: Seq<u8>) -> Option<bool> {
    if status == seq![0x4Fu8, 0x4Bu8] {
        Some(true)
    } else if status == seq![0x4Bu8, 0x4Fu8] {
        Some(false)
    } else {
        None
    }
}

impl HandshakeValidatedRequest {
    /// The verdict with the given status.
    pub fn new(status: [u8; 2]) -> (request: Self)
        ensures
            request@ == status@,
    {
        Self { status }
    }

    /// The status: "OK" or "KO".
    pub fn status(&self) -> (status: [u8; 2])
        ensures
            status@ == self@,
    {
        self.status
    }

    /// The status as a verdict, if it is one of the two.
    pub fn verdict(&self) -> (verdict: Option<bool>)
        ensures
            verdict == verdict_of(self@),
    {
        let first: u8 = self.status[0];
        let second: u8 = self.status[1];
        if first == 0x4F && second == 0x4B {
            assert(self@ =~= seq![0x4Fu8, 0x4Bu8]);
            Some(true)
        } else if first == 0x4B && second == 0x4F {
            assert(self@ =~= seq![0x4Bu8, 0x4Fu8]);
            Some(false)
        } else {
            assert(self@[0] == first && self@[1] == second);
            None
        }
    }
}

/// A frame: one of the seven records that the two sides exchange.
#[derive(Debug, PartialEq, Clone)]
pub enum PacketType {
    HELLOCLIENT(HelloClientRequest),
    HELLOSERVER(HelloServerRequest),
    SHARINGPUBKEY(SharingPubKeyRequest),
    SHARINGCRYPTEDPUBKEY(SharingCryptedPubKeyRequest),
    KEYSVALIDATED(KeysValidatedRequest),
    HANDSHAKEVALIDATED(HandshakeValidatedRequest),
    LEAVE,
}

impl View for PacketType {
    type V = Frame;

    open spec fn view(&self) -> Frame {
        match self {
            PacketType::HELLOCLIENT(request) => Frame::HelloClient { nonce: request@ },
            PacketType::HELLOSERVER(request) => Frame::HelloServer { nonce: request@ },
            PacketType::SHARINGPUBKEY(request) => Frame::SharingPubKey { key: request@ },
            PacketType::SHARINGCRYPTEDPUBKEY(request) => Frame::SharingCryptedPubKey {
                ciphertext: request@,
            },
            PacketType::KEYSVALIDATED(request) => Frame::KeysValidated { ciphertext: request@ },
            PacketType::HANDSHAKEVALIDATED(request) => Frame::HandshakeValidated {
                status: request@,
            },
            PacketType::LEAVE => Frame::Leave,
        }
    }
}

} // verus!
