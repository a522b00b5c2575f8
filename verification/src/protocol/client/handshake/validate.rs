//! The client's handshake as a state machine.
//!
//! The machine never touches the transport. It is started with a key pair and
//! the client's random bytes, and hands out the hello to send; from then on
//! each text that arrives is given to `step`, which says what to send next,
//! or that the handshake is done, or why it failed.

use vstd::prelude::*;

use super::receive::{
    expect_crypted_pub_key, expect_server_hello, read_server_cyphered_pub_key, read_server_hello,
};
use super::send::{hello_packet, send_cyphered_master_password, send_hello, send_public_key};
use crate::cypher::{enigma, transform};
use crate::keys_generator::keys::{
    generate_keys, is_generated_pair, KeyView, PrivateKey, PublicKey,
};
use crate::protocol::client::errors::{TunnelError, TunnelResult};
use crate::protocol::shared::codec::{decode_record, encodable, parse_record};
use crate::protocol::shared::nonce::{master_password, NONCE_BYTE_BOUND};
use crate::protocol::shared::types::{verdict_of, Frame, PacketType};
use crate::protocol::shared::wire::{
    decode_frame, reads_back, wire_frame, wire_text, CodecError,
};

verus! {

/// The server's verdict, if the input is one.
pub open spec fn expect_verdict(input: Result<Frame, CodecError>) -> Result<bool, TunnelError> {
    match input {
        Ok(Frame::HandshakeValidated { status }) => match verdict_of(status) {
            Some(accepted) => Ok(accepted),
            None => Err(TunnelError::UnexpectedValue),
        },
        Ok(_) => Err(TunnelError::UnexpectedFrame),
        Err(_) => Err(TunnelError::InvalidData),
    }
}

/// Reads the server's verdict from a text off the wire: `true` for "OK",
/// `false` for "KO".
pub fn handshake_succeed(packet: &[u8]) -> (verdict: TunnelResult<bool>)
    ensures
        verdict == expect_verdict(wire_frame(packet@)),
        reads_back(packet@),
{
    match decode_frame(packet) {
        Ok(PacketType::HANDSHAKEVALIDATED(request)) => match request.verdict() {
            Some(accepted) => Ok(accepted),
            None => Err(TunnelError::UnexpectedValue),
        },
        Ok(_) => Err(TunnelError::UnexpectedFrame),
        Err(_) => Err(TunnelError::InvalidData),
    }
}

/// Where a client stands in its handshake.
#[derive(Debug, Clone, Copy, PartialEq, Eq)]
pub enum ClientPhase {
    /// The hello is out; the server's hello is awaited.
    SentHello,
    /// The public key is out; the server's encrypted key is awaited.
    SentPubKey,
    /// The encrypted master password is out; the verdict is awaited.
    SentNonce,
    /// The server said "OK".
    Done,
    /// The handshake failed, for the reason given.
    Failed(TunnelError),
}

/// What a client's handshake holds.
pub ghost struct ClientView {
    pub phase: ClientPhase,
    pub public: KeyView,
    pub private: KeyView,
    pub client_hello: Seq<u8>,
    /// Twelve zeros until the server's hello has arrived.
    pub server_hello: Seq<u8>,
    pub server_key: Option<KeyView>,
}

/// What a step of the client asks for.
pub ghost enum ClientOutput {
    /// Send this frame, then wait for the next one.
    Send(Frame),
    /// The handshake is done.
    Done,
    /// The handshake failed.
    Fail(TunnelError),
}

impl ClientView {
    /// The same handshake, failed.
    pub open spec fn failed(self, error: TunnelError) -> ClientView {
        ClientView { phase: ClientPhase::Failed(error), ..self }
    }

    /// The master password as the client has it: its own hello, then the
    /// server's.
    pub open spec fn master(self) -> Seq<u8> {
        self.client_hello + self.server_hello
    }

    /// Both hellos have their twelve bytes. Every handshake in memory is
    /// so.
    pub open spec fn wf(self) -> bool {
        self.client_hello.len() == 12 && self.server_hello.len() == 12
    }
}

/// The state in which a client starts, and its hello.
pub open spec fn client_start(public: KeyView, private: KeyView, client_hello: Seq<u8>) -> (
    ClientView,
    Frame,
) {
    (
        ClientView {
            phase: ClientPhase::SentHello,
            public,
            private,
            client_hello,
            server_hello: Seq::new(12, |i: int| 0u8),
            server_key: None,
        },
        Frame::HelloClient { nonce: client_hello },
    )
}

/// One step of the client: the state after `input` arrived, and what to do.
pub open spec fn client_step(state: ClientView, input: Result<Frame, CodecError>) -> (
    ClientView,
    ClientOutput,
) {
    match state.phase {
        ClientPhase::SentHello => match expect_server_hello(input) {
            Ok(nonce) => (
                ClientView { phase: ClientPhase::SentPubKey, server_hello: nonce, ..state },
                ClientOutput::Send(Frame::SharingPubKey { key: state.public }),
            ),
            Err(error) => (state.failed(error), ClientOutput::Fail(error)),
        },
        ClientPhase::SentPubKey => match expect_crypted_pub_key(input) {
            Ok(ciphertext) => if state.private.n() == 0 {
                (state.failed(TunnelError::KeyGenFailed), ClientOutput::Fail(TunnelError::KeyGenFailed))
            } else {
                match parse_record(transform(ciphertext, state.private.e(), state.private.n())) {
                    Some(Frame::SharingPubKey { key }) => if key.n() == 0 {
                        (
                            state.failed(TunnelError::InvalidData),
                            ClientOutput::Fail(TunnelError::InvalidData),
                        )
                    } else {
                        (
                            ClientView {
                                phase: ClientPhase::SentNonce,
                                server_key: Some(key),
                                ..state
                            },
                            ClientOutput::Send(
                                Frame::KeysValidated {
                                    ciphertext: transform(state.master(), key.e(), key.n()),
                                },
                            ),
                        )
                    },
                    _ => (
                        state.failed(TunnelError::InvalidData),
                        ClientOutput::Fail(TunnelError::InvalidData),
                    ),
                }
            },
            Err(error) => (state.failed(error), ClientOutput::Fail(error)),
        },
        ClientPhase::SentNonce => match expect_verdict(input) {
            Ok(true) => (ClientView { phase: ClientPhase::Done, ..state }, ClientOutput::Done),
            Ok(false) => (
                state.failed(TunnelError::HandshakeWentWrong),
                ClientOutput::Fail(TunnelError::HandshakeWentWrong),
            ),
            Err(error) => (state.failed(error), ClientOutput::Fail(error)),
        },
        ClientPhase::Done => (state, ClientOutput::Done),
        ClientPhase::Failed(error) => (state, ClientOutput::Fail(error)),
    }
}

/// The variant of frame that a client awaits in the given phase.
pub open spec fn client_awaits(phase: ClientPhase, frame: Frame) -> bool {
    match phase {
        ClientPhase::SentHello => frame is HelloServer,
        ClientPhase::SentPubKey => frame is SharingCryptedPubKey,
        ClientPhase::SentNonce => frame is HandshakeValidated,
        _ => false,
    }
}

/// A handshake that can still take a frame.
pub open spec fn client_active(phase: ClientPhase) -> bool {
    phase is SentHello || phase is SentPubKey || phase is SentNonce
}

/// The error with which a client refuses a frame of another variant than
/// the one it awaits.
pub open spec fn client_refusal(phase: ClientPhase) -> TunnelError {
    if phase is SentNonce {
        TunnelError::UnexpectedFrame
    } else {
        TunnelError::InvalidData
    }
}

/// Divergence shows at once: a client that awaits a frame fails on a frame
/// of any other variant, and on bytes that are no frame, and sends nothing.
/// The error is `InvalidData`, but for a frame of another variant in place
/// of the verdict, which is an `UnexpectedFrame`.
pub proof fn lemma_client_refuses_other_frames(state: ClientView, input: Result<Frame, CodecError>)
    requires
        client_active(state.phase),
    ensures
        input matches Ok(frame) && !client_awaits(state.phase, frame) ==> client_step(state, input)
            == (state.failed(client_refusal(state.phase)), ClientOutput::Fail(
            client_refusal(state.phase),
        )),
        input is Err ==> client_step(state, input) == (
            state.failed(TunnelError::InvalidData),
            ClientOutput::Fail(TunnelError::InvalidData),
        ),
{
}

/// A client's handshake in progress.
pub struct ClientHandshake {
    phase: ClientPhase,
    public_key: PublicKey,
    private_key: PrivateKey,
    client_hello: [u8; 12],
    server_hello: [u8; 12],
    server_key: Option<PublicKey>,
}

/// What the caller of a step has to do.
#[derive(Debug, PartialEq)]
pub enum ClientAction {
    /// Send this text, then hand the next text that arrives to `step`.
    Send(Vec<u8>),
    /// The handshake is done; take the keys.
    Done,
    /// The handshake failed.
    Fail(TunnelError),
}

/// The action carries out the output: the same kind, and a text that is the
/// frame as it travels, which the other side can read back.
pub open spec fn carries_out(action: ClientAction, output: ClientOutput) -> bool {
    match output {
        ClientOutput::Send(frame) => action matches ClientAction::Send(text) && text@ == wire_text(
            frame,
        ) && encodable(frame),
        ClientOutput::Done => action is Done,
        ClientOutput::Fail(error) => action == ClientAction::Fail(error),
    }
}

impl View for ClientHandshake {
    type V = ClientView;

    closed spec fn view(&self) -> ClientView {
        ClientView {
            phase: self.phase,
            public: self.public_key@,
            private: self.private_key@,
            client_hello: self.client_hello@,
            server_hello: self.server_hello@,
            server_key: match self.server_key {
                Some(key) => Some(key@),
                None => None,
            },
        }
    }
}

impl ClientHandshake {
    /// Starts a handshake with the given key pair and random bytes: the
    /// state, and the hello to send.
    pub fn start(keys: (PublicKey, PrivateKey), client_hello: [u8; 12]) -> (started: (
        ClientHandshake,
        Vec<u8>,
    ))
        ensures
            started.0@ == client_start(keys.0@, keys.1@, client_hello@).0,
            started.0@.wf(),
            started.1@ == wire_text(client_start(keys.0@, keys.1@, client_hello@).1),
            encodable(client_start(keys.0@, keys.1@, client_hello@).1),
    {
        let text = hello_packet(client_hello);
        let server_hello: [u8; 12] = [0u8; 12];
        assert(server_hello@ =~= Seq::new(12, |i: int| 0u8));
        (
            ClientHandshake {
                phase: ClientPhase::SentHello,
                public_key: keys.0,
                private_key: keys.1,
                client_hello,
                server_hello,
                server_key: None,
            },
            text,
        )
    }

    /// Where the handshake stands.
    pub fn phase(&self) -> (phase: ClientPhase)
        ensures
            phase == self@.phase,
    {
        self.phase
    }

    /// Every handshake in memory is well formed.
    pub proof fn lemma_wf(&self)
        ensures
            self@.wf(),
    {
    }

    fn fail(self, error: TunnelError) -> (next: (ClientHandshake, ClientAction))
        ensures
            next.0@ == self@.failed(error),
            next.0@.wf(),
            next.1 == ClientAction::Fail(error),
    {
        (
            ClientHandshake {
                phase: ClientPhase::Failed(error),
                public_key: self.public_key,
                private_key: self.private_key,
                client_hello: self.client_hello,
                server_hello: self.server_hello,
                server_key: self.server_key,
            },
            ClientAction::Fail(error),
        )
    }

    /// Takes the text of one frame from the server: the state after it, and
    /// what to do next. A handshake that is done or has failed stays as it
    /// is.
    pub fn step(self, packet: &[u8]) -> (next: (ClientHandshake, ClientAction))
        ensures
            next.0@ == client_step(self@, wire_frame(packet@)).0,
            carries_out(next.1, client_step(self@, wire_frame(packet@)).1),
            next.0@.wf(),
            client_active(self@.phase) ==> reads_back(packet@),
    {
        proof {
            self.lemma_wf();
        }
        match self.phase {
            ClientPhase::SentHello => match read_server_hello(packet) {
                Ok(nonce) => {
                    let text = send_public_key(&self.public_key);
                    (
                        ClientHandshake {
                            phase: ClientPhase::SentPubKey,
                            public_key: self.public_key,
                            private_key: self.private_key,
                            client_hello: self.client_hello,
                            server_hello: nonce,
                            server_key: self.server_key,
                        },
                        ClientAction::Send(text),
                    )
                },
                Err(error) => self.fail(error),
            },
            ClientPhase::SentPubKey => match read_server_cyphered_pub_key(packet) {
                Ok(ciphertext) => {
                    let modulus = self.private_key.modulus();
                    if modulus.is_zero() {
                        return self.fail(TunnelError::KeyGenFailed);
                    }
                    let plain = enigma(&ciphertext, &self.private_key.decryption_value(), &modulus);
                    match decode_record(plain.as_slice()) {
                        Some(PacketType::SHARINGPUBKEY(request)) => {
                            let key = request.pub_key();
                            let master = master_password(&self.client_hello, &self.server_hello);
                            match send_cyphered_master_password(&key, &master) {
                                Ok(text) => (
                                    ClientHandshake {
                                        phase: ClientPhase::SentNonce,
                                        public_key: self.public_key,
                                        private_key: self.private_key,
                                        client_hello: self.client_hello,
                                        server_hello: self.server_hello,
                                        server_key: Some(key),
                                    },
                                    ClientAction::Send(text),
                                ),
                                Err(error) => self.fail(error),
                            }
                        },
                        _ => self.fail(TunnelError::InvalidData),
                    }
                },
                Err(error) => self.fail(error),
            },
            ClientPhase::SentNonce => match handshake_succeed(packet) {
                Ok(true) => (
                    ClientHandshake {
                        phase: ClientPhase::Done,
                        public_key: self.public_key,
                        private_key: self.private_key,
                        client_hello: self.client_hello,
                        server_hello: self.server_hello,
                        server_key: self.server_key,
                    },
                    ClientAction::Done,
                ),
                Ok(false) => self.fail(TunnelError::HandshakeWentWrong),
                Err(error) => self.fail(error),
            },
            ClientPhase::Done => (self, ClientAction::Done),
            ClientPhase::Failed(error) => (self, ClientAction::Fail(error)),
        }
    }

    /// The keys of the session, once the handshake is done: the client's own
    /// pair, and the server's public key.
    pub fn session_keys(self) -> (keys: Option<((PublicKey, PrivateKey), PublicKey)>)
        ensures
            keys is Some <==> self@.phase is Done && self@.server_key is Some,
            keys matches Some(((public, private), server)) ==> {
                &&& public@ == self@.public
                &&& private@ == self@.private
                &&& Some(server@) == self@.server_key
            },
    {
        match (self.phase, self.server_key) {
            (ClientPhase::Done, Some(server)) => Some(((self.public_key, self.private_key), server)),
            _ => None,
        }
    }
}

/// Starts a handshake with a fresh key pair and fresh random bytes: the
/// state, and the hello to send.
///
/// Whatever was drawn, the state is the start of a handshake with a key
/// pair as the generator makes them, so with a modulus that is not zero, and
/// with twelve random bytes below `NONCE_BYTE_BOUND`; the text is the hello
/// that carries those bytes.
pub fn handshake() -> (started: TunnelResult<(ClientHandshake, Vec<u8>)>)
    ensures
        match started {
            Ok((state, hello)) => {
                &&& state@ == client_start(state@.public, state@.private, state@.client_hello).0
                &&& state@.wf()
                &&& forall|i: int| 0 <= i < 12 ==> state@.client_hello[i] < NONCE_BYTE_BOUND
                &&& is_generated_pair(state@.public, state@.private)
                &&& state@.private.n() == state@.public.n()
                &&& state@.public.n() != 0
                &&& hello@ == wire_text(Frame::HelloClient { nonce: state@.client_hello })
                &&& encodable(Frame::HelloClient { nonce: state@.client_hello })
            },
            Err(error) => error == TunnelError::KeyGenFailed,
        },
{
    match generate_keys() {
        Ok(keys) => {
            let (client_hello, _) = send_hello();
            Ok(ClientHandshake::start(keys, client_hello))
        },
        Err(_) => Err(TunnelError::KeyGenFailed),
    }
}

} // verus!
