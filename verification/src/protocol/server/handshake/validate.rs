//! The server's handshake as a state machine.
//!
//! The machine never touches the transport. It is made with a key pair and
//! the server's random bytes; each text that arrives is given to `step`,
//! which says what to send back, and whether the handshake goes on, is done,
//! or has failed.

use vstd::prelude::*;

use super::receive::{
    expect_client_hello, expect_password, expect_public_key, read_client_hello,
    read_client_public_key, read_cyphered_password,
};
use super::send::{hello_packet, sealed_key, send_crypted_public_key};
use crate::cypher::{enigma, transform};
use crate::keys_generator::keys::{
    generate_keys, is_generated_pair, KeyView, PrivateKey, PublicKey,
};
use crate::protocol::server::errors::{TunnelError, TunnelResult};
use crate::protocol::shared::constant::{KO_BYTES, MASTER_KEY_SIZE, OK_BYTES};
use crate::protocol::shared::codec::encodable;
use crate::protocol::shared::nonce::{fresh_nonce, master_password, NONCE_BYTE_BOUND};
use crate::protocol::shared::types::{Frame, HandshakeValidatedRequest, PacketType};
use crate::protocol::shared::wire::{
    encode_frame, reads_back, wire_frame, wire_text, CodecError,
};

verus! {

/// The verdict "OK".
pub open spec fn ok_frame() -> Frame {
    Frame::HandshakeValidated { status: seq![0x4Fu8, 0x4Bu8] }
}

/// The verdict "KO".
pub open spec fn ko_frame() -> Frame {
    Frame::HandshakeValidated { status: seq![0x4Bu8, 0x4Fu8] }
}

/// What the server makes of the encrypted master password that it received:
/// nothing wrong, or why it refuses.
///
/// The size is checked first, and on the password once decrypted: one that is
/// not `MASTER_KEY_SIZE` bytes long is of the wrong size, whatever it holds.
pub open spec fn check_password(ciphertext: Seq<u8>, master: Seq<u8>, private: KeyView) -> Result<
    (),
    TunnelError,
> {
    if private.n() == 0 {
        Err(TunnelError::KeyGenFailed)
    } else {
        let plain = transform(ciphertext, private.e(), private.n());
        if plain.len() != MASTER_KEY_SIZE {
            Err(TunnelError::InvalidKeySize)
        } else if plain != master {
            Err(TunnelError::HandshakeWentWrong)
        } else {
            Ok(())
        }
    }
}

/// Holds the master password that the client sent against the real one:
/// the verdict to send, "OK" or "KO", and what was found.
pub fn validate_handshake(
    password_received: Vec<u8>,
    real_password: &[u8; 24],
    private_key: &PrivateKey,
) -> (verdict: (Vec<u8>, TunnelResult<()>))
    ensures
        verdict.1 == check_password(password_received@, real_password@, private_key@),
        verdict.0@ == wire_text(
            if verdict.1 is Ok {
                ok_frame()
            } else {
                ko_frame()
            },
        ),
        encodable(ok_frame()),
        encodable(ko_frame()),
{
    let finding = compare_passwords(&password_received, real_password, private_key);
    let status: [u8; 2] = match finding {
        Ok(_) => OK_BYTES,
        Err(_) => KO_BYTES,
    };
    assert(OK_BYTES@ =~= seq![0x4Fu8, 0x4Bu8]);
    assert(KO_BYTES@ =~= seq![0x4Bu8, 0x4Fu8]);
    let text = encode_frame(&PacketType::HANDSHAKEVALIDATED(HandshakeValidatedRequest::new(status)));
    (text, finding)
}

/// Decrypts the received password and holds it against the real one.
fn compare_passwords(password_received: &Vec<u8>, real_password: &[u8; 24], private_key: &PrivateKey) -> (finding:
    TunnelResult<()>)
    ensures
        finding == check_password(password_received@, real_password@, private_key@),
{
    let modulus = private_key.modulus();
    if modulus.is_zero() {
        return Err(TunnelError::KeyGenFailed);
    }
    let plain = enigma(password_received, &private_key.decryption_value(), &modulus);
    if plain.len() != MASTER_KEY_SIZE {
        return Err(TunnelError::InvalidKeySize);
    }
    let mut i: usize = 0;
    while i < MASTER_KEY_SIZE
        invariant
            i <= MASTER_KEY_SIZE,
            plain@.len() == MASTER_KEY_SIZE,
            private_key@.n() != 0,
            plain@ == transform(password_received@, private_key@.e(), private_key@.n()),
            forall|j: int| 0 <= j < i ==> plain@[j] == real_password@[j],
        decreases MASTER_KEY_SIZE - i,
    {
        if plain[i] != real_password[i] {
            assert(plain@[i as int] != real_password@[i as int]);
            return Err(TunnelError::HandshakeWentWrong);
        }
        i += 1;
    }
    assert(plain@ =~= real_password@);
    Ok(())
}

/// Where a server stands in its handshake.
#[derive(Debug, Clone, Copy, PartialEq, Eq)]
pub enum ServerPhase {
    /// The client's hello is awaited.
    AwaitHello,
    /// The server's hello is out; the client's public key is awaited.
    AwaitPubKey,
    /// The server's encrypted key is out; the encrypted master password is
    /// awaited.
    AwaitNonce,
    /// The verdict "OK" is out.
    Done,
    /// The handshake failed, for the reason given.
    Failed(TunnelError),
}

/// What a server's handshake holds.
pub ghost struct ServerView {
    pub phase: ServerPhase,
    pub public: KeyView,
    pub private: KeyView,
    pub server_hello: Seq<u8>,
    /// Twelve zeros until the client's hello has arrived.
    pub client_hello: Seq<u8>,
    pub client_key: Option<KeyView>,
}

/// What a step of the server asks for.
pub ghost enum ServerOutput {
    /// Send this frame, then wait for the next one.
    Send(Frame),
    /// Send the verdict "OK"; the handshake is done.
    Accept(Frame),
    /// Send the verdict "KO"; the handshake failed.
    Reject(Frame, TunnelError),
    /// The handshake failed; nothing is sent.
    Fail(TunnelError),
    /// The handshake was done before; nothing is sent.
    Done,
}

impl ServerView {
    /// The same handshake, failed.
    pub open spec fn failed(self, error: TunnelError) -> ServerView {
        ServerView { phase: ServerPhase::Failed(error), ..self }
    }

    /// The master password as the server has it: the client's hello, then
    /// its own.
    pub open spec fn master(self) -> Seq<u8> {
        self.client_hello + self.server_hello
    }

    /// Both hellos have their twelve bytes. Every handshake in memory is
    /// so.
    pub open spec fn wf(self) -> bool {
        self.client_hello.len() == 12 && self.server_hello.len() == 12
    }
}

/// The state in which a server starts.
pub open spec fn server_start(public: KeyView, private: KeyView, server_hello: Seq<u8>) -> ServerView {
    ServerView {
        phase: ServerPhase::AwaitHello,
        public,
        private,
        server_hello,
        client_hello: Seq::new(12, |i: int| 0u8),
        client_key: None,
    }
}

/// One step of the server: the state after `input` arrived, and what to do.
///
/// Once the server awaits the master password, whatever arrives is answered
/// with a verdict, and with one only.
pub open spec fn server_step(state: ServerView, input: Result<Frame, CodecError>) -> (
    ServerView,
    ServerOutput,
) {
    match state.phase {
        ServerPhase::AwaitHello => match expect_client_hello(input) {
            Ok(nonce) => (
                ServerView { phase: ServerPhase::AwaitPubKey, client_hello: nonce, ..state },
                ServerOutput::Send(Frame::HelloServer { nonce: state.server_hello }),
            ),
            Err(error) => (state.failed(error), ServerOutput::Fail(error)),
        },
        ServerPhase::AwaitPubKey => match expect_public_key(input) {
            Ok(key) => if key.n() == 0 {
                (state.failed(TunnelError::InvalidData), ServerOutput::Fail(TunnelError::InvalidData))
            } else {
                (
                    ServerView { phase: ServerPhase::AwaitNonce, client_key: Some(key), ..state },
                    ServerOutput::Send(
                        Frame::SharingCryptedPubKey { ciphertext: sealed_key(state.public, key) },
                    ),
                )
            },
            Err(error) => (state.failed(error), ServerOutput::Fail(error)),
        },
        ServerPhase::AwaitNonce => {
            let finding = match expect_password(input) {
                Ok(ciphertext) => check_password(ciphertext, state.master(), state.private),
                Err(error) => Err(error),
            };
            match finding {
                Ok(_) => (
                    ServerView { phase: ServerPhase::Done, ..state },
                    ServerOutput::Accept(ok_frame()),
                ),
                Err(error) => (state.failed(error), ServerOutput::Reject(ko_frame(), error)),
            }
        },
        ServerPhase::Done => (state, ServerOutput::Done),
        ServerPhase::Failed(error) => (state, ServerOutput::Fail(error)),
    }
}

/// The variant of frame that a server awaits in the given phase.
pub open spec fn server_awaits(phase: ServerPhase, frame: Frame) -> bool {
    match phase {
        ServerPhase::AwaitHello => frame is HelloClient,
        ServerPhase::AwaitPubKey => frame is SharingPubKey,
        ServerPhase::AwaitNonce => frame is KeysValidated,
        _ => false,
    }
}

/// A handshake that can still take a frame.
pub open spec fn server_active(phase: ServerPhase) -> bool {
    phase is AwaitHello || phase is AwaitPubKey || phase is AwaitNonce
}

/// The error with which a step ended, if it ended with one.
pub open spec fn server_error(output: ServerOutput) -> Option<TunnelError> {
    match output {
        ServerOutput::Reject(_, error) => Some(error),
        ServerOutput::Fail(error) => Some(error),
        _ => None,
    }
}

/// The step on `input` fails with `error`, and leaves the state failed with
/// it.
pub open spec fn refuses(
    state: ServerView,
    input: Result<Frame, CodecError>,
    error: TunnelError,
) -> bool {
    &&& server_step(state, input).0 == state.failed(error)
    &&& server_error(server_step(state, input).1) == Some(error)
}

/// The error with which a server refuses a frame of another variant than
/// the one it awaits.
pub open spec fn server_refusal(phase: ServerPhase) -> TunnelError {
    if phase is AwaitNonce {
        TunnelError::UnexpectedFrame
    } else {
        TunnelError::InvalidData
    }
}

/// Divergence shows at once: a server that awaits a frame fails on a frame
/// of any other variant, and on bytes that are no frame. The error is
/// `InvalidData`, but for a frame of another variant in place of the
/// encrypted master password, which is an `UnexpectedFrame`.
pub proof fn lemma_server_refuses_other_frames(state: ServerView, input: Result<Frame, CodecError>)
    requires
        server_active(state.phase),
    ensures
        input matches Ok(frame) && !server_awaits(state.phase, frame) ==> refuses(
            state,
            input,
            server_refusal(state.phase),
        ),
        input is Err ==> refuses(state, input, TunnelError::InvalidData),
{
}

/// The verdict on a master password, for a server whose own key can be used:
/// "OK" exactly when the password decrypts to the server's own; "KO" with
/// `InvalidKeySize` when it decrypts to another length than
/// `MASTER_KEY_SIZE`, and "KO" with `HandshakeWentWrong` when the length is
/// right and the bytes are not. So a ciphertext made at random is answered
/// with "KO" unless it happens to decrypt to the master password.
pub proof fn lemma_verdict_on_password(state: ServerView, ciphertext: Seq<u8>)
    requires
        state.phase is AwaitNonce,
        state.private.n() != 0,
        state.master().len() == MASTER_KEY_SIZE,
    ensures
        ({
            let plain = transform(ciphertext, state.private.e(), state.private.n());
            let step = server_step(state, Ok(Frame::KeysValidated { ciphertext }));
            &&& plain == state.master() ==> step.1 == ServerOutput::Accept(ok_frame())
                && step.0.phase is Done
            &&& plain.len() != MASTER_KEY_SIZE ==> step.1 == ServerOutput::Reject(
                ko_frame(),
                TunnelError::InvalidKeySize,
            )
            &&& plain.len() == MASTER_KEY_SIZE && plain != state.master() ==> step.1
                == ServerOutput::Reject(ko_frame(), TunnelError::HandshakeWentWrong)
        }),
{
}

/// A server's handshake in progress.
pub struct ServerHandshake {
    phase: ServerPhase,
    public_key: PublicKey,
    private_key: PrivateKey,
    server_hello: [u8; 12],
    client_hello: [u8; 12],
    client_key: Option<PublicKey>,
}

/// What the caller of a step has to do.
#[derive(Debug, PartialEq)]
pub enum ServerAction {
    /// Send this text, then hand the next text that arrives to `step`.
    Send(Vec<u8>),
    /// Send this text, the verdict "OK"; the handshake is done.
    Accept(Vec<u8>),
    /// Send this text, the verdict "KO"; the handshake failed.
    Reject(Vec<u8>, TunnelError),
    /// The handshake failed; there is nothing to send.
    Fail(TunnelError),
    /// The handshake was done before; there is nothing to send.
    Done,
}

/// The action carries out the output: the same kind, and a text that is the
/// frame as it travels, which the other side can read back.
pub open spec fn carries_out(action: ServerAction, output: ServerOutput) -> bool {
    match output {
        ServerOutput::Send(frame) => action matches ServerAction::Send(text) && text@ == wire_text(
            frame,
        ) && encodable(frame),
        ServerOutput::Accept(frame) => action matches ServerAction::Accept(text) && text@
            == wire_text(frame) && encodable(frame),
        ServerOutput::Reject(frame, error) => action matches ServerAction::Reject(text, reason)
            && text@ == wire_text(frame) && encodable(frame) && reason == error,
        ServerOutput::Fail(error) => action == ServerAction::Fail(error),
        ServerOutput::Done => action is Done,
    }
}

impl View for ServerHandshake {
    type V = ServerView;

    closed spec fn view(&self) -> ServerView {
        ServerView {
            phase: self.phase,
            public: self.public_key@,
            private: self.private_key@,
            server_hello: self.server_hello@,
            client_hello: self.client_hello@,
            client_key: match self.client_key {
                Some(key) => Some(key@),
                None => None,
            },
        }
    }
}

impl ServerHandshake {
    /// A handshake with the given key pair and random bytes, before anything
    /// has arrived.
    pub fn new(keys: (PublicKey, PrivateKey), server_hello: [u8; 12]) -> (state: ServerHandshake)
        ensures
            state@ == server_start(keys.0@, keys.1@, server_hello@),
            state@.wf(),
    {
        let client_hello: [u8; 12] = [0u8; 12];
        assert(client_hello@ =~= Seq::new(12, |i: int| 0u8));
        ServerHandshake {
            phase: ServerPhase::AwaitHello,
            public_key: keys.0,
            private_key: keys.1,
            server_hello,
            client_hello,
            client_key: None,
        }
    }

    /// Where the handshake stands.
    pub fn phase(&self) -> (phase: ServerPhase)
        ensures
            phase == self@.phase,
    {
        self.phase
    }

    /// Every handshake in memory is well formed.
    pub proof fn lemma_wf(&self)
        ensures
            self@.wf(),
    {
    }

    fn with_phase(self, phase: ServerPhase) -> (next: ServerHandshake)
        ensures
            next@ == (ServerView { phase, ..self@ }),
            next@.wf(),
    {
        ServerHandshake {
            phase,
            public_key: self.public_key,
            private_key: self.private_key,
            server_hello: self.server_hello,
            client_hello: self.client_hello,
            client_key: self.client_key,
        }
    }

    fn fail(self, error: TunnelError) -> (next: (ServerHandshake, ServerAction))
        ensures
            next.0@ == self@.failed(error),
            next.0@.wf(),
            next.1 == ServerAction::Fail(error),
    {
        (self.with_phase(ServerPhase::Failed(error)), ServerAction::Fail(error))
    }

    /// Takes the text of one frame from the client: the state after it, and
    /// what to do next. A handshake that is done or has failed stays as it
    /// is.
    pub fn step(self, packet: &[u8]) -> (next: (ServerHandshake, ServerAction))
        ensures
            next.0@ == server_step(self@, wire_frame(packet@)).0,
            carries_out(next.1, server_step(self@, wire_frame(packet@)).1),
            next.0@.wf(),
            server_active(self@.phase) ==> reads_back(packet@),
    {
        proof {
            self.lemma_wf();
        }
        match self.phase {
            ServerPhase::AwaitHello => match read_client_hello(packet) {
                Ok(nonce) => {
                    let text = hello_packet(self.server_hello);
                    (
                        ServerHandshake {
                            phase: ServerPhase::AwaitPubKey,
                            public_key: self.public_key,
                            private_key: self.private_key,
                            server_hello: self.server_hello,
                            client_hello: nonce,
                            client_key: self.client_key,
                        },
                        ServerAction::Send(text),
                    )
                },
                Err(error) => self.fail(error),
            },
            ServerPhase::AwaitPubKey => match read_client_public_key(packet) {
                Ok(key) => match send_crypted_public_key(&self.public_key, &key) {
                    Ok(text) => (
                        ServerHandshake {
                            phase: ServerPhase::AwaitNonce,
                            public_key: self.public_key,
                            private_key: self.private_key,
                            server_hello: self.server_hello,
                            client_hello: self.client_hello,
                            client_key: Some(key),
                        },
                        ServerAction::Send(text),
                    ),
                    Err(error) => self.fail(error),
                },
                Err(error) => self.fail(error),
            },
            ServerPhase::AwaitNonce => {
                let master = master_password(&self.client_hello, &self.server_hello);
                let (text, finding) = match read_cyphered_password(packet) {
                    Ok(ciphertext) => validate_handshake(ciphertext, &master, &self.private_key),
                    Err(error) => (ko_packet(), Err(error)),
                };
                match finding {
                    Ok(_) => (self.with_phase(ServerPhase::Done), ServerAction::Accept(text)),
                    Err(error) => (
                        self.with_phase(ServerPhase::Failed(error)),
                        ServerAction::Reject(text, error),
                    ),
                }
            },
            ServerPhase::Done => (self, ServerAction::Done),
            ServerPhase::Failed(error) => (self, ServerAction::Fail(error)),
        }
    }

    /// The keys of the session, once the handshake is done: the server's own
    /// pair, and the client's public key.
    pub fn session_keys(self) -> (keys: Option<((PublicKey, PrivateKey), PublicKey)>)
        ensures
            keys is Some <==> self@.phase is Done && self@.client_key is Some,
            keys matches Some(((public, private), client)) ==> {
                &&& public@ == self@.public
                &&& private@ == self@.private
                &&& Some(client@) == self@.client_key
            },
    {
        match (self.phase, self.client_key) {
            (ServerPhase::Done, Some(client)) => Some(((self.public_key, self.private_key), client)),
            _ => None,
        }
    }
}

/// The text of the verdict "KO".
pub fn ko_packet() -> (text: Vec<u8>)
    ensures
        text@ == wire_text(ko_frame()),
        encodable(ko_frame()),
{
    assert(KO_BYTES@ =~= seq![0x4Bu8, 0x4Fu8]);
    encode_frame(&PacketType::HANDSHAKEVALIDATED(HandshakeValidatedRequest::new(KO_BYTES)))
}

/// Makes a handshake with a fresh key pair and fresh random bytes.
///
/// Whatever was drawn, the state is the start of a handshake with a key
/// pair as the generator makes them, so with a modulus that is not zero, and
/// with twelve random bytes below `NONCE_BYTE_BOUND`.
pub fn handshake() -> (started: TunnelResult<ServerHandshake>)
    ensures
        match started {
            Ok(state) => {
                &&& state@ == server_start(state@.public, state@.private, state@.server_hello)
                &&& state@.wf()
                &&& forall|i: int| 0 <= i < 12 ==> state@.server_hello[i] < NONCE_BYTE_BOUND
                &&& is_generated_pair(state@.public, state@.private)
                &&& state@.private.n() == state@.public.n()
                &&& state@.public.n() != 0
            },
            Err(error) => error == TunnelError::KeyGenFailed,
        },
{
    match generate_keys() {
        Ok(keys) => Ok(ServerHandshake::new(keys, fresh_nonce())),
        Err(_) => Err(TunnelError::KeyGenFailed),
    }
}

} // verus!
