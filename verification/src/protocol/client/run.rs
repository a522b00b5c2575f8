//! The client's side of a connection, without the transport: what to do
//! with each message, and what to do next.

use vstd::prelude::*;

use crate::keys_generator::keys::{KeyView, PrivateKey, PublicKey};
use crate::protocol::client::errors::{TunnelError, TunnelResult};
use crate::protocol::shared::session::{
    open_message, opened_message, seal_message, sealed_message, strip_newline, NEWLINE,
};
use crate::protocol::shared::wire::{decode_payload, json_array_bytes, payload_reads_back};

verus! {

/// ASCII `Y`.
pub const UPPER_Y: u8 = 89;

/// ASCII `y`.
pub const LOWER_Y: u8 = 121;

/// The text that carries a line of the user to the server.
pub fn send_input(line: &Vec<u8>, pub_key: &PublicKey) -> (text: TunnelResult<Vec<u8>>)
    ensures
        match text {
            Ok(sent) => pub_key@.n() != 0 && sent@ == sealed_message(line@, pub_key@),
            Err(error) => pub_key@.n() == 0 && error == TunnelError::InvalidData,
        },
{
    match seal_message(line, pub_key) {
        Some(sent) => Ok(sent),
        None => Err(TunnelError::InvalidData),
    }
}

/// What the client makes of what it read from the server: the message to
/// show, or why there is none. Nothing read means that the server is gone.
pub open spec fn read_message(packet: Seq<u8>, private: KeyView) -> Result<Seq<u8>, TunnelError> {
    if packet.len() == 0 {
        Err(TunnelError::ServerDisconnected)
    } else {
        match json_array_bytes(packet) {
            None => Err(TunnelError::InvalidData),
            Some(ciphertext) => if private.n() == 0 {
                Err(TunnelError::KeyGenFailed)
            } else {
                Ok(opened_message(ciphertext, private))
            },
        }
    }
}

/// Takes what was read from the server, and gives the message to show.
pub fn read_stream(packet: &[u8], private_key: &PrivateKey) -> (message: TunnelResult<Vec<u8>>)
    ensures
        match message {
            Ok(shown) => read_message(packet@, private_key@) == Ok::<Seq<u8>, TunnelError>(shown@),
            Err(error) => read_message(packet@, private_key@) == Err::<Seq<u8>, TunnelError>(error),
        },
        packet@.len() > 0 ==> payload_reads_back(packet@),
{
    if packet.len() == 0 {
        return Err(TunnelError::ServerDisconnected);
    }
    match decode_payload(packet) {
        Ok(ciphertext) => match open_message(&ciphertext, private_key) {
            Some(shown) => Ok(shown),
            None => Err(TunnelError::KeyGenFailed),
        },
        Err(_) => Err(TunnelError::InvalidData),
    }
}

/// An answer that asks for another handshake: `Y` or `y`, with or without
/// the line feed behind it.
pub open spec fn is_yes(answer: Seq<u8>) -> bool {
    strip_newline(answer) == seq![UPPER_Y] || strip_newline(answer) == seq![LOWER_Y]
}

/// Whether the user's answer asks for another handshake.
pub fn wants_retry(answer: &[u8]) -> (yes: bool)
    ensures
        yes == is_yes(answer@),
{
    let len: usize = answer.len();
    let ghost stripped = strip_newline(answer@);
    if len == 1 || (len == 2 && answer[1] == NEWLINE) {
        if len == 1 && answer[0] == NEWLINE {
            assert(stripped.len() == 0);
            return false;
        }
        assert(stripped.len() == 1 && stripped[0] == answer@[0]);
        let yes = answer[0] == UPPER_Y || answer[0] == LOWER_Y;
        if yes {
            assert(stripped =~= seq![answer@[0]]);
        }
        yes
    } else {
        assert(stripped.len() != 1);
        false
    }
}

/// Where the client stands with its server.
#[derive(Debug, Clone, Copy, PartialEq, Eq)]
pub enum ClientStage {
    /// A handshake is running, the first or, after a retry, the second.
    Handshaking { retried: bool },
    /// The user is asked whether to try again.
    Asking,
    /// The client waits for a line of its user, to send it.
    Writing,
    /// The client waits for a message of the server.
    Reading,
    /// The connection is over.
    Closed,
}

/// What happened since the last task was handed out.
#[derive(Debug, Clone, Copy, PartialEq, Eq)]
pub enum ClientEvent {
    /// The handshake is done.
    HandshakeDone,
    /// The handshake failed.
    HandshakeFailed,
    /// The user answered the prompt; whether the answer was a yes.
    Answered { retry: bool },
    /// A line was sent.
    InputSent,
    /// A message was read and shown.
    MessageRead,
    /// No message could be read: the server is gone, or sent no message.
    ReadFailed,
}

/// What the client has to do next.
#[derive(Debug, Clone, Copy, PartialEq, Eq)]
pub enum ClientTask {
    /// Run a handshake.
    Handshake,
    /// Ask the user whether to try again.
    AskRetry,
    /// Read a line of the user and send it.
    SendInput,
    /// Read a message and show it.
    ReadMessage,
    /// Close.
    Close,
}

/// The stage in which a client starts; its first task is a handshake.
pub open spec fn communication_start() -> ClientStage {
    ClientStage::Handshaking { retried: false }
}

/// The client's turn: after a handshake it sends first, then reads, and so
/// on until a read fails. When the first handshake fails the user is asked
/// once whether to try again; the client closes on a no, and when the second
/// handshake fails too. An event that the stage does not allow closes the
/// connection.
pub open spec fn communication_next(stage: ClientStage, event: ClientEvent) -> (
    ClientStage,
    ClientTask,
) {
    match (stage, event) {
        (ClientStage::Handshaking { retried: false }, ClientEvent::HandshakeFailed) => (
            ClientStage::Asking,
            ClientTask::AskRetry,
        ),
        (ClientStage::Asking, ClientEvent::Answered { retry: true }) => (
            ClientStage::Handshaking { retried: true },
            ClientTask::Handshake,
        ),
        (ClientStage::Handshaking { .. }, ClientEvent::HandshakeDone) => (
            ClientStage::Writing,
            ClientTask::SendInput,
        ),
        (ClientStage::Writing, ClientEvent::InputSent) => (
            ClientStage::Reading,
            ClientTask::ReadMessage,
        ),
        (ClientStage::Reading, ClientEvent::MessageRead) => (
            ClientStage::Writing,
            ClientTask::SendInput,
        ),
        _ => (ClientStage::Closed, ClientTask::Close),
    }
}

/// The stage in which a client starts, and its first task.
pub fn init_communication() -> (first: (ClientStage, ClientTask))
    ensures
        first == (communication_start(), ClientTask::Handshake),
{
    (ClientStage::Handshaking { retried: false }, ClientTask::Handshake)
}

/// Decides what the client does next.
pub fn next_task(stage: ClientStage, event: ClientEvent) -> (next: (ClientStage, ClientTask))
    ensures
        next == communication_next(stage, event),
{
    match (stage, event) {
        (ClientStage::Handshaking { retried: false }, ClientEvent::HandshakeFailed) => (
            ClientStage::Asking,
            ClientTask::AskRetry,
        ),
        (ClientStage::Asking, ClientEvent::Answered { retry: true }) => (
            ClientStage::Handshaking { retried: true },
            ClientTask::Handshake,
        ),
        (ClientStage::Handshaking { .. }, ClientEvent::HandshakeDone) => (
            ClientStage::Writing,
            ClientTask::SendInput,
        ),
        (ClientStage::Writing, ClientEvent::InputSent) => (
            ClientStage::Reading,
            ClientTask::ReadMessage,
        ),
        (ClientStage::Reading, ClientEvent::MessageRead) => (
            ClientStage::Writing,
            ClientTask::SendInput,
        ),
        _ => (ClientStage::Closed, ClientTask::Close),
    }
}

} // verus!
