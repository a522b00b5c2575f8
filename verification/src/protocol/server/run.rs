//! The server's side of a connection, without the transport: what to do
//! with each message, and what to do next.

use vstd::prelude::*;

use crate::keys_generator::keys::{KeyView, PrivateKey, PublicKey};
use crate::protocol::server::errors::{TunnelError, TunnelResult};
use crate::protocol::shared::constant::MAX_CONNECTION_ATTEMPTS;
use crate::protocol::shared::session::{open_message, opened_message, seal_message, sealed_message};
use crate::protocol::shared::types::{Frame, PacketType};
use crate::protocol::shared::wire::{
    decode_payload, encode_frame, json_array_bytes, payload_reads_back, wire_text,
};

verus! {

/// The text that carries a line of the user to the client.
pub fn send_input(line: &Vec<u8>, pub_key: &PublicKey) -> (text: TunnelResult<Vec<u8>>)
    ensures
        match text {
            Ok(sent) => pub_key@.n() != 0 && sent@ == sealed_message(line@, pub_key@),
            Err(error) => pub_key@.n() == 0 && error == TunnelError::InvalidData,
        },
{
    match seal_message(line, pub_key) {
        Some(sent) => Ok(sent),
        None => Err(TunnelError::InvalidData),
    }
}

/// What the server makes of what it read from the client: the message to
/// show, or why there is none. Nothing read means that the client is gone.
pub open spec fn read_message(packet: Seq<u8>, private: KeyView) -> Result<Seq<u8>, TunnelError> {
    if packet.len() == 0 {
        Err(TunnelError::ClientDisconnected)
    } else {
        match json_array_bytes(packet) {
            None => Err(TunnelError::InvalidData),
            Some(ciphertext) => if private.n() == 0 {
                Err(TunnelError::KeyGenFailed)
            } else {
                Ok(opened_message(ciphertext, private))
            },
        }
    }
}

/// Takes what was read from the client, and gives the message to show.
pub fn read_stream(packet: &[u8], private_key: &PrivateKey) -> (message: TunnelResult<Vec<u8>>)
    ensures
        match message {
            Ok(shown) => read_message(packet@, private_key@) == Ok::<Seq<u8>, TunnelError>(shown@),
            Err(error) => read_message(packet@, private_key@) == Err::<Seq<u8>, TunnelError>(error),
        },
        packet@.len() > 0 ==> payload_reads_back(packet@),
{
    if packet.len() == 0 {
        return Err(TunnelError::ClientDisconnected);
    }
    match decode_payload(packet) {
        Ok(ciphertext) => match open_message(&ciphertext, private_key) {
            Some(shown) => Ok(shown),
            None => Err(TunnelError::KeyGenFailed),
        },
        Err(_) => Err(TunnelError::InvalidData),
    }
}

/// The text of the frame with which the server leaves.
pub fn leave_packet() -> (text: Vec<u8>)
    ensures
        text@ == wire_text(Frame::Leave),
{
    encode_frame(&PacketType::LEAVE)
}

/// Where the server stands with one client.
#[derive(Debug, Clone, Copy, PartialEq, Eq)]
pub enum ServerStage {
    /// A handshake is running; so many have failed before it.
    Handshaking { failures: u8 },
    /// The server waits for a message of the client.
    Reading,
    /// The server waits for a line of its user, to send it.
    Writing,
    /// The connection is over.
    Closed,
}

/// What happened since the last task was handed out.
#[derive(Debug, Clone, Copy, PartialEq, Eq)]
pub enum ServerEvent {
    /// The handshake is done.
    HandshakeDone,
    /// The handshake failed.
    HandshakeFailed,
    /// A message was read and shown.
    MessageRead,
    /// No message could be read: the client is gone, or sent no message.
    ReadFailed,
    /// A line was sent.
    InputSent,
}

/// What the worker has to do next.
#[derive(Debug, Clone, Copy, PartialEq, Eq)]
pub enum ServerTask {
    /// Run a handshake.
    Handshake,
    /// Send the leave frame, then close.
    Leave,
    /// Read a message and show it.
    ReadMessage,
    /// Read a line of the user and send it.
    SendInput,
    /// Close.
    Close,
}

/// The stage in which a worker starts; its first task is a handshake.
pub open spec fn launch_start() -> ServerStage {
    ServerStage::Handshaking { failures: 0 }
}

/// The server's turn: after a handshake it reads first, then answers, and
/// so on until a read fails. A handshake that fails is run again, until
/// `MAX_CONNECTION_ATTEMPTS` have failed in a row; then the server leaves.
/// An event that the stage does not allow closes the connection.
pub open spec fn launch_next(stage: ServerStage, event: ServerEvent) -> (ServerStage, ServerTask) {
    match (stage, event) {
        (ServerStage::Handshaking { failures }, ServerEvent::HandshakeFailed) => if failures + 1
            >= MAX_CONNECTION_ATTEMPTS {
            (ServerStage::Closed, ServerTask::Leave)
        } else {
            (ServerStage::Handshaking { failures: (failures + 1) as u8 }, ServerTask::Handshake)
        },
        (ServerStage::Handshaking { .. }, ServerEvent::HandshakeDone) => (
            ServerStage::Reading,
            ServerTask::ReadMessage,
        ),
        (ServerStage::Reading, ServerEvent::MessageRead) => (
            ServerStage::Writing,
            ServerTask::SendInput,
        ),
        (ServerStage::Writing, ServerEvent::InputSent) => (
            ServerStage::Reading,
            ServerTask::ReadMessage,
        ),
        _ => (ServerStage::Closed, ServerTask::Close),
    }
}

/// The stage and the task after `count` handshakes have failed in a row,
/// from the start.
pub open spec fn after_failures(count: nat) -> (ServerStage, ServerTask)
    decreases count,
{
    if count == 0 {
        (launch_start(), ServerTask::Handshake)
    } else {
        launch_next(after_failures((count - 1) as nat).0, ServerEvent::HandshakeFailed)
    }
}

/// The retry limit: while fewer than `MAX_CONNECTION_ATTEMPTS` handshakes
/// have failed in a row the server runs another, and with the failure that
/// reaches the limit it sends the leave frame and closes.
pub proof fn lemma_leave_after_failures(count: nat)
    requires
        count <= MAX_CONNECTION_ATTEMPTS,
    ensures
        count < MAX_CONNECTION_ATTEMPTS ==> after_failures(count) == (
            ServerStage::Handshaking { failures: count as u8 },
            ServerTask::Handshake,
        ),
        count == MAX_CONNECTION_ATTEMPTS ==> after_failures(count) == (
            ServerStage::Closed,
            ServerTask::Leave,
        ),
    decreases count,
{
    if count > 0 {
        lemma_leave_after_failures((count - 1) as nat);
    }
}

/// The stage in which a worker starts, and its first task.
pub fn launch_first() -> (first: (ServerStage, ServerTask))
    ensures
        first == (launch_start(), ServerTask::Handshake),
{
    (ServerStage::Handshaking { failures: 0 }, ServerTask::Handshake)
}

/// Decides what the worker does next.
pub fn launch(stage: ServerStage, event: ServerEvent) -> (next: (ServerStage, ServerTask))
    ensures
        next == launch_next(stage, event),
{
    match (stage, event) {
        (ServerStage::Handshaking { failures }, ServerEvent::HandshakeFailed) => {
            if failures >= MAX_CONNECTION_ATTEMPTS - 1 {
                (ServerStage::Closed, ServerTask::Leave)
            } else {
                (ServerStage::Handshaking { failures: failures + 1 }, ServerTask::Handshake)
            }
        },
        (ServerStage::Handshaking { .. }, ServerEvent::HandshakeDone) => (
            ServerStage::Reading,
            ServerTask::ReadMessage,
        ),
        (ServerStage::Reading, ServerEvent::MessageRead) => (
            ServerStage::Writing,
            ServerTask::SendInput,
        ),
        (ServerStage::Writing, ServerEvent::InputSent) => (
            ServerStage::Reading,
            ServerTask::ReadMessage,
        ),
        _ => (ServerStage::Closed, ServerTask::Close),
    }
}

} // verus!
