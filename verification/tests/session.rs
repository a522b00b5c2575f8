use rsa_tunnel::keys_generator::keys::{keys_from_base, PrimeBase, PrivateKey, PublicKey};
use rsa_tunnel::keys_generator::maths::natural::BigNat;
use rsa_tunnel::protocol::client::errors::TunnelError as ClientError;
use rsa_tunnel::protocol::client::run::{
    init_communication, next_task, wants_retry, ClientEvent, ClientStage, ClientTask,
};
use rsa_tunnel::protocol::server::errors::TunnelError as ServerError;
use rsa_tunnel::protocol::server::run::{
    launch, launch_first, leave_packet, ServerEvent, ServerStage, ServerTask,
};
use rsa_tunnel::protocol::shared::session::{open_message, seal_message};

const SERVER_P: [u8; 13] = [148, 186, 111, 135, 92, 46, 132, 73, 110, 120, 87, 221, 247];
const SERVER_Q: [u8; 13] = [185, 227, 37, 250, 166, 51, 64, 107, 196, 77, 194, 166, 67];

fn server_keys() -> (PublicKey, PrivateKey) {
    let base =
        PrimeBase::new(BigNat::from_bytes_be(&SERVER_P), BigNat::from_bytes_be(&SERVER_Q));
    keys_from_base(&base).unwrap()
}

fn json(bytes: &[u8]) -> Vec<u8> {
    let items: Vec<String> = bytes.iter().map(|b| b.to_string()).collect();
    format!("[{}]", items.join(",")).into_bytes()
}

const SEALED_HI_THERE: [u8; 26] = [
    30, 38, 98, 104, 55, 247, 255, 17, 130, 33, 109, 253, 160, 29, 244, 99, 224, 213, 80, 129,
    247, 32, 222, 216, 128, 72,
];

#[test]
fn a_line_is_sealed_under_the_public_key() {
    let (public, _) = server_keys();
    let text = seal_message(&b"hi there\n".to_vec(), &public).unwrap();
    assert_eq!(text, json(&SEALED_HI_THERE));
    assert_eq!(
        rsa_tunnel::protocol::client::run::send_input(&b"hi there\n".to_vec(), &public),
        Ok(json(&SEALED_HI_THERE))
    );
    assert_eq!(
        rsa_tunnel::protocol::server::run::send_input(&b"hi there\n".to_vec(), &public),
        Ok(json(&SEALED_HI_THERE))
    );
}

#[test]
fn a_message_is_opened_and_loses_its_line_feed() {
    let (_, private) = server_keys();
    assert_eq!(open_message(&SEALED_HI_THERE.to_vec(), &private), Some(b"hi there".to_vec()));
    assert_eq!(
        rsa_tunnel::protocol::server::run::read_stream(&json(&SEALED_HI_THERE), &private),
        Ok(b"hi there".to_vec())
    );
    assert_eq!(
        rsa_tunnel::protocol::client::run::read_stream(&json(&SEALED_HI_THERE), &private),
        Ok(b"hi there".to_vec())
    );
}

#[test]
fn only_one_line_feed_is_stripped_and_only_at_the_end() {
    let public = PublicKey::new(&BigNat::from_u64(1), &BigNat::from_u64(1 << 40));
    let private = PrivateKey::new(&BigNat::from_u64(1), &BigNat::from_u64(1 << 40));
    for (line, shown) in [
        (&b"ab\n"[..], &b"ab"[..]),
        (&b"ab"[..], &b"ab"[..]),
        (&b"a\n\n"[..], &b"a\n"[..]),
        (&b"\na"[..], &b"\na"[..]),
        (&b"\n"[..], &b""[..]),
    ] {
        let text = seal_message(&line.to_vec(), &public).unwrap();
        assert_eq!(text, json(line));
        assert_eq!(
            rsa_tunnel::protocol::client::run::read_stream(&text, &private),
            Ok(shown.to_vec())
        );
    }
}

#[test]
fn a_zero_modulus_seals_and_opens_nothing() {
    let public = PublicKey::new(&BigNat::from_u64(5), &BigNat::from_u64(0));
    let private = PrivateKey::new(&BigNat::from_u64(5), &BigNat::from_u64(0));
    assert_eq!(seal_message(&b"x".to_vec(), &public), None);
    assert_eq!(open_message(&b"x".to_vec(), &private), None);
    assert_eq!(
        rsa_tunnel::protocol::client::run::send_input(&b"x".to_vec(), &public),
        Err(ClientError::InvalidData)
    );
    assert_eq!(
        rsa_tunnel::protocol::server::run::send_input(&b"x".to_vec(), &public),
        Err(ServerError::InvalidData)
    );
    assert_eq!(
        rsa_tunnel::protocol::client::run::read_stream(b"[1]", &private),
        Err(ClientError::KeyGenFailed)
    );
    assert_eq!(
        rsa_tunnel::protocol::server::run::read_stream(b"[1]", &private),
        Err(ServerError::KeyGenFailed)
    );
}

#[test]
fn a_read_of_nothing_is_a_disconnect() {
    let (_, private) = server_keys();
    assert_eq!(
        rsa_tunnel::protocol::server::run::read_stream(b"", &private),
        Err(ServerError::ClientDisconnected)
    );
    assert_eq!(
        rsa_tunnel::protocol::client::run::read_stream(b"", &private),
        Err(ClientError::ServerDisconnected)
    );
}

#[test]
fn a_read_of_garbage_is_invalid_data() {
    let (_, private) = server_keys();
    assert_eq!(
        rsa_tunnel::protocol::server::run::read_stream(b"hello", &private),
        Err(ServerError::InvalidData)
    );
    assert_eq!(
        rsa_tunnel::protocol::client::run::read_stream(b"[1,2", &private),
        Err(ClientError::InvalidData)
    );
}

#[test]
fn server_leaves_after_three_failed_handshakes() {
    let (stage, task) = launch_first();
    assert_eq!(stage, ServerStage::Handshaking { failures: 0 });
    assert_eq!(task, ServerTask::Handshake);
    let (stage, task) = launch(stage, ServerEvent::HandshakeFailed);
    assert_eq!((stage, task), (ServerStage::Handshaking { failures: 1 }, ServerTask::Handshake));
    let (stage, task) = launch(stage, ServerEvent::HandshakeFailed);
    assert_eq!((stage, task), (ServerStage::Handshaking { failures: 2 }, ServerTask::Handshake));
    let (stage, task) = launch(stage, ServerEvent::HandshakeFailed);
    assert_eq!((stage, task), (ServerStage::Closed, ServerTask::Leave));
    assert_eq!(leave_packet(), b"[7]".to_vec());
    assert_eq!(launch(stage, ServerEvent::HandshakeFailed), (ServerStage::Closed, ServerTask::Close));
}

#[test]
fn server_reads_then_sends() {
    let (stage, _) = launch_first();
    let (stage, task) = launch(stage, ServerEvent::HandshakeDone);
    assert_eq!((stage, task), (ServerStage::Reading, ServerTask::ReadMessage));
    let (stage, task) = launch(stage, ServerEvent::MessageRead);
    assert_eq!((stage, task), (ServerStage::Writing, ServerTask::SendInput));
    let (stage, task) = launch(stage, ServerEvent::InputSent);
    assert_eq!((stage, task), (ServerStage::Reading, ServerTask::ReadMessage));
    let (stage, task) = launch(stage, ServerEvent::ReadFailed);
    assert_eq!((stage, task), (ServerStage::Closed, ServerTask::Close));
}

#[test]
fn server_handshake_succeeds_after_failures() {
    let (stage, _) = launch_first();
    let (stage, _) = launch(stage, ServerEvent::HandshakeFailed);
    let (stage, _) = launch(stage, ServerEvent::HandshakeFailed);
    assert_eq!(
        launch(stage, ServerEvent::HandshakeDone),
        (ServerStage::Reading, ServerTask::ReadMessage)
    );
    assert_eq!(
        launch(ServerStage::Handshaking { failures: 200 }, ServerEvent::HandshakeFailed),
        (ServerStage::Closed, ServerTask::Leave)
    );
}

#[test]
fn server_closes_on_an_event_out_of_turn() {
    for (stage, event) in [
        (ServerStage::Reading, ServerEvent::InputSent),
        (ServerStage::Reading, ServerEvent::HandshakeDone),
        (ServerStage::Writing, ServerEvent::MessageRead),
        (ServerStage::Writing, ServerEvent::ReadFailed),
        (ServerStage::Handshaking { failures: 0 }, ServerEvent::MessageRead),
        (ServerStage::Closed, ServerEvent::HandshakeDone),
    ] {
        assert_eq!(launch(stage, event), (ServerStage::Closed, ServerTask::Close));
    }
}

#[test]
fn client_sends_then_reads() {
    let (stage, task) = init_communication();
    assert_eq!((stage, task), (ClientStage::Handshaking { retried: false }, ClientTask::Handshake));
    let (stage, task) = next_task(stage, ClientEvent::HandshakeDone);
    assert_eq!((stage, task), (ClientStage::Writing, ClientTask::SendInput));
    let (stage, task) = next_task(stage, ClientEvent::InputSent);
    assert_eq!((stage, task), (ClientStage::Reading, ClientTask::ReadMessage));
    let (stage, task) = next_task(stage, ClientEvent::MessageRead);
    assert_eq!((stage, task), (ClientStage::Writing, ClientTask::SendInput));
    let (stage, _) = next_task(stage, ClientEvent::InputSent);
    let (stage, task) = next_task(stage, ClientEvent::ReadFailed);
    assert_eq!((stage, task), (ClientStage::Closed, ClientTask::Close));
}

#[test]
fn client_asks_once_whether_to_retry() {
    let (stage, _) = init_communication();
    let (stage, task) = next_task(stage, ClientEvent::HandshakeFailed);
    assert_eq!((stage, task), (ClientStage::Asking, ClientTask::AskRetry));
    assert_eq!(
        next_task(stage, ClientEvent::Answered { retry: false }),
        (ClientStage::Closed, ClientTask::Close)
    );
    let (stage, task) = next_task(stage, ClientEvent::Answered { retry: true });
    assert_eq!((stage, task), (ClientStage::Handshaking { retried: true }, ClientTask::Handshake));
    assert_eq!(
        next_task(stage, ClientEvent::HandshakeDone),
        (ClientStage::Writing, ClientTask::SendInput)
    );
    assert_eq!(
        next_task(stage, ClientEvent::HandshakeFailed),
        (ClientStage::Closed, ClientTask::Close)
    );
}

#[test]
fn client_closes_on_an_event_out_of_turn() {
    for (stage, event) in [
        (ClientStage::Writing, ClientEvent::MessageRead),
        (ClientStage::Reading, ClientEvent::InputSent),
        (ClientStage::Asking, ClientEvent::HandshakeDone),
        (ClientStage::Handshaking { retried: false }, ClientEvent::Answered { retry: true }),
        (ClientStage::Closed, ClientEvent::HandshakeDone),
    ] {
        assert_eq!(next_task(stage, event), (ClientStage::Closed, ClientTask::Close));
    }
}

#[test]
fn answers_to_the_retry_prompt() {
    assert!(wants_retry(b"Y"));
    assert!(wants_retry(b"y"));
    assert!(wants_retry(b"Y\n"));
    assert!(wants_retry(b"y\n"));
    assert!(!wants_retry(b""));
    assert!(!wants_retry(b"\n"));
    assert!(!wants_retry(b"n"));
    assert!(!wants_retry(b"n\n"));
    assert!(!wants_retry(b"yes"));
    assert!(!wants_retry(b"Y\n\n"));
    assert!(!wants_retry(b"Yy"));
    assert!(!wants_retry(b" y"));
    assert!(!wants_retry(b"\ny"));
}
