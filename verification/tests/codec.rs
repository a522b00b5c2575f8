use rsa_tunnel::keys_generator::keys::PublicKey;
use rsa_tunnel::protocol::shared::codec::{decode_record, encode_record, push_all};
use rsa_tunnel::protocol::shared::constant::{
    CLIENT_MASTER_KEY_SIZE, KO_BYTES, MASTER_KEY_SIZE, MAX_CONNECTION_ATTEMPTS, MAX_PACKET_SIZE,
    OK_BYTES, SERVER_MASTER_KEY_SIZE,
};
use rsa_tunnel::protocol::shared::types::{
    HandshakeValidatedRequest, HelloClientRequest, HelloServerRequest, KeysValidatedRequest,
    PacketType, SharingCryptedPubKeyRequest, SharingPubKeyRequest,
};
use rsa_tunnel::protocol::shared::wire::{
    decode_frame, decode_payload, encode_frame, encode_payload, frame_end, CodecError,
};

fn json(bytes: &[u8]) -> Vec<u8> {
    let items: Vec<String> = bytes.iter().map(|b| b.to_string()).collect();
    format!("[{}]", items.join(",")).into_bytes()
}

fn all_frames() -> Vec<PacketType> {
    vec![
        PacketType::HELLOCLIENT(HelloClientRequest::new([1, 2, 3, 4, 5, 6, 7, 8, 9, 10, 11, 12])),
        PacketType::HELLOSERVER(HelloServerRequest::new([0, 255, 3, 4, 5, 6, 7, 8, 9, 10, 11, 0])),
        PacketType::SHARINGPUBKEY(SharingPubKeyRequest::new(PublicKey::from_bytes(
            vec![17],
            vec![12, 161],
        ))),
        PacketType::SHARINGPUBKEY(SharingPubKeyRequest::new(PublicKey::from_bytes(
            vec![],
            vec![0, 0, 7],
        ))),
        PacketType::SHARINGCRYPTEDPUBKEY(SharingCryptedPubKeyRequest::new(vec![9, 8, 7])),
        PacketType::SHARINGCRYPTEDPUBKEY(SharingCryptedPubKeyRequest::new(vec![])),
        PacketType::KEYSVALIDATED(KeysValidatedRequest::new(vec![200; 300])),
        PacketType::HANDSHAKEVALIDATED(HandshakeValidatedRequest::new(OK_BYTES)),
        PacketType::HANDSHAKEVALIDATED(HandshakeValidatedRequest::new(KO_BYTES)),
        PacketType::HANDSHAKEVALIDATED(HandshakeValidatedRequest::new([1, 2])),
        PacketType::LEAVE,
    ]
}

#[test]
fn constants_of_the_protocol() {
    assert_eq!(CLIENT_MASTER_KEY_SIZE, 12);
    assert_eq!(SERVER_MASTER_KEY_SIZE, 12);
    assert_eq!(MASTER_KEY_SIZE, 24);
    assert_eq!(OK_BYTES, *b"OK");
    assert_eq!(KO_BYTES, *b"KO");
    assert_eq!(MAX_PACKET_SIZE, 1024);
    assert_eq!(MAX_CONNECTION_ATTEMPTS, 3);
}

#[test]
fn request_getters_return_what_was_stored() {
    let key = [1u8, 2, 3, 4, 5, 6, 7, 8, 9, 10, 11, 12];
    assert_eq!(HelloClientRequest::new(key).key(), key);
    assert_eq!(HelloServerRequest::new(key).key(), key);
    let public = PublicKey::from_bytes(vec![17], vec![12, 161]);
    assert_eq!(SharingPubKeyRequest::new(public.clone()).pub_key(), public);
    assert_eq!(SharingCryptedPubKeyRequest::new(vec![1, 2]).crypted_pub_key(), vec![1, 2]);
    assert_eq!(KeysValidatedRequest::new(vec![3, 4]).key(), vec![3, 4]);
    assert_eq!(HandshakeValidatedRequest::new(*b"OK").status(), *b"OK");
    assert_eq!(HandshakeValidatedRequest::new(*b"OK").verdict(), Some(true));
    assert_eq!(HandshakeValidatedRequest::new(*b"KO").verdict(), Some(false));
    assert_eq!(HandshakeValidatedRequest::new(*b"ok").verdict(), None);
    assert_eq!(HandshakeValidatedRequest::new(*b"OO").verdict(), None);
    assert_eq!(HandshakeValidatedRequest::new(*b"KK").verdict(), None);
}

#[test]
fn records_byte_for_byte() {
    let frames = all_frames();
    assert_eq!(encode_record(&frames[0]), vec![1, 1, 2, 3, 4, 5, 6, 7, 8, 9, 10, 11, 12]);
    assert_eq!(encode_record(&frames[1]), vec![2, 0, 255, 3, 4, 5, 6, 7, 8, 9, 10, 11, 0]);
    assert_eq!(
        encode_record(&frames[2]),
        vec![3, 0, 0, 0, 0, 0, 0, 0, 1, 17, 0, 0, 0, 0, 0, 0, 0, 2, 12, 161]
    );
    assert_eq!(
        encode_record(&frames[3]),
        vec![3, 0, 0, 0, 0, 0, 0, 0, 0, 0, 0, 0, 0, 0, 0, 0, 3, 0, 0, 7]
    );
    assert_eq!(encode_record(&frames[4]), vec![4, 0, 0, 0, 0, 0, 0, 0, 3, 9, 8, 7]);
    assert_eq!(encode_record(&frames[5]), vec![4, 0, 0, 0, 0, 0, 0, 0, 0]);
    let mut long = vec![5, 0, 0, 0, 0, 0, 0, 1, 44];
    long.extend_from_slice(&[200; 300]);
    assert_eq!(encode_record(&frames[6]), long);
    assert_eq!(encode_record(&frames[7]), vec![6, 0x4F, 0x4B]);
    assert_eq!(encode_record(&frames[8]), vec![6, 0x4B, 0x4F]);
    assert_eq!(encode_record(&frames[10]), vec![7]);
}

#[test]
fn records_round_trip() {
    for frame in all_frames() {
        let bytes = encode_record(&frame);
        assert_eq!(decode_record(&bytes), Some(frame));
    }
}

#[test]
fn byte_arrays_of_two_kib_and_more_round_trip() {
    for len in [0usize, 1, 255, 256, 257, 2048, 5000, 70000] {
        let payload: Vec<u8> = (0..len).map(|i| (i * 7 % 256) as u8).collect();
        let frame = PacketType::KEYSVALIDATED(KeysValidatedRequest::new(payload.clone()));
        let text = encode_frame(&frame);
        assert_eq!(decode_frame(&text), Ok(frame));
        assert_eq!(decode_payload(&encode_payload(&payload)), Ok(payload));
    }
}

#[test]
fn records_that_are_no_frame() {
    let bad: Vec<Vec<u8>> = vec![
        vec![],
        vec![0],
        vec![8],
        vec![255, 1, 2],
        vec![1],
        vec![1, 1, 2, 3, 4, 5, 6, 7, 8, 9, 10, 11],
        vec![1, 1, 2, 3, 4, 5, 6, 7, 8, 9, 10, 11, 12, 13],
        vec![2, 1, 2, 3],
        vec![3],
        vec![3, 0, 0, 0, 0, 0, 0, 0, 1, 17],
        vec![3, 0, 0, 0, 0, 0, 0, 0, 1, 17, 0, 0, 0, 0, 0, 0, 0, 2, 12],
        vec![3, 0, 0, 0, 0, 0, 0, 0, 1, 17, 0, 0, 0, 0, 0, 0, 0, 2, 12, 161, 0],
        vec![3, 255, 255, 255, 255, 255, 255, 255, 255, 17],
        vec![4],
        vec![4, 0, 0, 0, 0, 0, 0, 0],
        vec![4, 0, 0, 0, 0, 0, 0, 0, 3, 9, 8],
        vec![4, 0, 0, 0, 0, 0, 0, 0, 3, 9, 8, 7, 6],
        vec![4, 1, 0, 0, 0, 0, 0, 0, 3, 9, 8, 7],
        vec![5, 0, 0, 0, 0, 0, 0, 0, 1],
        vec![6],
        vec![6, 0x4F],
        vec![6, 0x4F, 0x4B, 0],
        vec![7, 0],
    ];
    for bytes in bad {
        assert_eq!(decode_record(&bytes), None, "{:?}", bytes);
    }
}

#[test]
fn wire_text_is_a_json_array_of_the_record() {
    let frames = all_frames();
    assert_eq!(encode_frame(&frames[0]), b"[1,1,2,3,4,5,6,7,8,9,10,11,12]".to_vec());
    assert_eq!(encode_frame(&frames[1]), b"[2,0,255,3,4,5,6,7,8,9,10,11,0]".to_vec());
    assert_eq!(encode_frame(&frames[7]), b"[6,79,75]".to_vec());
    assert_eq!(encode_frame(&frames[10]), b"[7]".to_vec());
    for frame in frames {
        assert_eq!(encode_frame(&frame), json(&encode_record(&frame)));
    }
}

#[test]
fn payload_text_byte_for_byte() {
    assert_eq!(encode_payload(&vec![]), b"[]".to_vec());
    assert_eq!(encode_payload(&vec![0]), b"[0]".to_vec());
    assert_eq!(encode_payload(&vec![9, 10, 99, 100, 255]), b"[9,10,99,100,255]".to_vec());
    let every: Vec<u8> = (0..=255).collect();
    assert_eq!(encode_payload(&every), json(&every));
    assert_eq!(encode_payload(&every), serde_json::to_vec(&every).unwrap());
}

#[test]
fn payloads_round_trip() {
    let every: Vec<u8> = (0..=255).collect();
    assert_eq!(decode_payload(&encode_payload(&every)), Ok(every));
    assert_eq!(decode_payload(b"[]"), Ok(vec![]));
    assert_eq!(decode_payload(b" [ 1 , 2 ] "), Ok(vec![1, 2]));
}

#[test]
fn texts_that_are_no_payload() {
    let bad: [&[u8]; 9] =
        [b"", b"[", b"[1,2", b"[256]", b"[-1]", b"{\"key\":[1]}", b"\"LEAVE\"", b"[1.5]", b"[1] x"];
    for text in bad.iter() {
        assert_eq!(decode_payload(text), Err(CodecError::InvalidEnvelope), "{:?}", text);
        assert_eq!(decode_frame(text), Err(CodecError::InvalidEnvelope), "{:?}", text);
    }
}

#[test]
fn frames_round_trip_over_the_wire() {
    for frame in all_frames() {
        let text = encode_frame(&frame);
        assert_eq!(decode_frame(&text), Ok(frame));
    }
}

#[test]
fn texts_that_hold_no_frame() {
    assert_eq!(decode_frame(b"[]"), Err(CodecError::InvalidRecord));
    assert_eq!(decode_frame(b"[0]"), Err(CodecError::InvalidRecord));
    assert_eq!(decode_frame(b"[7,0]"), Err(CodecError::InvalidRecord));
    assert_eq!(decode_frame(b"[1,2,3]"), Err(CodecError::InvalidRecord));
    assert_eq!(decode_frame(b"[6,79]"), Err(CodecError::InvalidRecord));
    assert_eq!(decode_frame(b"[7]"), Ok(PacketType::LEAVE));
}

#[test]
fn frame_ends_behind_the_first_closing_bracket() {
    assert_eq!(frame_end(b""), None);
    assert_eq!(frame_end(b"[1,2"), None);
    assert_eq!(frame_end(b"[1,2]"), Some(5));
    assert_eq!(frame_end(b"[]"), Some(2));
    assert_eq!(frame_end(b"[7][6,79,75]"), Some(3));
    assert_eq!(frame_end(b"]"), Some(1));
}

#[test]
fn frames_are_cut_from_a_stream() {
    let frames = all_frames();
    let mut stream: Vec<u8> = Vec::new();
    for frame in frames.iter() {
        push_all(&mut stream, &encode_frame(frame));
    }
    let mut at = 0;
    for frame in frames.iter() {
        let end = frame_end(&stream[at..]).unwrap();
        assert_eq!(end, encode_frame(frame).len());
        assert_eq!(decode_frame(&stream[at..at + end]).as_ref(), Ok(frame));
        at += end;
    }
    assert_eq!(at, stream.len());
    assert_eq!(frame_end(&stream[at..]), None);
}

#[test]
fn frames_can_be_cloned() {
    for frame in all_frames() {
        assert_eq!(frame.clone(), frame);
    }
}
