//! The wire codec.
//!
//! A frame is first laid out as a record: one tag byte, then the fields in
//! order. A field of fixed length is written as it is; a field of variable
//! length follows its own length, written in eight bytes. On the wire the
//! record travels as a JSON array of its byte values, which `serde_json`
//! writes and reads; the closing bracket of the array ends the frame.

use vstd::arithmetic::power::pow;
use vstd::prelude::*;

use super::types::{
    Frame, HandshakeValidatedRequest, HelloClientRequest, HelloServerRequest, KeysValidatedRequest,
    PacketType, SharingCryptedPubKeyRequest, SharingPubKeyRequest,
};
use crate::keys_generator::keys::{KeyView, PublicKey};
use crate::keys_generator::maths::natural::{
    be_value, copy_range, lemma_be_value_bound, lemma_be_value_push,
};

verus! {

/// Tag of a client hello.
pub const TAG_HELLO_CLIENT: u8 = 1;

/// Tag of a server hello.
pub const TAG_HELLO_SERVER: u8 = 2;

/// Tag of a public key in the clear.
pub const TAG_SHARING_PUB_KEY: u8 = 3;

/// Tag of an encrypted public key.
pub const TAG_SHARING_CRYPTED_PUB_KEY: u8 = 4;

/// Tag of an encrypted master password.
pub const TAG_KEYS_VALIDATED: u8 = 5;

/// Tag of a verdict.
pub const TAG_HANDSHAKE_VALIDATED: u8 = 6;

/// Tag of a leave.
pub const TAG_LEAVE: u8 = 7;

/// `n` in exactly `width` bytes, most significant first; what does not fit
/// is cut off at the top.
pub open spec fn fixed_be(n: nat, width: nat) -> Seq<u8>
    decreases width,
{
    if width == 0 {
        Seq::empty()
    } else {
        fixed_be(n / 256, (width - 1) as nat).push((n % 256) as u8)
    }
}

/// A length fits its eight bytes.
pub open spec fn fits_length(n: nat) -> bool {
    n < 0x1_0000_0000_0000_0000
}

/// A field of variable length: the length in eight bytes, then the bytes.
pub open spec fn field(bytes: Seq<u8>) -> Seq<u8> {
    fixed_be(bytes.len(), 8) + bytes
}

/// The field at the start of `bytes` and what follows it, if `bytes` starts
/// with a whole field.
pub open spec fn parse_field(bytes: Seq<u8>) -> Option<(Seq<u8>, Seq<u8>)> {
    if bytes.len() < 8 {
        None
    } else {
        let len = be_value(bytes.take(8));
        if bytes.len() - 8 < len {
            None
        } else {
            Some((bytes.subrange(8, 8 + len as int), bytes.skip(8 + len as int)))
        }
    }
}

/// The record of a frame.
pub open spec fn record(frame: Frame) -> Seq<u8> {
    match frame {
        Frame::HelloClient { nonce } => seq![TAG_HELLO_CLIENT] + nonce,
        Frame::HelloServer { nonce } => seq![TAG_HELLO_SERVER] + nonce,
        Frame::SharingPubKey { key } => seq![TAG_SHARING_PUB_KEY] + field(key.exponent) + field(
            key.modulus,
        ),
        Frame::SharingCryptedPubKey { ciphertext } => seq![TAG_SHARING_CRYPTED_PUB_KEY] + field(
            ciphertext,
        ),
        Frame::KeysValidated { ciphertext } => seq![TAG_KEYS_VALIDATED] + field(ciphertext),
        Frame::HandshakeValidated { status } => seq![TAG_HANDSHAKE_VALIDATED] + status,
        Frame::Leave => seq![TAG_LEAVE],
    }
}

/// A frame that has a record: its fixed fields have their lengths and the
/// lengths of the others fit eight bytes. Every frame in memory is one.
pub open spec fn encodable(frame: Frame) -> bool {
    &&& frame.wf()
    &&& match frame {
        Frame::SharingPubKey { key } => fits_length(key.exponent.len()) && fits_length(
            key.modulus.len(),
        ),
        Frame::SharingCryptedPubKey { ciphertext } => fits_length(ciphertext.len()),
        Frame::KeysValidated { ciphertext } => fits_length(ciphertext.len()),
        _ => true,
    }
}

/// The frame whose record is `bytes`, if there is one.
pub open spec fn parse_record(bytes: Seq<u8>) -> Option<Frame> {
    if bytes.len() == 0 {
        None
    } else {
        let tag = bytes[0];
        let body = bytes.skip(1);
        if tag == TAG_HELLO_CLIENT {
            if body.len() == 12 {
                Some(Frame::HelloClient { nonce: body })
            } else {
                None
            }
        } else if tag == TAG_HELLO_SERVER {
            if body.len() == 12 {
                Some(Frame::HelloServer { nonce: body })
            } else {
                None
            }
        } else if tag == TAG_SHARING_PUB_KEY {
            match parse_field(body) {
                Some((exponent, rest)) => match parse_field(rest) {
                    Some((modulus, end)) => if end.len() == 0 {
                        Some(Frame::SharingPubKey { key: KeyView { exponent, modulus } })
                    } else {
                        None
                    },
                    None => None,
                },
                None => None,
            }
        } else if tag == TAG_SHARING_CRYPTED_PUB_KEY {
            match parse_field(body) {
                Some((ciphertext, end)) => if end.len() == 0 {
                    Some(Frame::SharingCryptedPubKey { ciphertext })
                } else {
                    None
                },
                None => None,
            }
        } else if tag == TAG_KEYS_VALIDATED {
            match parse_field(body) {
                Some((ciphertext, end)) => if end.len() == 0 {
                    Some(Frame::KeysValidated { ciphertext })
                } else {
                    None
                },
                None => None,
            }
        } else if tag == TAG_HANDSHAKE_VALIDATED {
            if body.len() == 2 {
                Some(Frame::HandshakeValidated { status: body })
            } else {
                None
            }
        } else if tag == TAG_LEAVE {
            if body.len() == 0 {
                Some(Frame::Leave)
            } else {
                None
            }
        } else {
            None
        }
    }
}

/// `fixed_be` writes `width` bytes.
pub proof fn lemma_fixed_be_len(n: nat, width: nat)
    ensures
        fixed_be(n, width).len() == width,
    decreases width,
{
    if width > 0 {
        lemma_fixed_be_len(n / 256, (width - 1) as nat);
    }
}

/// `fixed_be` spells a number that fits.
pub proof fn lemma_fixed_be_value(n: nat, width: nat)
    requires
        n < pow(256, width),
    ensures
        be_value(fixed_be(n, width)) == n,
    decreases width,
{
    reveal(pow);
    if width > 0 {
        lemma_fixed_be_value(n / 256, (width - 1) as nat);
        lemma_be_value_push(fixed_be(n / 256, (width - 1) as nat), (n % 256) as u8);
    }
}

/// Every string is the `fixed_be` of its own value and length.
pub proof fn lemma_fixed_be_of_value(bytes: Seq<u8>)
    ensures
        fixed_be(be_value(bytes), bytes.len()) == bytes,
    decreases bytes.len(),
{
    if bytes.len() > 0 {
        let init = bytes.drop_last();
        lemma_fixed_be_of_value(init);
        let v = be_value(bytes);
        assert(v / 256 == be_value(init));
        assert(v % 256 == bytes.last() as nat);
        assert(init.push(bytes.last()) =~= bytes);
    } else {
        assert(fixed_be(be_value(bytes), 0) =~= bytes);
    }
}

/// A field is read back as it was written, and what followed it is left.
pub proof fn lemma_parse_field_of_field(bytes: Seq<u8>, rest: Seq<u8>)
    requires
        fits_length(bytes.len()),
    ensures
        parse_field(field(bytes) + rest) == Some((bytes, rest)),
{
    let whole = field(bytes) + rest;
    lemma_fixed_be_len(bytes.len(), 8);
    assert(pow(256, 8) == 0x1_0000_0000_0000_0000) by {
        reveal_with_fuel(pow, 9);
    }
    lemma_fixed_be_value(bytes.len(), 8);
    assert(whole.take(8) =~= fixed_be(bytes.len(), 8));
    assert(whole.subrange(8, 8 + bytes.len() as int) =~= bytes);
    assert(whole.skip(8 + bytes.len() as int) =~= rest);
}

/// What `parse_field` reads is a field, and it stood at the start.
pub proof fn lemma_field_of_parse_field(bytes: Seq<u8>)
    requires
        parse_field(bytes) is Some,
    ensures
        bytes == field((parse_field(bytes)->0).0) + (parse_field(bytes)->0).1,
        fits_length((parse_field(bytes)->0).0.len()),
{
    let len = be_value(bytes.take(8));
    lemma_fixed_be_of_value(bytes.take(8));
    lemma_be_value_bound(bytes.take(8));
    assert(pow(256, 8) == 0x1_0000_0000_0000_0000) by {
        reveal_with_fuel(pow, 9);
    }
    assert(bytes =~= bytes.take(8) + bytes.subrange(8, 8 + len as int) + bytes.skip(8 + len as int));
}

/// Round trip: the record of a frame is parsed back into the frame.
pub proof fn lemma_parse_record_of_record(frame: Frame)
    requires
        encodable(frame),
    ensures
        parse_record(record(frame)) == Some(frame),
{
    let bytes = record(frame);
    match frame {
        Frame::HelloClient { nonce } => {
            assert(bytes.skip(1) =~= nonce);
        },
        Frame::HelloServer { nonce } => {
            assert(bytes.skip(1) =~= nonce);
        },
        Frame::SharingPubKey { key } => {
            assert(bytes.skip(1) =~= field(key.exponent) + field(key.modulus));
            lemma_parse_field_of_field(key.exponent, field(key.modulus));
            assert(field(key.modulus) =~= field(key.modulus) + Seq::<u8>::empty());
            lemma_parse_field_of_field(key.modulus, Seq::<u8>::empty());
        },
        Frame::SharingCryptedPubKey { ciphertext } => {
            assert(bytes.skip(1) =~= field(ciphertext) + Seq::<u8>::empty());
            lemma_parse_field_of_field(ciphertext, Seq::<u8>::empty());
        },
        Frame::KeysValidated { ciphertext } => {
            assert(bytes.skip(1) =~= field(ciphertext) + Seq::<u8>::empty());
            lemma_parse_field_of_field(ciphertext, Seq::<u8>::empty());
        },
        Frame::HandshakeValidated { status } => {
            assert(bytes.skip(1) =~= status);
        },
        Frame::Leave => {
            assert(bytes.skip(1) =~= Seq::<u8>::empty());
        },
    }
}

/// One record only: what is parsed into a frame is the record of that frame,
/// so no two byte strings stand for the same frame.
pub proof fn lemma_record_of_parse_record(bytes: Seq<u8>)
    requires
        parse_record(bytes) is Some,
    ensures
        record(parse_record(bytes)->0) == bytes,
        encodable(parse_record(bytes)->0),
{
    let tag = bytes[0];
    let body = bytes.skip(1);
    assert(bytes =~= seq![tag] + body);
    if tag == TAG_SHARING_PUB_KEY {
        lemma_field_of_parse_field(body);
        let rest = (parse_field(body)->0).1;
        lemma_field_of_parse_field(rest);
        let end = (parse_field(rest)->0).1;
        assert(end =~= Seq::<u8>::empty());
        assert(body =~= field((parse_field(body)->0).0) + field((parse_field(rest)->0).0));
    } else if tag == TAG_SHARING_CRYPTED_PUB_KEY || tag == TAG_KEYS_VALIDATED {
        lemma_field_of_parse_field(body);
        assert((parse_field(body)->0).1 =~= Seq::<u8>::empty());
        assert(body =~= field((parse_field(body)->0).0));
    } else if tag == TAG_LEAVE {
        assert(body =~= Seq::<u8>::empty());
    }
}

/// Appends `bytes` to `out`.
pub fn push_all(out: &mut Vec<u8>, bytes: &[u8])
    ensures
        final(out)@ == old(out)@ + bytes@,
{
    let len: usize = bytes.len();
    let mut i: usize = 0;
    assert(out@ =~= old(out)@ + bytes@.take(0));
    while i < len
        invariant
            i <= len == bytes@.len(),
            out@ == old(out)@ + bytes@.take(i as int),
        decreases len - i,
    {
        out.push(bytes[i]);
        i += 1;
        assert(out@ =~= old(out)@ + bytes@.take(i as int));
    }
    assert(bytes@.take(len as int) =~= bytes@);
}

/// Appends a length, in eight bytes.
fn push_length(out: &mut Vec<u8>, length: usize)
    ensures
        final(out)@ == old(out)@ + fixed_be(length as nat, 8),
{
    let v0: u64 = length as u64;
    let v1: u64 = v0 / 256;
    let v2: u64 = v1 / 256;
    let v3: u64 = v2 / 256;
    let v4: u64 = v3 / 256;
    let v5: u64 = v4 / 256;
    let v6: u64 = v5 / 256;
    let v7: u64 = v6 / 256;
    out.push((v7 % 256) as u8);
    out.push((v6 % 256) as u8);
    out.push((v5 % 256) as u8);
    out.push((v4 % 256) as u8);
    out.push((v3 % 256) as u8);
    out.push((v2 % 256) as u8);
    out.push((v1 % 256) as u8);
    out.push((v0 % 256) as u8);
    proof {
        reveal_with_fuel(fixed_be, 9);
        assert(out@ =~= old(out)@ + fixed_be(length as nat, 8));
    }
}

/// Appends a field of variable length.
fn push_field(out: &mut Vec<u8>, bytes: &[u8])
    ensures
        final(out)@ == old(out)@ + field(bytes@),
        fits_length(bytes@.len()),
{
    push_length(out, bytes.len());
    push_all(out, bytes);
    assert(out@ =~= old(out)@ + field(bytes@));
}

/// The number that the eight bytes from `at` on spell.
fn read_length(bytes: &[u8], at: usize) -> (length: u64)
    requires
        at + 8 <= bytes@.len(),
    ensures
        length as nat == be_value(bytes@.subrange(at as int, at + 8)),
{
    let b0: u64 = bytes[at] as u64;
    let b1: u64 = bytes[at + 1] as u64;
    let b2: u64 = bytes[at + 2] as u64;
    let b3: u64 = bytes[at + 3] as u64;
    let b4: u64 = bytes[at + 4] as u64;
    let b5: u64 = bytes[at + 5] as u64;
    let b6: u64 = bytes[at + 6] as u64;
    let b7: u64 = bytes[at + 7] as u64;
    let v1: u64 = b0 * 256 + b1;
    let v2: u64 = v1 * 256 + b2;
    let v3: u64 = v2 * 256 + b3;
    let v4: u64 = v3 * 256 + b4;
    let v5: u64 = v4 * 256 + b5;
    let v6: u64 = v5 * 256 + b6;
    let v7: u64 = v6 * 256 + b7;
    proof {
        let all = bytes@.subrange(at as int, at + 8);
        let first_7 = all.drop_last();
        let first_6 = first_7.drop_last();
        let first_5 = first_6.drop_last();
        let first_4 = first_5.drop_last();
        let first_3 = first_4.drop_last();
        let first_2 = first_3.drop_last();
        let first_1 = first_2.drop_last();
        assert(be_value(first_1.drop_last()) == 0);
        assert(be_value(first_1) == b0);
        assert(be_value(first_2) == v1);
        assert(be_value(first_3) == v2);
        assert(be_value(first_4) == v3);
        assert(be_value(first_5) == v4);
        assert(be_value(first_6) == v5);
        assert(be_value(first_7) == v6);
        assert(be_value(all) == v7);
    }
    v7
}

/// Reads the field that starts at `at`: its bytes, and where the next thing
/// starts.
fn read_field(bytes: &[u8], at: usize) -> (found: Option<(Vec<u8>, usize)>)
    requires
        at <= bytes@.len(),
    ensures
        match found {
            Some((value, next)) => at + 8 <= next <= bytes@.len() && parse_field(
                bytes@.skip(at as int),
            ) == Some((value@, bytes@.skip(next as int))),
            None => parse_field(bytes@.skip(at as int)) is None,
        },
{
    let len: usize = bytes.len();
    let ghost tail = bytes@.skip(at as int);
    if len - at < 8 {
        return None;
    }
    let length: u64 = read_length(bytes, at);
    assert(tail.take(8) =~= bytes@.subrange(at as int, at + 8));
    let room: usize = len - at - 8;
    if (room as u64) < length {
        return None;
    }
    let start: usize = at + 8;
    let end: usize = start + length as usize;
    let value = copy_range(bytes, start, end);
    assert(tail.subrange(8, 8 + length as int) =~= value@);
    assert(tail.skip(8 + length as int) =~= bytes@.skip(end as int));
    Some((value, end))
}

/// Lays a frame out as its record.
pub fn encode_record(packet: &PacketType) -> (bytes: Vec<u8>)
    ensures
        bytes@ == record(packet@),
        encodable(packet@),
{
    let mut out: Vec<u8> = Vec::new();
    match packet {
        PacketType::HELLOCLIENT(request) => {
            out.push(TAG_HELLO_CLIENT);
            let key: [u8; 12] = request.key();
            push_all(&mut out, key.as_slice());
            assert(out@ =~= record(packet@));
        },
        PacketType::HELLOSERVER(request) => {
            out.push(TAG_HELLO_SERVER);
            let key: [u8; 12] = request.key();
            push_all(&mut out, key.as_slice());
            assert(out@ =~= record(packet@));
        },
        PacketType::SHARINGPUBKEY(request) => {
            out.push(TAG_SHARING_PUB_KEY);
            let key = request.pub_key();
            push_field(&mut out, key.encryption_bytes().as_slice());
            push_field(&mut out, key.modulus_bytes().as_slice());
            assert(out@ =~= record(packet@));
        },
        PacketType::SHARINGCRYPTEDPUBKEY(request) => {
            out.push(TAG_SHARING_CRYPTED_PUB_KEY);
            let ciphertext = request.crypted_pub_key();
            push_field(&mut out, ciphertext.as_slice());
            assert(out@ =~= record(packet@));
        },
        PacketType::KEYSVALIDATED(request) => {
            out.push(TAG_KEYS_VALIDATED);
            let ciphertext = request.key();
            push_field(&mut out, ciphertext.as_slice());
            assert(out@ =~= record(packet@));
        },
        PacketType::HANDSHAKEVALIDATED(request) => {
            out.push(TAG_HANDSHAKE_VALIDATED);
            let status: [u8; 2] = request.status();
            push_all(&mut out, status.as_slice());
            assert(out@ =~= record(packet@));
        },
        PacketType::LEAVE => {
            out.push(TAG_LEAVE);
            assert(out@ =~= record(packet@));
        },
    }
    out
}

/// Reads a record back into its frame. There is a frame exactly when
/// `bytes` is the record of one.
pub fn decode_record(bytes: &[u8]) -> (packet: Option<PacketType>)
    ensures
        match packet {
            Some(found) => parse_record(bytes@) == Some(found@),
            None => parse_record(bytes@) is None,
        },
{
    let len: usize = bytes.len();
    if len == 0 {
        return None;
    }
    let tag: u8 = bytes[0];
    let ghost body = bytes@.skip(1);
    if tag == TAG_HELLO_CLIENT || tag == TAG_HELLO_SERVER {
        if len != 13 {
            return None;
        }
        let key: [u8; 12] = [
            bytes[1],
            bytes[2],
            bytes[3],
            bytes[4],
            bytes[5],
            bytes[6],
            bytes[7],
            bytes[8],
            bytes[9],
            bytes[10],
            bytes[11],
            bytes[12],
        ];
        assert(key@ =~= body);
        if tag == TAG_HELLO_CLIENT {
            Some(PacketType::HELLOCLIENT(HelloClientRequest::new(key)))
        } else {
            Some(PacketType::HELLOSERVER(HelloServerRequest::new(key)))
        }
    } else if tag == TAG_SHARING_PUB_KEY {
        match read_field(bytes, 1) {
            Some((exponent, next)) => match read_field(bytes, next) {
                Some((modulus, end)) => {
                    if end == len {
                        let key = PublicKey::from_bytes(exponent, modulus);
                        Some(PacketType::SHARINGPUBKEY(SharingPubKeyRequest::new(key)))
                    } else {
                        None
                    }
                },
                None => None,
            },
            None => None,
        }
    } else if tag == TAG_SHARING_CRYPTED_PUB_KEY {
        match read_field(bytes, 1) {
            Some((ciphertext, end)) => {
                if end == len {
                    Some(
                        PacketType::SHARINGCRYPTEDPUBKEY(
                            SharingCryptedPubKeyRequest::new(ciphertext),
                        ),
                    )
                } else {
                    None
                }
            },
            None => None,
        }
    } else if tag == TAG_KEYS_VALIDATED {
        match read_field(bytes, 1) {
            Some((ciphertext, end)) => {
                if end == len {
                    Some(PacketType::KEYSVALIDATED(KeysValidatedRequest::new(ciphertext)))
                } else {
                    None
                }
            },
            None => None,
        }
    } else if tag == TAG_HANDSHAKE_VALIDATED {
        if len != 3 {
            return None;
        }
        let status: [u8; 2] = [bytes[1], bytes[2]];
        assert(status@ =~= body);
        Some(PacketType::HANDSHAKEVALIDATED(HandshakeValidatedRequest::new(status)))
    } else if tag == TAG_LEAVE {
        if len != 1 {
            return None;
        }
        Some(PacketType::LEAVE)
    } else {
        None
    }
}

} // verus!
