//! The envelope: how a record, or an encrypted message, travels on the wire.
//!
//! Both are byte strings, and both travel as the JSON array of their byte
//! values, without white space: `[1,20,255]`. `serde_json` writes and reads
//! the array; the closing bracket ends the frame, so a reader needs no length
//! from elsewhere.

use vstd::prelude::*;

use super::codec::{
    decode_record, encodable, encode_record, lemma_parse_record_of_record, parse_record, record,
};
use super::types::{Frame, PacketType};

verus! {

/// ASCII `[`.
pub const OPEN_BRACKET: u8 = 91;

/// ASCII `]`.
pub const CLOSE_BRACKET: u8 = 93;

/// ASCII `,`.
pub const COMMA: u8 = 44;

/// ASCII `0`.
pub const DIGIT_ZERO: u8 = 48;

/// A byte value in decimal digits, without leading zeros.
pub open spec fn decimal(byte: u8) -> Seq<u8> {
    if byte < 10 {
        seq![(DIGIT_ZERO + byte) as u8]
    } else if byte < 100 {
        seq![(DIGIT_ZERO + byte / 10) as u8, (DIGIT_ZERO + byte % 10) as u8]
    } else {
        seq![
            (DIGIT_ZERO + byte / 100) as u8,
            (DIGIT_ZERO + (byte / 10) % 10) as u8,
            (DIGIT_ZERO + byte % 10) as u8,
        ]
    }
}

/// The byte values in decimal, with a comma between each two.
pub open spec fn json_items(data: Seq<u8>) -> Seq<u8>
    decreases data.len(),
{
    if data.len() == 0 {
        Seq::empty()
    } else if data.len() == 1 {
        decimal(data[0])
    } else {
        json_items(data.drop_last()) + seq![COMMA] + decimal(data.last())
    }
}

/// The JSON array of the byte values of `data`.
pub open spec fn json_array(data: Seq<u8>) -> Seq<u8> {
    seq![OPEN_BRACKET] + json_items(data) + seq![CLOSE_BRACKET]
}

/// The byte string that `serde_json` reads from `text` as an array of byte
/// values, if it reads one.
pub uninterp spec fn json_array_bytes(text: Seq<u8>) -> Option<Seq<u8>>;

/// The error of `serde_json`.
#[verifier::external_type_specification]
#[verifier::external_body]
pub struct ExJsonError(serde_json::Error);

/// `serde_json::to_vec` on a vector of bytes. It cannot fail there: a vector
/// of bytes holds no map, and writing into a vector does not fail.
/// Trusted: the text is the compact JSON array of the byte values, each in
/// decimal.
#[verifier::external_body]
fn json_write(data: &Vec<u8>) -> (text: Vec<u8>)
    ensures
        text@ == json_array(data@),
{
    match serde_json::to_vec(data) {
        Ok(text) => text,
        Err(_) => Vec::new(),
    }
}

/// `serde_json::from_slice` for a vector of bytes.
/// Trusted: what it returns depends on the text alone, and a text that is
/// the compact JSON array of some byte values, as `serde_json::to_vec`
/// writes it, is read as those values.
#[verifier::external_body]
fn json_read(text: &[u8]) -> (data: Result<Vec<u8>, serde_json::Error>)
    ensures
        match data {
            Ok(bytes) => {
                &&& json_array_bytes(text@) == Some(bytes@)
                &&& forall|written: Seq<u8>|
                    text@ == #[trigger] json_array(written) ==> bytes@ == written
            },
            Err(_) => {
                &&& json_array_bytes(text@) is None
                &&& forall|written: Seq<u8>| text@ != #[trigger] json_array(written)
            },
        },
{
    serde_json::from_slice::<Vec<u8>>(text)
}

/// Why bytes from the wire were refused.
#[derive(Debug, Clone, Copy, PartialEq, Eq)]
pub enum CodecError {
    /// The text is no JSON array of byte values.
    InvalidEnvelope,
    /// The bytes in the array are not the record of a frame.
    InvalidRecord,
}

/// A frame as it travels.
pub open spec fn wire_text(frame: Frame) -> Seq<u8> {
    json_array(record(frame))
}

/// A text that is a byte string as it travels is read as that byte string.
pub open spec fn payload_reads_back(text: Seq<u8>) -> bool {
    forall|written: Seq<u8>|
        text == #[trigger] json_array(written) ==> json_array_bytes(text) == Some(written)
}

/// A text that is a frame as it travels is read as that frame.
pub open spec fn reads_back(text: Seq<u8>) -> bool {
    forall|frame: Frame|
        encodable(frame) && text == #[trigger] wire_text(frame) ==> wire_frame(text) == Ok::<
            Frame,
            CodecError,
        >(frame)
}

/// What a text from the wire is read as.
pub open spec fn wire_frame(text: Seq<u8>) -> Result<Frame, CodecError> {
    match json_array_bytes(text) {
        None => Err(CodecError::InvalidEnvelope),
        Some(bytes) => match parse_record(bytes) {
            None => Err(CodecError::InvalidRecord),
            Some(frame) => Ok(frame),
        },
    }
}

/// Every byte of a decimal is a digit.
pub proof fn lemma_decimal_digits(byte: u8)
    ensures
        1 <= decimal(byte).len() <= 3,
        forall|i: int|
            0 <= i < decimal(byte).len() ==> DIGIT_ZERO <= #[trigger] decimal(byte)[i] <= DIGIT_ZERO
                + 9,
{
}

/// The items hold digits and commas, and nothing else.
pub proof fn lemma_json_items_bytes(data: Seq<u8>)
    ensures
        forall|i: int|
            0 <= i < json_items(data).len() ==> #[trigger] json_items(data)[i] != CLOSE_BRACKET,
    decreases data.len(),
{
    if data.len() == 0 {
    } else if data.len() == 1 {
        lemma_decimal_digits(data[0]);
    } else {
        let head = json_items(data.drop_last());
        let tail = decimal(data.last());
        lemma_json_items_bytes(data.drop_last());
        lemma_decimal_digits(data.last());
        assert forall|i: int| 0 <= i < json_items(data).len() implies #[trigger] json_items(
            data,
        )[i] != CLOSE_BRACKET by {
            if i < head.len() {
                assert(json_items(data)[i] == head[i]);
            } else if i == head.len() {
                assert(json_items(data)[i] == COMMA);
            } else {
                assert(json_items(data)[i] == tail[i - head.len() - 1]);
            }
        }
    }
}

/// Self-delimiting: a JSON array of bytes ends with the first closing
/// bracket in it, whatever follows on the wire.
pub proof fn lemma_json_array_delimited(data: Seq<u8>, rest: Seq<u8>)
    ensures
        json_array(data).len() >= 2,
        (json_array(data) + rest)[json_array(data).len() - 1] == CLOSE_BRACKET,
        forall|i: int|
            0 <= i < json_array(data).len() - 1 ==> #[trigger] (json_array(data) + rest)[i]
                != CLOSE_BRACKET,
{
    lemma_json_items_bytes(data);
    let items = json_items(data);
    let text = json_array(data);
    assert forall|i: int| 0 <= i < text.len() - 1 implies #[trigger] (text + rest)[i]
        != CLOSE_BRACKET by {
        if i > 0 {
            assert(text[i] == items[i - 1]);
        }
    }
}

/// So the end that `frame_end` finds is the end of the first frame: the
/// first closing bracket in a buffer that starts with a JSON array of bytes
/// is the last byte of that array.
pub proof fn lemma_frame_end_is_text_end(data: Seq<u8>, rest: Seq<u8>, end: int)
    requires
        0 < end <= (json_array(data) + rest).len(),
        (json_array(data) + rest)[end - 1] == CLOSE_BRACKET,
        forall|i: int| 0 <= i < end - 1 ==> (json_array(data) + rest)[i] != CLOSE_BRACKET,
    ensures
        end == json_array(data).len(),
{
    lemma_json_array_delimited(data, rest);
    let text = json_array(data);
    if end < text.len() {
        assert((text + rest)[end - 1] != CLOSE_BRACKET);
    } else if end > text.len() {
        assert((text + rest)[text.len() - 1] == CLOSE_BRACKET);
    }
}

/// Where the first frame in `buffer` ends: the index just behind the first
/// closing bracket. `None` while no frame is complete.
pub fn frame_end(buffer: &[u8]) -> (end: Option<usize>)
    ensures
        match end {
            Some(k) => {
                &&& 0 < k <= buffer@.len()
                &&& buffer@[k - 1] == CLOSE_BRACKET
                &&& forall|i: int| 0 <= i < k - 1 ==> buffer@[i] != CLOSE_BRACKET
            },
            None => forall|i: int| 0 <= i < buffer@.len() ==> buffer@[i] != CLOSE_BRACKET,
        },
{
    let len: usize = buffer.len();
    let mut i: usize = 0;
    while i < len
        invariant
            i <= len == buffer@.len(),
            forall|j: int| 0 <= j < i ==> buffer@[j] != CLOSE_BRACKET,
        decreases len - i,
    {
        if buffer[i] == CLOSE_BRACKET {
            return Some(i + 1);
        }
        i += 1;
    }
    None
}

/// The text of an encrypted message, or of any byte string.
pub fn encode_payload(data: &Vec<u8>) -> (text: Vec<u8>)
    ensures
        text@ == json_array(data@),
{
    json_write(data)
}

/// The byte string in a text from the wire. What `encode_payload` wrote is
/// read back as it was.
pub fn decode_payload(text: &[u8]) -> (data: Result<Vec<u8>, CodecError>)
    ensures
        match data {
            Ok(bytes) => json_array_bytes(text@) == Some(bytes@),
            Err(error) => json_array_bytes(text@) is None && error == CodecError::InvalidEnvelope,
        },
        forall|written: Seq<u8>|
            text@ == #[trigger] json_array(written) ==> (data matches Ok(bytes) && bytes@
                == written),
        payload_reads_back(text@),
{
    match json_read(text) {
        Ok(bytes) => Ok(bytes),
        Err(_) => Err(CodecError::InvalidEnvelope),
    }
}

/// The text of a frame.
pub fn encode_frame(packet: &PacketType) -> (text: Vec<u8>)
    ensures
        text@ == wire_text(packet@),
        encodable(packet@),
{
    let bytes = encode_record(packet);
    json_write(&bytes)
}

/// The frame in a text from the wire. What `encode_frame` wrote is read
/// back as the frame it was.
pub fn decode_frame(text: &[u8]) -> (packet: Result<PacketType, CodecError>)
    ensures
        match packet {
            Ok(found) => wire_frame(text@) == Ok::<Frame, CodecError>(found@),
            Err(error) => wire_frame(text@) == Err::<Frame, CodecError>(error),
        },
        forall|frame: Frame|
            encodable(frame) && text@ == #[trigger] wire_text(frame) ==> (packet matches Ok(found)
                && found@ == frame),
        reads_back(text@),
{
    proof {
        assert forall|frame: Frame| encodable(frame) implies #[trigger] parse_record(record(frame))
            == Some(frame) by {
            lemma_parse_record_of_record(frame);
        }
    }
    match json_read(text) {
        Ok(bytes) => match decode_record(bytes.as_slice()) {
            Some(found) => Ok(found),
            None => Err(CodecError::InvalidRecord),
        },
        Err(_) => Err(CodecError::InvalidEnvelope),
    }
}

} // verus!
