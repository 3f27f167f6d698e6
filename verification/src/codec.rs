//! The wire codec: one message per frame, each frame a length prefix followed
//! by the message's fields.
//!
//! A frame is the payload's length as a base-128 varint, then the payload. The
//! payload is the kind (field 1, a varint) and, where present, the data
//! (field 2, length-delimited UTF-8).

use vstd::prelude::*;
use vstd::slice::slice_subrange;
use vstd::utf8::{decode_utf8, encode_utf8, valid_utf8};
use crate::laws::lemma_round_trip;
use crate::message::{
    malformed, missing_data, spec_malformed_text, spec_missing_data_text, ErrorView, MessageType,
    MessageView, SignalingError, SignalingMessage,
};

verus! {

/// The key byte of the kind field: field 1, wire type varint.
pub const KIND_FIELD_KEY: u8 = 0x08;

/// The key byte of the data field: field 2, wire type length-delimited.
pub const DATA_FIELD_KEY: u8 = 0x12;

/// The longest varint that is read: ten bytes hold 64 bits.
pub const MAX_VARINT_BYTES: u8 = 10;

/// The base-128 varint of `n`, least significant group first.
pub open spec fn spec_varint(n: nat) -> Seq<u8>
    decreases n,
{
    if n < 128 {
        seq![n as u8]
    } else {
        seq![(n % 128 + 128) as u8] + spec_varint(n / 128)
    }
}

/// What reading a varint from the front of some bytes gives.
#[derive(Clone, Copy, Debug, PartialEq, Eq, Structural)]
pub enum VarintRead {
    /// The bytes end before the varint does.
    Incomplete,
    /// The varint is longer than allowed or does not fit 64 bits.
    Invalid,
    /// The varint's value and the number of bytes it takes.
    Value { value: u64, len: usize },
}

/// Reads a varint of at most `limit` bytes from the front of `bytes`.
pub open spec fn spec_read_varint(bytes: Seq<u8>, limit: nat) -> VarintRead
    decreases limit,
{
    if limit == 0 {
        VarintRead::Invalid
    } else if bytes.len() == 0 {
        VarintRead::Incomplete
    } else if bytes[0] < 128 {
        VarintRead::Value { value: bytes[0] as u64, len: 1 }
    } else {
        match spec_read_varint(bytes.skip(1), (limit - 1) as nat) {
            VarintRead::Value { value, len } => {
                if value < 0x0200_0000_0000_0000 {
                    VarintRead::Value {
                        value: (128 * value + (bytes[0] - 128)) as u64,
                        len: (len + 1) as usize,
                    }
                } else {
                    VarintRead::Invalid
                }
            },
            other => other,
        }
    }
}

/// The fields of a message, as they stand in a frame behind the length.
pub open spec fn spec_payload(message: MessageView) -> Seq<u8> {
    seq![KIND_FIELD_KEY, message.kind.spec_code()] + match message.data {
        Some(text) => seq![DATA_FIELD_KEY] + spec_varint(encode_utf8(text).len()) + encode_utf8(
            text,
        ),
        None => Seq::<u8>::empty(),
    }
}

/// The frame of a message: the payload's length, then the payload.
pub open spec fn spec_frame(message: MessageView) -> Seq<u8> {
    spec_varint(spec_payload(message).len()) + spec_payload(message)
}

/// The message that a payload holds, if the payload is well formed.
pub open spec fn spec_parse_payload(payload: Seq<u8>) -> Option<MessageView> {
    if payload.len() < 2 || payload[0] != KIND_FIELD_KEY {
        None
    } else {
        match MessageType::spec_from_code(payload[1]) {
            None => None,
            Some(kind) => {
                if payload.len() == 2 {
                    Some(MessageView { kind, data: None })
                } else if payload[2] != DATA_FIELD_KEY {
                    None
                } else {
                    match spec_read_varint(payload.skip(3), MAX_VARINT_BYTES as nat) {
                        VarintRead::Value { value, len } => {
                            if 3 + len + value == payload.len() && valid_utf8(
                                payload.skip(3 + len),
                            ) {
                                Some(
                                    MessageView {
                                        kind,
                                        data: Some(decode_utf8(payload.skip(3 + len))),
                                    },
                                )
                            } else {
                                None
                            }
                        },
                        _ => None,
                    }
                }
            },
        }
    }
}

/// What the front of a byte sequence decodes to.
pub ghost enum FrameParse {
    /// More bytes are needed before anything can be said.
    Incomplete,
    /// The bytes do not start with a well-formed frame.
    Malformed,
    /// The frame holds a message of this kind without its data.
    MissingData(MessageType),
    /// A whole frame: its message and the number of bytes it takes.
    Message { message: MessageView, consumed: nat },
}

/// Decodes one frame from the front of `bytes`.
#[verifier::opaque]
pub open spec fn spec_decode_frame(bytes: Seq<u8>) -> FrameParse {
    match spec_read_varint(bytes, MAX_VARINT_BYTES as nat) {
        VarintRead::Incomplete => FrameParse::Incomplete,
        VarintRead::Invalid => FrameParse::Malformed,
        VarintRead::Value { value, len } => {
            if bytes.len() < len + value {
                FrameParse::Incomplete
            } else {
                match spec_parse_payload(bytes.subrange(len as int, len + value)) {
                    None => FrameParse::Malformed,
                    Some(message) => {
                        if message.data is None {
                            FrameParse::MissingData(message.kind)
                        } else {
                            FrameParse::Message { message, consumed: (len + value) as nat }
                        }
                    },
                }
            }
        },
    }
}

/// Appends the varint of `n` to `out`.
pub fn put_varint(n: u64, out: &mut Vec<u8>)
    ensures
        final(out)@ == old(out)@ + spec_varint(n as nat),
    decreases n,
{
    if n < 128 {
        out.push(n as u8);
    } else {
        out.push((n % 128 + 128) as u8);
        put_varint(n / 128, out);
        assert(final(out)@ =~= old(out)@ + spec_varint(n as nat));
    }
}

/// Reads a varint of at most `limit` bytes that starts at `pos`.
pub fn read_varint(buf: &[u8], pos: usize, limit: u8) -> (read: VarintRead)
    requires
        pos <= buf@.len(),
    ensures
        read == spec_read_varint(buf@.skip(pos as int), limit as nat),
        read matches VarintRead::Value { value, len } ==> 1 <= len <= limit && pos + len
            <= buf@.len(),
    decreases limit,
{
    if limit == 0 {
        return VarintRead::Invalid;
    }
    if pos >= buf.len() {
        return VarintRead::Incomplete;
    }
    let byte: u8 = buf[pos];
    if byte < 128 {
        return VarintRead::Value { value: byte as u64, len: 1 };
    }
    proof {
        assert(buf@.skip(pos as int).skip(1) =~= buf@.skip(pos + 1));
    }
    match read_varint(buf, pos + 1, limit - 1) {
        VarintRead::Value { value, len } => {
            if value < 0x0200_0000_0000_0000 {
                VarintRead::Value { value: 128 * value + (byte - 128) as u64, len: len + 1 }
            } else {
                VarintRead::Invalid
            }
        },
        other => other,
    }
}

/// Encodes one message as exactly one frame. The frame of a message with
/// its data decodes back to that message and is taken whole.
pub fn encode(message: &SignalingMessage) -> (frame: Vec<u8>)
    ensures
        frame@ == spec_frame(message@),
        spec_payload(message@).len() <= u64::MAX,
        message@.data is Some ==> spec_decode_frame(frame@) == (FrameParse::Message {
            message: message@,
            consumed: frame@.len(),
        }),
{
    let mut payload: Vec<u8> = Vec::new();
    payload.push(KIND_FIELD_KEY);
    payload.push(message.kind.code());
    match &message.data {
        Some(text) => {
            let bytes = text.as_str().as_bytes();
            payload.push(DATA_FIELD_KEY);
            put_varint(bytes.len() as u64, &mut payload);
            payload.extend_from_slice(bytes);
        },
        None => {},
    }
    assert(payload@ =~= spec_payload(message@));
    let mut frame: Vec<u8> = Vec::new();
    put_varint(payload.len() as u64, &mut frame);
    let ghost prefix = frame@;
    frame.extend_from_slice(payload.as_slice());
    assert(frame@ =~= prefix + payload@);
    proof {
        if message@.data is Some {
            lemma_round_trip(message@, Seq::empty());
        }
    }
    frame
}

/// `std::str::from_utf8`: the bytes as text where they are valid UTF-8, and
/// nothing where they are not. The text is the one that the bytes encode.
#[verifier::external_body]
fn text_from_utf8<'a>(bytes: &'a [u8]) -> (text: Option<&'a str>)
    ensures
        text is Some <==> valid_utf8(bytes@),
        text is Some ==> text.unwrap()@ == decode_utf8(bytes@),
{
    match std::str::from_utf8(bytes) {
        Ok(text) => Some(text),
        Err(_) => None,
    }
}

/// Reads the fields of one message from a whole payload.
pub fn parse_payload(payload: &[u8]) -> (parsed: Option<SignalingMessage>)
    ensures
        match spec_parse_payload(payload@) {
            Some(message) => parsed is Some && parsed.unwrap()@ == message,
            None => parsed is None,
        },
{
    if payload.len() < 2 || payload[0] != KIND_FIELD_KEY {
        return None;
    }
    let kind = match MessageType::from_code(payload[1]) {
        Some(kind) => kind,
        None => {
            return None;
        },
    };
    if payload.len() == 2 {
        return Some(SignalingMessage { kind, data: None });
    }
    if payload[2] != DATA_FIELD_KEY {
        return None;
    }
    match read_varint(payload, 3, MAX_VARINT_BYTES) {
        VarintRead::Value { value, len } => {
            let rest: usize = payload.len() - 3 - len;
            if value != rest as u64 {
                return None;
            }
            let bytes = slice_subrange(payload, 3 + len, payload.len());
            match text_from_utf8(bytes) {
                Some(text) => Some(SignalingMessage { kind, data: Some(text.to_owned()) }),
                None => None,
            }
        },
        _ => None,
    }
}

/// Decodes the frame that starts at `start`.
///
/// `Ok(None)` says that the frame is not all there yet; `Ok(Some(..))` gives
/// the message and the number of bytes its frame takes; a frame that is not a
/// valid message is a format error.
pub fn decode_frame(buf: &[u8], start: usize) -> (decoded: Result<
    Option<(SignalingMessage, usize)>,
    SignalingError,
>)
    requires
        start <= buf@.len(),
    ensures
        match spec_decode_frame(buf@.skip(start as int)) {
            FrameParse::Incomplete => decoded is Ok && decoded.unwrap() is None,
            FrameParse::Malformed => decoded is Err && decoded.unwrap_err()@
                == ErrorView::FormatError(spec_malformed_text()),
            FrameParse::MissingData(kind) => decoded is Err && decoded.unwrap_err()@
                == ErrorView::FormatError(spec_missing_data_text(kind)),
            FrameParse::Message { message, consumed } => {
                &&& decoded is Ok
                &&& decoded.unwrap() is Some
                &&& decoded.unwrap().unwrap().0@ == message
                &&& message.data is Some
                &&& decoded.unwrap().unwrap().1 == consumed
                &&& 0 < consumed <= buf@.len() - start
            },
        },
{
    reveal(spec_decode_frame);
    match read_varint(buf, start, MAX_VARINT_BYTES) {
        VarintRead::Incomplete => Ok(None),
        VarintRead::Invalid => Err(malformed()),
        VarintRead::Value { value, len } => {
            let available: usize = buf.len() - start - len;
            if value > available as u64 {
                return Ok(None);
            }
            let size: usize = value as usize;
            let payload = slice_subrange(buf, start + len, start + len + size);
            assert(payload@ =~= buf@.skip(start as int).subrange(len as int, len + value));
            match parse_payload(payload) {
                None => Err(malformed()),
                Some(message) => {
                    if message.is_valid() {
                        Ok(Some((message, len + size)))
                    } else {
                        Err(missing_data(message.kind))
                    }
                },
            }
        },
    }
}

/// Decodes a buffer that holds exactly one frame.
///
/// Anything else is a format error: a frame that is cut short, a frame that
/// is followed by more bytes, or one that is not a valid message.
pub fn decode(frame: &[u8]) -> (decoded: Result<SignalingMessage, SignalingError>)
    ensures
        match spec_decode_frame(frame@) {
            FrameParse::Message { message, consumed } if consumed == frame@.len() => decoded is Ok
                && decoded.unwrap()@ == message,
            FrameParse::MissingData(kind) => decoded is Err && decoded.unwrap_err()@
                == ErrorView::FormatError(spec_missing_data_text(kind)),
            _ => decoded is Err && decoded.unwrap_err()@ == ErrorView::FormatError(
                spec_malformed_text(),
            ),
        },
{
    assert(frame@.skip(0) =~= frame@);
    match decode_frame(frame, 0) {
        Ok(Some((message, consumed))) => {
            if consumed == frame.len() {
                Ok(message)
            } else {
                Err(malformed())
            }
        },
        Ok(None) => Err(malformed()),
        Err(error) => Err(error),
    }
}

} // verus!
