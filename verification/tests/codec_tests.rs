use webrtc_signaling::codec::{parse_payload, put_varint, read_varint, VarintRead};
use webrtc_signaling::{
    decode, decode_frame, encode, FrameDecoder, MessageType, SignalingError, SignalingMessage,
};

fn offer(text: &str) -> SignalingMessage {
    SignalingMessage::offer(text.to_string())
}

/// The frame as the protobuf runtime writes it: the length, then field 1 as
/// a varint and field 2 as a string.
fn reference_frame(kind: i32, data: Option<&str>) -> Vec<u8> {
    let mut payload: Vec<u8> = Vec::new();
    prost::encoding::int32::encode(1, &kind, &mut payload);
    if let Some(text) = data {
        prost::encoding::string::encode(2, &text.to_string(), &mut payload);
    }
    let mut frame: Vec<u8> = Vec::new();
    prost::encoding::encode_varint(payload.len() as u64, &mut frame);
    frame.extend_from_slice(&payload);
    frame
}

#[test]
fn varint_of_small_number_is_one_byte() {
    let mut out = Vec::new();
    put_varint(0, &mut out);
    put_varint(1, &mut out);
    put_varint(127, &mut out);
    assert_eq!(out, vec![0x00, 0x01, 0x7f]);
}

#[test]
fn varint_of_300_is_two_bytes() {
    let mut out = vec![0xff];
    put_varint(300, &mut out);
    assert_eq!(out, vec![0xff, 0xac, 0x02]);
}

#[test]
fn varint_of_largest_number_is_ten_bytes() {
    let mut out = Vec::new();
    put_varint(u64::MAX, &mut out);
    assert_eq!(out, vec![0xff, 0xff, 0xff, 0xff, 0xff, 0xff, 0xff, 0xff, 0xff, 0x01]);
    assert_eq!(read_varint(&out, 0, 10), VarintRead::Value { value: u64::MAX, len: 10 });
}

#[test]
fn varint_matches_protobuf_runtime() {
    for n in [0u64, 1, 127, 128, 300, 16383, 16384, 1 << 32, u64::MAX] {
        let mut ours = Vec::new();
        put_varint(n, &mut ours);
        let mut theirs: Vec<u8> = Vec::new();
        prost::encoding::encode_varint(n, &mut theirs);
        assert_eq!(ours, theirs);
        assert_eq!(read_varint(&ours, 0, 10), VarintRead::Value { value: n, len: ours.len() });
    }
}

#[test]
fn read_varint_reads_from_position() {
    let buf = vec![0x01, 0xac, 0x02, 0x05];
    assert_eq!(read_varint(&buf, 1, 10), VarintRead::Value { value: 300, len: 2 });
    assert_eq!(read_varint(&buf, 3, 10), VarintRead::Value { value: 5, len: 1 });
}

#[test]
fn read_varint_incomplete_and_invalid() {
    assert_eq!(read_varint(&[], 0, 10), VarintRead::Incomplete);
    assert_eq!(read_varint(&[0x80], 0, 10), VarintRead::Incomplete);
    assert_eq!(read_varint(&[0x80, 0x80], 0, 10), VarintRead::Incomplete);
    // eleven bytes without an end
    assert_eq!(read_varint(&[0x80; 11], 0, 10), VarintRead::Invalid);
    // ten bytes that do not fit 64 bits
    let too_big = [0xff, 0xff, 0xff, 0xff, 0xff, 0xff, 0xff, 0xff, 0xff, 0x02];
    assert_eq!(read_varint(&too_big, 0, 10), VarintRead::Invalid);
    assert_eq!(read_varint(&[0x01], 0, 0), VarintRead::Invalid);
}

#[test]
fn encode_offer_exact_bytes() {
    let frame = encode(&offer("v=0"));
    assert_eq!(frame, vec![0x07, 0x08, 0x00, 0x12, 0x03, b'v', b'=', b'0']);
}

#[test]
fn encode_answer_and_candidate_exact_bytes() {
    let answer = encode(&SignalingMessage::answer("ok".to_string()));
    assert_eq!(answer, vec![0x06, 0x08, 0x01, 0x12, 0x02, b'o', b'k']);
    let candidate = encode(&SignalingMessage::ice_candidate(String::new()));
    assert_eq!(candidate, vec![0x04, 0x08, 0x02, 0x12, 0x00]);
}

#[test]
fn encode_without_data_exact_bytes() {
    let message = SignalingMessage { kind: MessageType::SdpOffer, data: None };
    assert_eq!(encode(&message), vec![0x02, 0x08, 0x00]);
}

#[test]
fn encode_matches_protobuf_runtime() {
    let long = "a=candidate:".repeat(40);
    for text in ["", "v=0", "candidate \u{00e9}\u{4e2d}\u{1f600}", long.as_str()] {
        assert_eq!(encode(&offer(text)), reference_frame(0, Some(text)));
        assert_eq!(
            encode(&SignalingMessage::answer(text.to_string())),
            reference_frame(1, Some(text))
        );
        assert_eq!(
            encode(&SignalingMessage::ice_candidate(text.to_string())),
            reference_frame(2, Some(text))
        );
    }
    let bare = SignalingMessage { kind: MessageType::IceCandidate, data: None };
    assert_eq!(encode(&bare), reference_frame(2, None));
}

#[test]
fn round_trip_every_kind() {
    let long = "x".repeat(20_000);
    let texts = ["", "v=0\r\no=- 1 2 IN IP4 127.0.0.1", "\u{00e9}\u{4e2d}\u{1f600}", long.as_str()];
    for text in texts {
        for message in [
            SignalingMessage::offer(text.to_string()),
            SignalingMessage::answer(text.to_string()),
            SignalingMessage::ice_candidate(text.to_string()),
        ] {
            let frame = encode(&message);
            assert_eq!(decode(&frame), Ok(message.clone()));
            assert_eq!(decode_frame(&frame, 0), Ok(Some((message, frame.len()))));
        }
    }
}

#[test]
fn decode_reads_text_from_bytes() {
    let frame = vec![0x07, 0x08, 0x01, 0x12, 0x03, 0xe2, 0x82, 0xac];
    let message = decode(&frame).unwrap();
    assert_eq!(message.kind, MessageType::SdpAnswer);
    assert_eq!(message.data, Some("\u{20ac}".to_string()));
}

#[test]
fn decode_rejects_missing_data() {
    let frame = encode(&SignalingMessage { kind: MessageType::SdpOffer, data: None });
    assert_eq!(
        decode(&frame),
        Err(SignalingError::FormatError("SDP offer missing data".to_string()))
    );
    let frame = encode(&SignalingMessage { kind: MessageType::SdpAnswer, data: None });
    assert_eq!(
        decode(&frame),
        Err(SignalingError::FormatError("SDP answer missing data".to_string()))
    );
    let frame = encode(&SignalingMessage { kind: MessageType::IceCandidate, data: None });
    assert_eq!(
        decode_frame(&frame, 0),
        Err(SignalingError::FormatError("ICE candidate missing data".to_string()))
    );
}

#[test]
fn decode_rejects_malformed_frames() {
    let malformed = Err(SignalingError::FormatError("Failed to decode message".to_string()));
    // no payload
    assert_eq!(decode(&[0x00]), malformed);
    // unknown kind
    assert_eq!(decode(&[0x04, 0x08, 0x03, 0x12, 0x00]), malformed);
    // wrong first field
    assert_eq!(decode(&[0x04, 0x10, 0x00, 0x12, 0x00]), malformed);
    // wrong second field
    assert_eq!(decode(&[0x04, 0x08, 0x00, 0x1a, 0x00]), malformed);
    // data length that disagrees with the frame
    assert_eq!(decode(&[0x05, 0x08, 0x00, 0x12, 0x03, b'a']), malformed);
    // data that is not UTF-8
    assert_eq!(decode(&[0x06, 0x08, 0x00, 0x12, 0x02, 0xff, 0xfe]), malformed);
    // a length that is no varint
    assert_eq!(decode(&[0x80; 11]), malformed);
}

#[test]
fn decode_rejects_truncated_and_trailing() {
    let malformed = Err(SignalingError::FormatError("Failed to decode message".to_string()));
    let frame = encode(&offer("v=0"));
    assert_eq!(decode(&frame[..frame.len() - 1]), malformed);
    assert_eq!(decode(&[]), malformed);
    let mut longer = frame.clone();
    longer.push(0x00);
    assert_eq!(decode(&longer), malformed);
}

#[test]
fn decode_frame_incomplete_is_not_an_error() {
    let frame = encode(&offer("hello"));
    for cut in 0..frame.len() {
        assert_eq!(decode_frame(&frame[..cut], 0), Ok(None));
    }
}

#[test]
fn decode_frame_from_cursor() {
    let first = encode(&offer("one"));
    let second = encode(&SignalingMessage::answer("two".to_string()));
    let mut buf = first.clone();
    buf.extend_from_slice(&second);
    assert_eq!(decode_frame(&buf, 0), Ok(Some((offer("one"), first.len()))));
    assert_eq!(
        decode_frame(&buf, first.len()),
        Ok(Some((SignalingMessage::answer("two".to_string()), second.len())))
    );
    assert_eq!(decode_frame(&buf, buf.len()), Ok(None));
}

#[test]
fn parse_payload_cases() {
    assert_eq!(
        parse_payload(&[0x08, 0x02]),
        Some(SignalingMessage { kind: MessageType::IceCandidate, data: None })
    );
    assert_eq!(
        parse_payload(&[0x08, 0x00, 0x12, 0x01, b'z']),
        Some(SignalingMessage::offer("z".to_string()))
    );
    assert_eq!(parse_payload(&[0x08]), None);
    assert_eq!(parse_payload(&[0x08, 0x00, 0x12]), None);
    assert_eq!(parse_payload(&[0x08, 0x00, 0x12, 0x01, 0x80]), None);
}

#[test]
fn batch_decode_two_frames_in_order() {
    let first = SignalingMessage::offer("first".to_string());
    let second = SignalingMessage::ice_candidate("second".to_string());
    let mut bytes = encode(&first);
    bytes.extend_from_slice(&encode(&second));
    let mut decoder = FrameDecoder::new();
    decoder.feed(&bytes);
    let (messages, failure) = decoder.drain();
    assert_eq!(messages, vec![first, second]);
    assert_eq!(failure, None);
    assert_eq!(decoder.pending_len(), 0);
}

#[test]
fn incremental_feed_one_byte_at_a_time() {
    let message = SignalingMessage::answer("v=0\r\ns=-".to_string());
    let frame = encode(&message);
    let mut decoder = FrameDecoder::new();
    for (i, byte) in frame.iter().enumerate() {
        decoder.feed(&[*byte]);
        let (messages, failure) = decoder.drain();
        assert_eq!(failure, None);
        if i + 1 < frame.len() {
            assert!(messages.is_empty());
            assert_eq!(decoder.pending_len(), i + 1);
        } else {
            assert_eq!(messages, vec![message.clone()]);
            assert_eq!(decoder.pending_len(), 0);
        }
    }
    let mut whole = FrameDecoder::new();
    whole.feed(&frame);
    assert_eq!(whole.drain(), (vec![message], None));
}

#[test]
fn decoder_keeps_trailing_partial_frame() {
    let first = offer("one");
    let second = offer("two");
    let mut bytes = encode(&first);
    let tail = encode(&second);
    bytes.extend_from_slice(&tail[..3]);
    let mut decoder = FrameDecoder::new();
    decoder.feed(&bytes);
    assert_eq!(decoder.next_message(), Ok(Some(first)));
    assert_eq!(decoder.next_message(), Ok(None));
    assert_eq!(decoder.pending_len(), 3);
    decoder.feed(&tail[3..]);
    assert_eq!(decoder.drain(), (vec![second], None));
    assert_eq!(decoder.pending_len(), 0);
}

#[test]
fn decoder_stops_at_bad_frame() {
    let good = offer("good");
    let mut bytes = encode(&good);
    bytes.extend_from_slice(&[0x02, 0x08, 0x01]);
    bytes.extend_from_slice(&encode(&offer("after")));
    let mut decoder = FrameDecoder::new();
    decoder.feed(&bytes);
    let (messages, failure) = decoder.drain();
    assert_eq!(messages, vec![good]);
    assert_eq!(failure, Some(SignalingError::FormatError("SDP answer missing data".to_string())));
}

#[test]
fn decoder_empty_has_nothing() {
    let mut decoder = FrameDecoder::new();
    assert_eq!(decoder.pending_len(), 0);
    assert_eq!(decoder.next_message(), Ok(None));
    assert_eq!(decoder.drain(), (vec![], None));
}

#[test]
fn message_kind_codes() {
    assert_eq!(MessageType::SdpOffer.code(), 0);
    assert_eq!(MessageType::SdpAnswer.code(), 1);
    assert_eq!(MessageType::IceCandidate.code(), 2);
    assert_eq!(MessageType::from_code(0), Some(MessageType::SdpOffer));
    assert_eq!(MessageType::from_code(1), Some(MessageType::SdpAnswer));
    assert_eq!(MessageType::from_code(2), Some(MessageType::IceCandidate));
    assert_eq!(MessageType::from_code(3), None);
    assert!(offer("x").is_valid());
    assert!(!SignalingMessage { kind: MessageType::SdpOffer, data: None }.is_valid());
}
