//! What holds of the codec for every message: frames read back as written,
//! a frame cut short yields nothing, and frames in a row come out in order.

use vstd::prelude::*;
use vstd::utf8::{encode_utf8, encode_utf8_decode_utf8, encode_utf8_valid_utf8};
use crate::codec::{
    spec_decode_frame, spec_frame, spec_parse_payload, spec_payload, spec_read_varint,
    spec_varint, FrameParse, VarintRead, DATA_FIELD_KEY, KIND_FIELD_KEY, MAX_VARINT_BYTES,
};
use crate::decoder::{spec_decode_all, DecodeRun};
use crate::handler::{spec_event_of, spec_events_of_run, HandlerView};
use crate::message::{ErrorView, MessageType, MessageView};

verus! {

/// 128 to the power of `k`: what `k` varint bytes can count to.
pub open spec fn spec_pow128(k: nat) -> nat
    decreases k,
{
    if k == 0 {
        1
    } else {
        128 * spec_pow128((k - 1) as nat)
    }
}

/// Every 64-bit number is below what ten varint bytes can count to.
pub proof fn lemma_u64_fits_ten_bytes(n: nat)
    requires
        n <= u64::MAX,
    ensures
        n < spec_pow128(MAX_VARINT_BYTES as nat),
{
    reveal_with_fuel(spec_pow128, 11);
}

/// A varint is read back as the number it was written from, whatever follows it.
pub proof fn lemma_varint_round_trip(n: nat, rest: Seq<u8>, limit: nat)
    requires
        n <= u64::MAX,
        1 <= limit <= MAX_VARINT_BYTES,
        n < spec_pow128(limit),
    ensures
        1 <= spec_varint(n).len() <= limit,
        spec_read_varint(spec_varint(n) + rest, limit) == (VarintRead::Value {
            value: n as u64,
            len: spec_varint(n).len() as usize,
        }),
    decreases n,
{
    if n >= 128 {
        reveal_with_fuel(spec_pow128, 2);
        lemma_varint_round_trip(n / 128, rest, (limit - 1) as nat);
        assert((spec_varint(n) + rest).skip(1) =~= spec_varint(n / 128) + rest);
    }
}

/// A varint that is cut short reads as incomplete.
pub proof fn lemma_varint_prefix_incomplete(n: nat, k: nat, limit: nat)
    requires
        limit >= 1,
        n < spec_pow128(limit),
        k < spec_varint(n).len(),
    ensures
        spec_read_varint(spec_varint(n).take(k as int), limit) == VarintRead::Incomplete,
    decreases n,
{
    let bytes = spec_varint(n).take(k as int);
    if k > 0 {
        reveal_with_fuel(spec_pow128, 2);
        lemma_varint_prefix_incomplete(n / 128, (k - 1) as nat, (limit - 1) as nat);
        assert(bytes.skip(1) =~= spec_varint(n / 128).take(k - 1));
    }
}

/// The payload of a message with its data is read back as that message.
pub proof fn lemma_payload_round_trip(message: MessageView)
    requires
        message.data is Some,
        spec_payload(message).len() <= u64::MAX,
    ensures
        spec_parse_payload(spec_payload(message)) == Some(message),
{
    broadcast use encode_utf8_valid_utf8, encode_utf8_decode_utf8;

    let text = message.data.unwrap();
    let data = encode_utf8(text);
    let length = spec_varint(data.len());
    let payload = spec_payload(message);
    lemma_u64_fits_ten_bytes(data.len());
    lemma_varint_round_trip(data.len(), data, MAX_VARINT_BYTES as nat);
    assert(payload =~= seq![KIND_FIELD_KEY, message.kind.spec_code(), DATA_FIELD_KEY] + length
        + data);
    assert(payload.skip(3) =~= length + data);
    assert(payload.skip((3 + length.len()) as int) =~= data);
}

/// Round trip: the frame of a valid message decodes to that message and is
/// taken whole, whatever bytes follow it.
pub proof fn lemma_round_trip(message: MessageView, rest: Seq<u8>)
    requires
        message.data is Some,
        spec_payload(message).len() <= u64::MAX,
    ensures
        spec_decode_frame(spec_frame(message) + rest) == (FrameParse::Message {
            message,
            consumed: spec_frame(message).len(),
        }),
        spec_frame(message).len() > 0,
{
    reveal(spec_decode_frame);
    let payload = spec_payload(message);
    let length = spec_varint(payload.len());
    let bytes = spec_frame(message) + rest;
    lemma_u64_fits_ten_bytes(payload.len());
    lemma_varint_round_trip(payload.len(), payload + rest, MAX_VARINT_BYTES as nat);
    assert(bytes =~= length + (payload + rest));
    assert(bytes.subrange(length.len() as int, (length.len() + payload.len()) as int) =~= payload);
    lemma_payload_round_trip(message);
}

/// A frame without its data is refused, and the refusal names the kind.
pub proof fn lemma_missing_data_rejected(kind: MessageType, rest: Seq<u8>)
    ensures
        spec_decode_frame(spec_frame(MessageView { kind, data: None }) + rest)
            == FrameParse::MissingData(kind),
{
    reveal(spec_decode_frame);
}

/// Incremental feed: while a frame has not arrived whole, nothing is decoded
/// from it, neither a message nor an error.
pub proof fn lemma_prefix_incomplete(message: MessageView, k: nat)
    requires
        spec_payload(message).len() <= u64::MAX,
        k < spec_frame(message).len(),
    ensures
        spec_decode_frame(spec_frame(message).take(k as int)) == FrameParse::Incomplete,
        spec_decode_all(spec_frame(message).take(k as int)) == (DecodeRun {
            messages: Seq::empty(),
            failure: None,
            consumed: 0,
        }),
{
    reveal(spec_decode_frame);
    let payload = spec_payload(message);
    let length = spec_varint(payload.len());
    let bytes = spec_frame(message).take(k as int);
    lemma_u64_fits_ten_bytes(payload.len());
    if k < length.len() {
        lemma_varint_prefix_incomplete(payload.len(), k, MAX_VARINT_BYTES as nat);
        assert(bytes =~= length.take(k as int));
    } else {
        let part = payload.take(k - length.len());
        lemma_varint_round_trip(payload.len(), part, MAX_VARINT_BYTES as nat);
        assert(bytes =~= length + part);
    }
}

/// Decoding all of one whole frame of a valid message gives that message
/// once, and what follows the frame is decoded after it.
pub proof fn lemma_decode_all_frame(message: MessageView, rest: Seq<u8>)
    requires
        message.data is Some,
        spec_payload(message).len() <= u64::MAX,
    ensures
        spec_decode_all(spec_frame(message) + rest).messages == seq![message] + spec_decode_all(
            rest,
        ).messages,
        spec_decode_all(spec_frame(message) + rest).failure == spec_decode_all(rest).failure,
        spec_decode_all(spec_frame(message) + rest).consumed == spec_frame(message).len()
            + spec_decode_all(rest).consumed,
{
    lemma_round_trip(message, rest);
    let bytes = spec_frame(message) + rest;
    assert(bytes.skip(spec_frame(message).len() as int) =~= rest);
}

/// Batch decode: two frames in a row decode to both messages, in the order
/// in which they were encoded, and nothing is left over.
pub proof fn lemma_batch_decode(first: MessageView, second: MessageView)
    requires
        first.data is Some,
        second.data is Some,
        spec_payload(first).len() <= u64::MAX,
        spec_payload(second).len() <= u64::MAX,
    ensures
        spec_decode_all(spec_frame(first) + spec_frame(second)) == (DecodeRun {
            messages: seq![first, second],
            failure: None,
            consumed: spec_frame(first).len() + spec_frame(second).len(),
        }),
{
    reveal(spec_decode_frame);
    let nothing = Seq::<u8>::empty();
    lemma_decode_all_frame(first, spec_frame(second));
    lemma_decode_all_frame(second, nothing);
    assert(seq![first] + (seq![second] + Seq::<MessageView>::empty()) =~= seq![first, second]);
}

/// What comes of bytes that arrive one at a time.
pub ghost struct FeedRun {
    /// The messages handed out, in order.
    pub messages: Seq<MessageView>,
    /// The error that stopped decoding, if one did.
    pub failure: Option<ErrorView>,
    /// The bytes that still wait for the rest of their frame.
    pub waiting: Seq<u8>,
}

/// Feeds `bytes` one at a time to a decoder that holds `waiting`, decoding
/// all that is complete after each byte, until the bytes end or a frame is
/// wrong.
pub open spec fn spec_feed_each(waiting: Seq<u8>, bytes: Seq<u8>) -> FeedRun
    decreases bytes.len(),
{
    if bytes.len() == 0 {
        FeedRun { messages: Seq::empty(), failure: None, waiting }
    } else {
        let fed = waiting.push(bytes[0]);
        let run = spec_decode_all(fed);
        if run.failure is Some {
            FeedRun {
                messages: run.messages,
                failure: run.failure,
                waiting: fed.skip(run.consumed as int),
            }
        } else {
            let later = spec_feed_each(fed.skip(run.consumed as int), bytes.drop_first());
            FeedRun {
                messages: run.messages + later.messages,
                failure: later.failure,
                waiting: later.waiting,
            }
        }
    }
}

/// A frame of which the first `k` bytes wait and the others arrive one at a
/// time gives its message once, when the last byte is there.
pub proof fn lemma_feed_rest_of_frame(message: MessageView, k: nat)
    requires
        message.data is Some,
        spec_payload(message).len() <= u64::MAX,
        k < spec_frame(message).len(),
    ensures
        spec_feed_each(spec_frame(message).take(k as int), spec_frame(message).skip(k as int))
            == (FeedRun { messages: seq![message], failure: None, waiting: Seq::empty() }),
    decreases spec_frame(message).len() - k,
{
    reveal(spec_decode_frame);
    let frame = spec_frame(message);
    let waiting = frame.take(k as int);
    let bytes = frame.skip(k as int);
    let fed = waiting.push(bytes[0]);
    let nothing = Seq::<u8>::empty();
    assert(fed =~= frame.take((k + 1) as int));
    assert(bytes.drop_first() =~= frame.skip((k + 1) as int));
    if k + 1 < frame.len() {
        lemma_prefix_incomplete(message, k + 1);
        lemma_feed_rest_of_frame(message, k + 1);
        assert(fed.skip(0) =~= fed);
    } else {
        assert(fed =~= frame + nothing);
        lemma_decode_all_frame(message, nothing);
        assert(fed.skip(frame.len() as int) =~= nothing);
        assert(spec_feed_each(nothing, bytes.drop_first()) == (FeedRun {
            messages: Seq::empty(),
            failure: None,
            waiting: nothing,
        }));
    }
}

/// Incremental feed: the bytes of a frame, delivered one at a time, give the
/// same as the whole frame decoded at once: its message, once, with nothing
/// left waiting.
pub proof fn lemma_incremental_feed(message: MessageView)
    requires
        message.data is Some,
        spec_payload(message).len() <= u64::MAX,
    ensures
        spec_feed_each(Seq::empty(), spec_frame(message)) == (FeedRun {
            messages: seq![message],
            failure: None,
            waiting: Seq::empty(),
        }),
        spec_decode_all(spec_frame(message)) == (DecodeRun {
            messages: seq![message],
            failure: None,
            consumed: spec_frame(message).len(),
        }),
{
    reveal(spec_decode_frame);
    let frame = spec_frame(message);
    let nothing = Seq::<u8>::empty();
    lemma_round_trip(message, nothing);
    lemma_feed_rest_of_frame(message, 0);
    assert(frame.take(0) =~= nothing);
    assert(frame.skip(0) =~= frame);
    lemma_decode_all_frame(message, nothing);
}

/// The state of a handler after `polls` polls in a row.
pub open spec fn spec_after_polls(state: HandlerView, polls: nat) -> HandlerView
    decreases polls,
{
    if polls == 0 {
        state
    } else {
        spec_after_polls(state.after_poll(), (polls - 1) as nat)
    }
}

/// FIFO delivery: polls hand out the waiting events in the order in which
/// they were queued, each once. After `k` polls the next one hands out the
/// event at place `k`, and the events behind it still wait, in their order.
pub proof fn lemma_fifo_delivery(state: HandlerView, k: nat)
    requires
        k < state.events.len(),
    ensures
        spec_after_polls(state, k).polled() == Some(state.events[k as int]),
        spec_after_polls(state, k).events == state.events.skip(k as int),
        spec_after_polls(state, k + 1).events == state.events.skip((k + 1) as int),
    decreases k,
{
    lemma_polls_skip(state, k);
    lemma_polls_skip(state, k + 1);
}

/// Polls that find an event each remove the events from the front, in order.
pub proof fn lemma_polls_skip(state: HandlerView, polls: nat)
    requires
        polls <= state.events.len(),
    ensures
        spec_after_polls(state, polls) == (HandlerView {
            events: state.events.skip(polls as int),
            ..state
        }),
    decreases polls,
{
    if polls == 0 {
        assert(state.events.skip(0) =~= state.events);
    } else {
        lemma_polls_skip(state.after_poll(), (polls - 1) as nat);
        assert(state.events.drop_first().skip(polls - 1) =~= state.events.skip(polls as int));
    }
}

/// Once every waiting event was handed out, a poll hands out none.
pub proof fn lemma_delivered_once(state: HandlerView)
    ensures
        spec_after_polls(state, state.events.len()).polled() is None,
{
    lemma_polls_skip(state, state.events.len());
}

/// A varint that was read takes at least one byte and no more than there are.
pub proof fn lemma_read_varint_len(bytes: Seq<u8>, limit: nat)
    requires
        limit <= MAX_VARINT_BYTES,
        spec_read_varint(bytes, limit) is Value,
    ensures
        1 <= spec_read_varint(bytes, limit)->len <= bytes.len(),
        spec_read_varint(bytes, limit)->len <= limit,
    decreases limit,
{
    if limit > 0 && bytes.len() > 0 && bytes[0] >= 128 {
        lemma_read_varint_len(bytes.skip(1), (limit - 1) as nat);
    }
}

/// Once a varint is read or refused, more bytes behind it change nothing.
pub proof fn lemma_read_varint_stable(bytes: Seq<u8>, more: Seq<u8>, limit: nat)
    requires
        !(spec_read_varint(bytes, limit) is Incomplete),
    ensures
        spec_read_varint(bytes + more, limit) == spec_read_varint(bytes, limit),
    decreases limit,
{
    if limit > 0 && bytes.len() > 0 {
        if bytes[0] >= 128 {
            assert((bytes + more).skip(1) =~= bytes.skip(1) + more);
            lemma_read_varint_stable(bytes.skip(1), more, (limit - 1) as nat);
        }
    }
}

/// A decoded frame takes at least one byte and no more than there are.
pub proof fn lemma_frame_consumed(bytes: Seq<u8>)
    requires
        spec_decode_frame(bytes) is Message,
    ensures
        0 < spec_decode_frame(bytes)->consumed <= bytes.len(),
{
    reveal(spec_decode_frame);
    lemma_read_varint_len(bytes, MAX_VARINT_BYTES as nat);
}

/// Once the front of the bytes decodes to a message or is refused, more
/// bytes behind it change nothing.
pub proof fn lemma_frame_stable(bytes: Seq<u8>, more: Seq<u8>)
    requires
        !(spec_decode_frame(bytes) is Incomplete),
    ensures
        spec_decode_frame(bytes + more) == spec_decode_frame(bytes),
{
    reveal(spec_decode_frame);
    lemma_read_varint_stable(bytes, more, MAX_VARINT_BYTES as nat);
    match spec_read_varint(bytes, MAX_VARINT_BYTES as nat) {
        VarintRead::Value { value, len } => {
            lemma_read_varint_len(bytes, MAX_VARINT_BYTES as nat);
            assert((bytes + more).subrange(len as int, len + value) =~= bytes.subrange(
                len as int,
                len + value,
            ));
        },
        _ => {},
    }
}

/// Decoding all starts with the first frame, if there is a whole valid one,
/// and goes on behind it.
pub proof fn lemma_decode_all_step(bytes: Seq<u8>)
    requires
        spec_decode_frame(bytes) is Message,
    ensures
        0 < spec_decode_frame(bytes)->consumed <= bytes.len(),
        spec_decode_all(bytes) == ({
            let consumed = spec_decode_frame(bytes)->consumed;
            let rest = spec_decode_all(bytes.skip(consumed as int));
            DecodeRun {
                messages: seq![spec_decode_frame(bytes)->message] + rest.messages,
                failure: rest.failure,
                consumed: consumed + rest.consumed,
            }
        }),
{
    lemma_frame_consumed(bytes);
}

/// Decoding all stops at once where there is no whole valid frame.
pub proof fn lemma_decode_all_stop(bytes: Seq<u8>)
    requires
        !(spec_decode_frame(bytes) is Message),
    ensures
        spec_decode_all(bytes).messages == Seq::<MessageView>::empty(),
        spec_decode_all(bytes).consumed == 0,
        spec_decode_all(bytes).failure is None <==> spec_decode_frame(bytes) is Incomplete,
{
}

/// Two runs of decoding, one after the other, as one run.
pub open spec fn spec_join(early: DecodeRun, late: DecodeRun) -> DecodeRun {
    DecodeRun {
        messages: early.messages + late.messages,
        failure: late.failure,
        consumed: early.consumed + late.consumed,
    }
}

/// A message in front of two joined runs belongs to the first of them.
pub proof fn lemma_join_behind(message: MessageView, consumed: nat, early: DecodeRun, late: DecodeRun)
    ensures
        spec_join(
            DecodeRun {
                messages: seq![message] + early.messages,
                failure: early.failure,
                consumed: consumed + early.consumed,
            },
            late,
        ) == (DecodeRun {
            messages: seq![message] + spec_join(early, late).messages,
            failure: spec_join(early, late).failure,
            consumed: consumed + spec_join(early, late).consumed,
        }),
{
    assert((seq![message] + early.messages) + late.messages =~= seq![message] + (early.messages
        + late.messages));
}

/// Incremental feed, for any bytes cut at any place: decoding a first part,
/// keeping what it leaves, and decoding again once the second part is there
/// gives the messages of decoding both parts at once, in the same order.
pub proof fn lemma_decode_in_parts(first: Seq<u8>, second: Seq<u8>)
    requires
        spec_decode_all(first).failure is None,
    ensures
        spec_decode_all(first).consumed <= first.len(),
        spec_decode_all(first + second) == spec_join(
            spec_decode_all(first),
            spec_decode_all(first.skip(spec_decode_all(first).consumed as int) + second),
        ),
    decreases first.len(),
{
    if spec_decode_frame(first) is Message {
        let message = spec_decode_frame(first)->message;
        let consumed = spec_decode_frame(first)->consumed;
        let rest = first.skip(consumed as int);
        let inner = spec_decode_all(rest);
        lemma_decode_all_step(first);
        lemma_frame_stable(first, second);
        lemma_decode_all_step(first + second);
        lemma_decode_in_parts(rest, second);
        let left = rest.skip(inner.consumed as int);
        let late = spec_decode_all(left + second);
        assert((first + second).skip(consumed as int) == rest + second);
        assert(left == first.skip((consumed + inner.consumed) as int));
        lemma_join_behind(message, consumed, inner, late);
    } else {
        lemma_decode_all_stop(first);
        lemma_join_nothing(first, second);
    }
}

/// Where the first part holds no whole frame, all is decoded once the
/// second part is there.
pub proof fn lemma_join_nothing(first: Seq<u8>, second: Seq<u8>)
    ensures
        first.skip(0) + second == first + second,
        spec_join(
            DecodeRun { messages: Seq::empty(), failure: None, consumed: 0 },
            spec_decode_all(first + second),
        ) == spec_decode_all(first + second),
{
}

/// Delivery: the frame that one side writes for a valid message is, on the
/// side that reads it with nothing waiting, exactly one event, the one that
/// tells of this message, and no error.
pub proof fn lemma_frame_delivers_one_event(message: MessageView)
    requires
        message.data is Some,
        spec_payload(message).len() <= u64::MAX,
    ensures
        spec_events_of_run(
            spec_decode_all(Seq::<u8>::empty() + spec_frame(message)).messages,
            spec_decode_all(Seq::<u8>::empty() + spec_frame(message)).failure,
        ) == seq![spec_event_of(message)],
        spec_decode_all(Seq::<u8>::empty() + spec_frame(message)).consumed == spec_frame(
            message,
        ).len(),
{
    lemma_incremental_feed(message);
    assert(seq![message].map_values(|message: MessageView| spec_event_of(message)) =~= seq![
        spec_event_of(message),
    ]);
}

} // verus!
