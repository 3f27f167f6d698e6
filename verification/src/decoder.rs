//! Resumable decoding: an accumulation buffer and a cursor into it.
//!
//! Bytes arrive in pieces of any size. The decoder keeps what has not been
//! decoded yet and hands out every message whose frame is complete.

use vstd::prelude::*;
use crate::codec::{decode_frame, spec_decode_frame, FrameParse};
use crate::message::{
    spec_malformed_text, spec_missing_data_text, ErrorView, MessageView, SignalingError,
    SignalingMessage,
};

verus! {

/// What decoding as many frames as possible from some bytes gives.
pub ghost struct DecodeRun {
    /// The messages of the complete frames, in the order of their frames.
    pub messages: Seq<MessageView>,
    /// The error that stopped the run, if one did.
    pub failure: Option<ErrorView>,
    /// The number of bytes that the decoded frames take.
    pub consumed: nat,
}

/// Decodes frames from the front of `bytes` until one is incomplete or wrong.
pub open spec fn spec_decode_all(bytes: Seq<u8>) -> DecodeRun
    decreases bytes.len(),
{
    match spec_decode_frame(bytes) {
        FrameParse::Incomplete => DecodeRun { messages: Seq::empty(), failure: None, consumed: 0 },
        FrameParse::Malformed => DecodeRun {
            messages: Seq::empty(),
            failure: Some(ErrorView::FormatError(spec_malformed_text())),
            consumed: 0,
        },
        FrameParse::MissingData(kind) => DecodeRun {
            messages: Seq::empty(),
            failure: Some(ErrorView::FormatError(spec_missing_data_text(kind))),
            consumed: 0,
        },
        FrameParse::Message { message, consumed } => {
            if 0 < consumed <= bytes.len() {
                let rest = spec_decode_all(bytes.skip(consumed as int));
                DecodeRun {
                    messages: seq![message] + rest.messages,
                    failure: rest.failure,
                    consumed: consumed + rest.consumed,
                }
            } else {
                DecodeRun { messages: Seq::empty(), failure: None, consumed: 0 }
            }
        },
    }
}

/// The contents of a sequence of messages.
pub open spec fn spec_message_views(messages: Seq<SignalingMessage>) -> Seq<MessageView> {
    messages.map_values(|message: SignalingMessage| message@)
}

/// The content of an optional error.
pub open spec fn spec_failure_view(failure: Option<SignalingError>) -> Option<ErrorView> {
    match failure {
        Some(error) => Some(error@),
        None => None,
    }
}

/// The bytes received and not yet decoded.
#[derive(Clone, Debug)]
pub struct FrameDecoder {
    buffer: Vec<u8>,
    cursor: usize,
}

impl FrameDecoder {
    /// The cursor stays inside the buffer.
    pub closed spec fn wf(&self) -> bool {
        self.cursor <= self.buffer@.len()
    }

    /// The bytes that were fed and that no decoded frame has taken.
    pub closed spec fn pending(&self) -> Seq<u8> {
        self.buffer@.skip(self.cursor as int)
    }

    /// A decoder that holds no bytes.
    pub fn new() -> (decoder: FrameDecoder)
        ensures
            decoder.wf(),
            decoder.pending() == Seq::<u8>::empty(),
    {
        let decoder = FrameDecoder { buffer: Vec::new(), cursor: 0 };
        decoder
    }

    /// The number of bytes that wait for the rest of their frame.
    pub fn pending_len(&self) -> (n: usize)
        requires
            self.wf(),
        ensures
            n == self.pending().len(),
    {
        self.buffer.len() - self.cursor
    }

    /// Adds bytes behind those that are waiting.
    pub fn feed(&mut self, bytes: &[u8])
        requires
            old(self).wf(),
        ensures
            final(self).wf(),
            final(self).pending() == old(self).pending() + bytes@,
    {
        if self.cursor > 0 {
            let rest = self.buffer.split_off(self.cursor);
            self.buffer = rest;
            self.cursor = 0;
        }
        self.buffer.extend_from_slice(bytes);
    }

    /// Decodes the next frame if it is complete, and moves past it.
    pub fn next_message(&mut self) -> (decoded: Result<Option<SignalingMessage>, SignalingError>)
        requires
            old(self).wf(),
        ensures
            final(self).wf(),
            match spec_decode_frame(old(self).pending()) {
                FrameParse::Incomplete => {
                    &&& decoded is Ok
                    &&& decoded.unwrap() is None
                    &&& final(self).pending() == old(self).pending()
                },
                FrameParse::Malformed => {
                    &&& decoded is Err
                    &&& decoded.unwrap_err()@ == ErrorView::FormatError(spec_malformed_text())
                    &&& final(self).pending() == old(self).pending()
                },
                FrameParse::MissingData(kind) => {
                    &&& decoded is Err
                    &&& decoded.unwrap_err()@ == ErrorView::FormatError(
                        spec_missing_data_text(kind),
                    )
                    &&& final(self).pending() == old(self).pending()
                },
                FrameParse::Message { message, consumed } => {
                    &&& decoded is Ok
                    &&& decoded.unwrap() is Some
                    &&& decoded.unwrap().unwrap()@ == message
                    &&& message.data is Some
                    &&& 0 < consumed <= old(self).pending().len()
                    &&& final(self).pending() == old(self).pending().skip(consumed as int)
                },
            },
    {
        match decode_frame(self.buffer.as_slice(), self.cursor) {
            Ok(Some((message, consumed))) => {
                assert(self.cursor + consumed <= self.buffer.len());
                self.cursor = self.cursor + consumed;
                Ok(Some(message))
            },
            Ok(None) => Ok(None),
            Err(error) => Err(error),
        }
    }

    /// Decodes every complete frame that is waiting, in order, and stops at
    /// the first frame that is incomplete or wrong.
    pub fn drain(&mut self) -> (out: (Vec<SignalingMessage>, Option<SignalingError>))
        requires
            old(self).wf(),
        ensures
            final(self).wf(),
            spec_message_views(out.0@) == spec_decode_all(old(self).pending()).messages,
            spec_failure_view(out.1) == spec_decode_all(old(self).pending()).failure,
            spec_decode_all(old(self).pending()).consumed <= old(self).pending().len(),
            final(self).pending() == old(self).pending().skip(
                spec_decode_all(old(self).pending()).consumed as int,
            ),
    {
        let mut messages: Vec<SignalingMessage> = Vec::new();
        let mut failure: Option<SignalingError> = None;
        let mut running = true;
        let ghost start = old(self).pending();
        let ghost run = spec_decode_all(start);
        let ghost mut taken: nat = 0;
        while running
            invariant
                self.wf(),
                taken <= start.len(),
                self.pending() == start.skip(taken as int),
                running ==> {
                    &&& failure is None
                    &&& run.messages == spec_message_views(messages@) + spec_decode_all(
                        self.pending(),
                    ).messages
                    &&& run.failure == spec_decode_all(self.pending()).failure
                    &&& run.consumed == taken + spec_decode_all(self.pending()).consumed
                },
                !running ==> {
                    &&& run.messages == spec_message_views(messages@)
                    &&& run.failure == spec_failure_view(failure)
                    &&& run.consumed == taken
                },
            decreases start.len() - taken + (if running { 1nat } else { 0nat }),
        {
            let ghost before = self.pending();
            let ghost done = spec_message_views(messages@);
            match self.next_message() {
                Ok(Some(message)) => {
                    let ghost step = spec_decode_frame(before)->consumed;
                    let ghost content = message@;
                    messages.push(message);
                    proof {
                        assert(done + (seq![content] + spec_decode_all(
                            self.pending(),
                        ).messages) =~= done.push(content) + spec_decode_all(
                            self.pending(),
                        ).messages);
                        assert(start.skip(taken as int).skip(step as int) =~= start.skip(
                            (taken + step) as int,
                        ));
                        taken = taken + step;
                    }
                },
                Ok(None) => {
                    running = false;
                },
                Err(error) => {
                    failure = Some(error);
                    running = false;
                },
            }
        }
        (messages, failure)
    }
}

} // verus!
