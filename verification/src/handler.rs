//! The per-connection handler: two substream state machines, the queue of
//! messages to send and the queue of events to hand up.
//!
//! The handler never touches a stream. `poll` says what to do next; the caller
//! writes and reads, and reports how each attempt went.

use std::collections::VecDeque;
use vstd::prelude::*;
use crate::codec::{encode, spec_decode_frame, spec_frame, spec_payload};
use crate::decoder::{spec_decode_all, FrameDecoder};
use crate::message::{
    missing_data, spec_missing_data_text, ErrorView, MessageType, MessageView, SignalingError,
    SignalingMessage,
};

verus! {

/// The protocol identifier that both sides name when they negotiate a substream.
pub const PROTOCOL_NAME: &'static str = "/webrtc-signaling/0.0.1";

/// The upgrade that a substream of this protocol goes through: it only names
/// the protocol.
#[derive(Clone, Copy, Debug)]
pub struct SignalingConfig;

impl SignalingConfig {
    /// The one protocol identifier that is offered and accepted.
    pub fn protocol_info(&self) -> (name: &'static str)
        ensures
            name@ == PROTOCOL_NAME@,
    {
        PROTOCOL_NAME
    }
}

/// Why a substream went wrong.
#[derive(Clone, Copy, Debug, PartialEq, Eq, Structural)]
pub enum FailureCause {
    /// Negotiation failed.
    Upgrade,
    /// A read or write failed, or the stream ended.
    Io,
    /// A frame could not be decoded.
    Format,
}

/// Where one direction of a connection stands.
#[derive(Clone, Copy, Debug, PartialEq, Eq, Structural)]
pub enum SubstreamState {
    /// No stream.
    Idle,
    /// Negotiation is under way.
    Negotiating,
    /// The stream can be used.
    Open,
    /// The stream is being closed.
    Closing,
    /// The stream failed.
    Errored(FailureCause),
}

/// The content of a [`HandlerOutEvent`].
pub ghost enum HandlerOutEventView {
    ReceivedOffer(Seq<char>),
    ReceivedAnswer(Seq<char>),
    ReceivedIceCandidate(Seq<char>),
    Error(ErrorView),
}

/// What a handler tells the behaviour.
#[derive(Clone, Debug, PartialEq, Eq)]
pub enum HandlerOutEvent {
    ReceivedOffer(String),
    ReceivedAnswer(String),
    ReceivedIceCandidate(String),
    /// A substream reached a terminal error.
    Error(SignalingError),
}

impl View for HandlerOutEvent {
    type V = HandlerOutEventView;

    open spec fn view(&self) -> HandlerOutEventView {
        match self {
            HandlerOutEvent::ReceivedOffer(text) => HandlerOutEventView::ReceivedOffer(text@),
            HandlerOutEvent::ReceivedAnswer(text) => HandlerOutEventView::ReceivedAnswer(text@),
            HandlerOutEvent::ReceivedIceCandidate(text) => HandlerOutEventView::ReceivedIceCandidate(
                text@,
            ),
            HandlerOutEvent::Error(error) => HandlerOutEventView::Error(error@),
        }
    }
}

/// The content of a [`HandlerEvent`].
pub ghost enum HandlerEventView {
    OutboundSubstreamRequest,
    NotifyBehaviour(HandlerOutEventView),
}

/// What waits in a handler for the connection's driver.
#[derive(Clone, Debug, PartialEq, Eq)]
pub enum HandlerEvent {
    /// Open a new outbound substream for this protocol.
    OutboundSubstreamRequest,
    /// Hand this event to the behaviour.
    NotifyBehaviour(HandlerOutEvent),
}

impl View for HandlerEvent {
    type V = HandlerEventView;

    open spec fn view(&self) -> HandlerEventView {
        match self {
            HandlerEvent::OutboundSubstreamRequest => HandlerEventView::OutboundSubstreamRequest,
            HandlerEvent::NotifyBehaviour(event) => HandlerEventView::NotifyBehaviour(event@),
        }
    }
}

/// What the connection's driver reports about substreams.
#[derive(Clone, Debug, PartialEq, Eq)]
pub enum ConnectionEvent {
    /// The peer opened a substream and negotiation succeeded.
    FullyNegotiatedInbound,
    /// The substream that was asked for is ready.
    FullyNegotiatedOutbound,
    /// The substream that was asked for could not be negotiated.
    DialUpgradeError(String),
    /// A substream that the peer opened could not be negotiated.
    ListenUpgradeError(String),
    /// The remote address changed.
    AddressChange,
    /// Anything else.
    Other,
}

/// How an attempt to write the head frame went.
#[derive(Clone, Debug, PartialEq, Eq)]
pub enum WriteOutcome {
    /// The whole frame was written.
    Complete,
    /// Nothing could be written now.
    WouldBlock,
    /// The stream failed.
    Failed(String),
}

/// How an attempt to read went.
#[derive(Clone, Debug, PartialEq, Eq)]
pub enum ReadOutcome {
    /// The bytes that were read; none at all means that the stream ended.
    Data(Vec<u8>),
    /// Nothing could be read now.
    WouldBlock,
    /// The stream failed.
    Failed(String),
}

/// What `poll` asks of its caller.
#[derive(Clone, Debug, PartialEq, Eq)]
pub enum PollOutcome {
    /// An event to deliver.
    Ready(HandlerEvent),
    /// Streams to try: the frame to write on the outbound substream, if one
    /// is due, and whether to read from the inbound substream.
    Io { write: Option<Vec<u8>>, read: bool },
    /// No progress can be made.
    Pending,
}

/// The state of a handler, as the contracts see it.
pub ghost struct HandlerView {
    /// The events that wait to be polled, oldest first.
    pub events: Seq<HandlerEventView>,
    /// The messages that wait to be written, oldest first.
    pub queue: Seq<MessageView>,
    pub outbound: SubstreamState,
    pub inbound: SubstreamState,
    /// The bytes that were read and belong to no decoded frame yet.
    pub unread: Seq<u8>,
}

impl HandlerView {
    /// The connection is worth keeping unless outbound signaling is broken.
    pub open spec fn keep_alive(self) -> bool {
        !(self.outbound == SubstreamState::Errored(FailureCause::Upgrade) || self.outbound
            == SubstreamState::Errored(FailureCause::Io))
    }

    /// The event that the next poll hands out, if one waits.
    pub open spec fn polled(self) -> Option<HandlerEventView> {
        if self.events.len() > 0 {
            Some(self.events[0])
        } else {
            None
        }
    }

    /// The state after the next poll: the oldest event, if any, is gone.
    pub open spec fn after_poll(self) -> HandlerView {
        if self.events.len() > 0 {
            HandlerView { events: self.events.drop_first(), ..self }
        } else {
            self
        }
    }

    /// A send request starts a negotiation unless a substream is there or on
    /// its way.
    pub open spec fn starts_negotiation(self) -> bool {
        !(self.outbound == SubstreamState::Negotiating || self.outbound == SubstreamState::Open)
    }
}

/// The event that tells of a received message; the message holds its data.
pub open spec fn spec_event_of(message: MessageView) -> HandlerEventView {
    let text = message.data.unwrap();
    HandlerEventView::NotifyBehaviour(
        match message.kind {
            MessageType::SdpOffer => HandlerOutEventView::ReceivedOffer(text),
            MessageType::SdpAnswer => HandlerOutEventView::ReceivedAnswer(text),
            MessageType::IceCandidate => HandlerOutEventView::ReceivedIceCandidate(text),
        },
    )
}

/// The event that tells of a terminal error.
pub open spec fn spec_error_event(error: ErrorView) -> HandlerEventView {
    HandlerEventView::NotifyBehaviour(HandlerOutEventView::Error(error))
}

/// The events that a run of decoding adds: one for each message, in order,
/// then one for the failure, if there is one.
pub open spec fn spec_events_of_run(
    messages: Seq<MessageView>,
    failure: Option<ErrorView>,
) -> Seq<HandlerEventView> {
    let received = messages.map_values(|message: MessageView| spec_event_of(message));
    match failure {
        Some(error) => received.push(spec_error_event(error)),
        None => received,
    }
}

/// The description of a stream that ended between two frames.
pub open spec fn spec_end_of_stream_text() -> Seq<char> {
    "End of stream"@
}

/// The description of a stream that ended inside a frame.
pub open spec fn spec_truncated_text() -> Seq<char> {
    "Truncated frame"@
}

/// The state machine of one connection.
#[derive(Clone, Debug)]
pub struct Handler {
    events: VecDeque<HandlerEvent>,
    outbound_messages: VecDeque<SignalingMessage>,
    outbound_substream: SubstreamState,
    inbound_substream: SubstreamState,
    decoder: FrameDecoder,
    keep_alive: bool,
}

impl View for Handler {
    type V = HandlerView;

    closed spec fn view(&self) -> HandlerView {
        HandlerView {
            events: self.events@.map_values(|event: HandlerEvent| event@),
            queue: self.outbound_messages@.map_values(|message: SignalingMessage| message@),
            outbound: self.outbound_substream,
            inbound: self.inbound_substream,
            unread: self.decoder.pending(),
        }
    }
}

impl Handler {
    /// The keep-alive flag agrees with the outbound substream, and the decoder
    /// is in order.
    pub closed spec fn wf(&self) -> bool {
        &&& self.decoder.wf()
        &&& self.keep_alive == self@.keep_alive()
    }

    /// The handler of a connection that was just established.
    pub fn new() -> (handler: Handler)
        ensures
            handler.wf(),
            handler@ == (HandlerView {
                events: Seq::empty(),
                queue: Seq::empty(),
                outbound: SubstreamState::Idle,
                inbound: SubstreamState::Idle,
                unread: Seq::empty(),
            }),
    {
        let handler = Handler {
            events: VecDeque::new(),
            outbound_messages: VecDeque::new(),
            outbound_substream: SubstreamState::Idle,
            inbound_substream: SubstreamState::Idle,
            decoder: FrameDecoder::new(),
            keep_alive: true,
        };
        assert(handler@.events =~= Seq::<HandlerEventView>::empty());
        assert(handler@.queue =~= Seq::<MessageView>::empty());
        handler
    }

    /// Where the outbound substream stands.
    pub fn outbound_state(&self) -> (state: SubstreamState)
        ensures
            state == self@.outbound,
    {
        self.outbound_substream
    }

    /// Where the inbound substream stands.
    pub fn inbound_state(&self) -> (state: SubstreamState)
        ensures
            state == self@.inbound,
    {
        self.inbound_substream
    }

    /// The number of messages that wait to be written.
    pub fn queued(&self) -> (n: usize)
        ensures
            n == self@.queue.len(),
    {
        self.outbound_messages.len()
    }

    /// Whether the connection should be kept open: true unless the outbound
    /// substream failed to negotiate or to write.
    pub fn connection_keep_alive(&self) -> (alive: bool)
        requires
            self.wf(),
        ensures
            alive == self@.keep_alive(),
    {
        self.keep_alive
    }

    fn push_event(&mut self, event: HandlerEvent)
        requires
            old(self).wf(),
        ensures
            final(self).wf(),
            final(self)@ == (HandlerView {
                events: old(self)@.events.push(event@),
                ..old(self)@
            }),
    {
        self.events.push_back(event);
        assert(self@.events =~= old(self)@.events.push(event@));
    }

    /// Turns a received message into the event that tells of it and queues
    /// the event behind those that wait. A message without data is refused
    /// and queues nothing.
    pub fn process_message(&mut self, message: SignalingMessage) -> (done: Result<
        (),
        SignalingError,
    >)
        requires
            old(self).wf(),
        ensures
            final(self).wf(),
            message@.data is Some ==> done is Ok && final(self)@ == (HandlerView {
                events: old(self)@.events.push(spec_event_of(message@)),
                ..old(self)@
            }),
            message@.data is None ==> done is Err && done.unwrap_err()@ == ErrorView::FormatError(
                spec_missing_data_text(message.kind),
            ) && final(self)@ == old(self)@,
    {
        let kind = message.kind;
        match message.data {
            Some(data) => {
                let event = match kind {
                    MessageType::SdpOffer => HandlerOutEvent::ReceivedOffer(data),
                    MessageType::SdpAnswer => HandlerOutEvent::ReceivedAnswer(data),
                    MessageType::IceCandidate => HandlerOutEvent::ReceivedIceCandidate(data),
                };
                self.push_event(HandlerEvent::NotifyBehaviour(event));
                Ok(())
            },
            None => Err(missing_data(kind)),
        }
    }

    /// Takes a message to send: it joins the queue, and where no outbound
    /// substream is open or on its way, one is asked for.
    pub fn on_behaviour_event(&mut self, message: SignalingMessage)
        requires
            old(self).wf(),
        ensures
            final(self).wf(),
            old(self)@.starts_negotiation() ==> final(self)@ == (HandlerView {
                queue: old(self)@.queue.push(message@),
                outbound: SubstreamState::Negotiating,
                events: old(self)@.events.push(HandlerEventView::OutboundSubstreamRequest),
                ..old(self)@
            }),
            !old(self)@.starts_negotiation() ==> final(self)@ == (HandlerView {
                queue: old(self)@.queue.push(message@),
                ..old(self)@
            }),
    {
        let ghost content = message@;
        self.outbound_messages.push_back(message);
        assert(self@.queue =~= old(self)@.queue.push(content));
        match self.outbound_substream {
            SubstreamState::Negotiating | SubstreamState::Open => {},
            _ => {
                self.outbound_substream = SubstreamState::Negotiating;
                self.keep_alive = true;
                self.push_event(HandlerEvent::OutboundSubstreamRequest);
            },
        }
    }

    /// Follows what the driver reports about substreams.
    ///
    /// A negotiated substream is open; an inbound one starts with nothing
    /// read. An outbound negotiation failure is a terminal error and ends
    /// keep-alive. An inbound one is a terminal error unless an inbound
    /// substream is open, which it leaves alone; it never touches keep-alive.
    /// Every terminal error is queued as an event. Other reports change
    /// nothing.
    pub fn on_connection_event(&mut self, event: ConnectionEvent)
        requires
            old(self).wf(),
        ensures
            final(self).wf(),
            event is DialUpgradeError ==> !final(self)@.keep_alive(),
            event is ListenUpgradeError ==> final(self)@.keep_alive() == old(self)@.keep_alive(),
            match event {
                ConnectionEvent::FullyNegotiatedInbound => final(self)@ == (HandlerView {
                    inbound: SubstreamState::Open,
                    unread: Seq::empty(),
                    ..old(self)@
                }),
                ConnectionEvent::FullyNegotiatedOutbound => final(self)@ == (HandlerView {
                    outbound: SubstreamState::Open,
                    ..old(self)@
                }),
                ConnectionEvent::DialUpgradeError(text) => final(self)@ == (HandlerView {
                    outbound: SubstreamState::Errored(FailureCause::Upgrade),
                    events: old(self)@.events.push(
                        spec_error_event(ErrorView::UpgradeError(text@)),
                    ),
                    ..old(self)@
                }),
                ConnectionEvent::ListenUpgradeError(text) => {
                    if old(self)@.inbound == SubstreamState::Open {
                        final(self)@ == old(self)@
                    } else {
                        final(self)@ == (HandlerView {
                            inbound: SubstreamState::Errored(FailureCause::Upgrade),
                            events: old(self)@.events.push(
                                spec_error_event(ErrorView::UpgradeError(text@)),
                            ),
                            ..old(self)@
                        })
                    }
                },
                ConnectionEvent::AddressChange => final(self)@ == old(self)@,
                ConnectionEvent::Other => final(self)@ == old(self)@,
            },
    {
        match event {
            ConnectionEvent::FullyNegotiatedInbound => {
                self.inbound_substream = SubstreamState::Open;
                self.decoder = FrameDecoder::new();
            },
            ConnectionEvent::FullyNegotiatedOutbound => {
                self.outbound_substream = SubstreamState::Open;
                self.keep_alive = true;
            },
            ConnectionEvent::DialUpgradeError(text) => {
                self.outbound_substream = SubstreamState::Errored(FailureCause::Upgrade);
                self.keep_alive = false;
                self.push_event(
                    HandlerEvent::NotifyBehaviour(
                        HandlerOutEvent::Error(SignalingError::UpgradeError(text)),
                    ),
                );
            },
            ConnectionEvent::ListenUpgradeError(text) => {
                match self.inbound_substream {
                    SubstreamState::Open => {},
                    _ => {
                        self.inbound_substream = SubstreamState::Errored(FailureCause::Upgrade);
                        self.push_event(
                            HandlerEvent::NotifyBehaviour(
                                HandlerOutEvent::Error(SignalingError::UpgradeError(text)),
                            ),
                        );
                    },
                }
            },
            ConnectionEvent::AddressChange => {},
            ConnectionEvent::Other => {},
        }
    }

    /// Says what to do next.
    ///
    /// While events wait, the oldest is handed out and leaves the queue.
    /// Otherwise the state stays as it is, and the answer names the streams to
    /// try: the frame of the head message where the outbound substream is
    /// open and a message waits, and a read where the inbound substream is
    /// open. With neither, nothing can be done.
    pub fn poll(&mut self) -> (outcome: PollOutcome)
        requires
            old(self).wf(),
        ensures
            final(self).wf(),
            final(self)@ == old(self)@.after_poll(),
            old(self)@.polled() matches Some(oldest) ==> {
                &&& outcome matches PollOutcome::Ready(event)
                &&& event@ == oldest
            },
            old(self)@.events.len() == 0 ==> {
                let writes = old(self)@.outbound == SubstreamState::Open && old(self)@.queue.len()
                    > 0;
                let reads = old(self)@.inbound == SubstreamState::Open;
                &&& final(self)@ == old(self)@
                &&& !writes && !reads ==> outcome is Pending
                &&& writes || reads ==> {
                    &&& outcome matches PollOutcome::Io { write, read }
                    &&& read == reads
                    &&& (write is Some) == writes
                    &&& writes ==> write.unwrap()@ == spec_frame(old(self)@.queue[0])
                    &&& writes ==> spec_payload(old(self)@.queue[0]).len() <= u64::MAX
                }
            },
    {
        match self.events.pop_front() {
            Some(event) => {
                assert(self@.events =~= old(self)@.events.drop_first());
                return PollOutcome::Ready(event);
            },
            None => {},
        }
        let write: Option<Vec<u8>> = match self.outbound_substream {
            SubstreamState::Open => {
                if self.outbound_messages.len() > 0 {
                    Some(encode(&self.outbound_messages[0]))
                } else {
                    None
                }
            },
            _ => None,
        };
        let read: bool = match self.inbound_substream {
            SubstreamState::Open => true,
            _ => false,
        };
        if write.is_none() && !read {
            PollOutcome::Pending
        } else {
            PollOutcome::Io { write, read }
        }
    }

    /// Takes the result of writing the head frame.
    ///
    /// It counts only while the outbound substream is open and a message
    /// waits. A complete write removes the head message. A write that would
    /// block changes nothing, so the same frame is due again. A failure is a
    /// terminal error: the outbound substream is errored, keep-alive ends, the
    /// error is queued as an event, and the message that failed is dropped,
    /// never sent again.
    pub fn on_write_outcome(&mut self, outcome: WriteOutcome)
        requires
            old(self).wf(),
        ensures
            final(self).wf(),
            !(old(self)@.outbound == SubstreamState::Open && old(self)@.queue.len() > 0)
                ==> final(self)@ == old(self)@,
            old(self)@.outbound == SubstreamState::Open && old(self)@.queue.len() > 0
                ==> match outcome {
                WriteOutcome::Complete => final(self)@ == (HandlerView {
                    queue: old(self)@.queue.drop_first(),
                    ..old(self)@
                }),
                WriteOutcome::WouldBlock => final(self)@ == old(self)@,
                WriteOutcome::Failed(text) => final(self)@ == (HandlerView {
                    queue: old(self)@.queue.drop_first(),
                    outbound: SubstreamState::Errored(FailureCause::Io),
                    events: old(self)@.events.push(spec_error_event(ErrorView::Io(text@))),
                    ..old(self)@
                }),
            },
    {
        let open: bool = match self.outbound_substream {
            SubstreamState::Open => true,
            _ => false,
        };
        if !open || self.outbound_messages.len() == 0 {
            return ;
        }
        match outcome {
            WriteOutcome::Complete => {
                let _ = self.outbound_messages.pop_front();
                assert(self@.queue =~= old(self)@.queue.drop_first());
            },
            WriteOutcome::WouldBlock => {},
            WriteOutcome::Failed(text) => {
                let _ = self.outbound_messages.pop_front();
                assert(self@.queue =~= old(self)@.queue.drop_first());
                self.outbound_substream = SubstreamState::Errored(FailureCause::Io);
                self.keep_alive = false;
                self.push_event(
                    HandlerEvent::NotifyBehaviour(HandlerOutEvent::Error(SignalingError::Io(text))),
                );
            },
        }
    }

    /// Takes the result of reading from the inbound substream.
    ///
    /// It counts only while the inbound substream is open. Bytes that were
    /// read join those that wait; every frame that is then complete is
    /// decoded, in order, and queued as an event. A frame that cannot be
    /// decoded is a terminal error of the inbound substream alone. So is a
    /// read of no bytes, which means that the stream ended: inside a frame
    /// that is a format error, between frames an I/O error. So is a failed
    /// read. Each terminal error is queued as an event; none touches the
    /// outbound side or keep-alive.
    pub fn on_read_outcome(&mut self, outcome: ReadOutcome)
        requires
            old(self).wf(),
        ensures
            final(self).wf(),
            old(self)@.inbound != SubstreamState::Open ==> final(self)@ == old(self)@,
            old(self)@.inbound == SubstreamState::Open ==> match outcome {
                ReadOutcome::WouldBlock => final(self)@ == old(self)@,
                ReadOutcome::Failed(text) => final(self)@ == (HandlerView {
                    inbound: SubstreamState::Errored(FailureCause::Io),
                    events: old(self)@.events.push(spec_error_event(ErrorView::Io(text@))),
                    ..old(self)@
                }),
                ReadOutcome::Data(bytes) => {
                    if bytes@.len() == 0 {
                        if old(self)@.unread.len() == 0 {
                            final(self)@ == (HandlerView {
                                inbound: SubstreamState::Errored(FailureCause::Io),
                                events: old(self)@.events.push(
                                    spec_error_event(ErrorView::Io(spec_end_of_stream_text())),
                                ),
                                ..old(self)@
                            })
                        } else {
                            final(self)@ == (HandlerView {
                                inbound: SubstreamState::Errored(FailureCause::Format),
                                events: old(self)@.events.push(
                                    spec_error_event(
                                        ErrorView::FormatError(spec_truncated_text()),
                                    ),
                                ),
                                ..old(self)@
                            })
                        }
                    } else {
                        let run = spec_decode_all(old(self)@.unread + bytes@);
                        final(self)@ == (HandlerView {
                            inbound: if run.failure is Some {
                                SubstreamState::Errored(FailureCause::Format)
                            } else {
                                SubstreamState::Open
                            },
                            events: old(self)@.events + spec_events_of_run(
                                run.messages,
                                run.failure,
                            ),
                            unread: (old(self)@.unread + bytes@).skip(run.consumed as int),
                            ..old(self)@
                        })
                    }
                },
            },
    {
        match self.inbound_substream {
            SubstreamState::Open => {},
            _ => {
                return ;
            },
        }
        match outcome {
            ReadOutcome::WouldBlock => {},
            ReadOutcome::Failed(text) => {
                self.inbound_substream = SubstreamState::Errored(FailureCause::Io);
                self.push_event(
                    HandlerEvent::NotifyBehaviour(HandlerOutEvent::Error(SignalingError::Io(text))),
                );
            },
            ReadOutcome::Data(bytes) => {
                if bytes.len() == 0 {
                    self.end_of_stream();
                } else {
                    self.decoder.feed(bytes.as_slice());
                    self.decode_waiting();
                }
            },
        }
    }

    /// The inbound stream ended: a terminal error, whose kind says whether a
    /// frame was cut short.
    fn end_of_stream(&mut self)
        requires
            old(self).wf(),
        ensures
            final(self).wf(),
            old(self)@.unread.len() == 0 ==> final(self)@ == (HandlerView {
                inbound: SubstreamState::Errored(FailureCause::Io),
                events: old(self)@.events.push(
                    spec_error_event(ErrorView::Io(spec_end_of_stream_text())),
                ),
                ..old(self)@
            }),
            old(self)@.unread.len() != 0 ==> final(self)@ == (HandlerView {
                inbound: SubstreamState::Errored(FailureCause::Format),
                events: old(self)@.events.push(
                    spec_error_event(ErrorView::FormatError(spec_truncated_text())),
                ),
                ..old(self)@
            }),
    {
        if self.decoder.pending_len() == 0 {
            self.inbound_substream = SubstreamState::Errored(FailureCause::Io);
            self.push_event(
                HandlerEvent::NotifyBehaviour(
                    HandlerOutEvent::Error(SignalingError::Io(String::from_str("End of stream"))),
                ),
            );
        } else {
            self.inbound_substream = SubstreamState::Errored(FailureCause::Format);
            self.push_event(
                HandlerEvent::NotifyBehaviour(
                    HandlerOutEvent::Error(
                        SignalingError::FormatError(String::from_str("Truncated frame")),
                    ),
                ),
            );
        }
    }

    /// Decodes every complete frame that waits and queues its event; a frame
    /// that cannot be decoded ends the inbound substream.
    fn decode_waiting(&mut self)
        requires
            old(self).wf(),
            old(self)@.inbound == SubstreamState::Open,
        ensures
            final(self).wf(),
            final(self)@ == (HandlerView {
                inbound: if spec_decode_all(old(self)@.unread).failure is Some {
                    SubstreamState::Errored(FailureCause::Format)
                } else {
                    SubstreamState::Open
                },
                events: old(self)@.events + spec_events_of_run(
                    spec_decode_all(old(self)@.unread).messages,
                    spec_decode_all(old(self)@.unread).failure,
                ),
                unread: old(self)@.unread.skip(spec_decode_all(old(self)@.unread).consumed as int),
                ..old(self)@
            }),
    {
        let ghost before = self@;
        let ghost start = self@.unread;
        let ghost run = spec_decode_all(start);
        let ghost mut taken: nat = 0;
        let ghost mut done: Seq<MessageView> = Seq::empty();
        let mut running = true;
        while running
            invariant
                self.wf(),
                self@.queue == before.queue,
                self@.outbound == before.outbound,
                taken <= start.len(),
                self@.unread == start.skip(taken as int),
                running ==> {
                    &&& self@.inbound == SubstreamState::Open
                    &&& self@.events == before.events + spec_events_of_run(done, None)
                    &&& run.messages == done + spec_decode_all(self@.unread).messages
                    &&& run.failure == spec_decode_all(self@.unread).failure
                    &&& run.consumed == taken + spec_decode_all(self@.unread).consumed
                },
                !running ==> {
                    &&& self@.inbound == if run.failure is Some {
                        SubstreamState::Errored(FailureCause::Format)
                    } else {
                        SubstreamState::Open
                    }
                    &&& self@.events == before.events + spec_events_of_run(
                        run.messages,
                        run.failure,
                    )
                    &&& run.consumed == taken
                },
            decreases start.len() - taken + (if running { 1nat } else { 0nat }),
        {
            let ghost waiting = self@.unread;
            let ghost queued = self@.events;
            match self.decoder.next_message() {
                Ok(Some(message)) => {
                    let ghost step = spec_decode_frame(waiting)->consumed;
                    let ghost content = message@;
                    let _ = self.process_message(message);
                    proof {
                        assert(before.events + spec_events_of_run(done.push(content), None)
                            =~= queued.push(spec_event_of(content)));
                        assert(start.skip(taken as int).skip(step as int) =~= start.skip(
                            (taken + step) as int,
                        ));
                        done = done.push(content);
                        taken = taken + step;
                    }
                },
                Ok(None) => {
                    running = false;
                },
                Err(error) => {
                    let ghost cause = error@;
                    self.inbound_substream = SubstreamState::Errored(FailureCause::Format);
                    self.push_event(HandlerEvent::NotifyBehaviour(HandlerOutEvent::Error(error)));
                    running = false;
                    proof {
                        assert(before.events + spec_events_of_run(done, Some(cause))
                            =~= queued.push(spec_error_event(cause)));
                    }
                },
            }
        }
    }
}

} // verus!
