//! The per-node behaviour: it routes requests to send to the connection of
//! the peer they address, and queues what handlers report for the
//! application.
//!
//! Two queues, never mixed: requests on their way to a handler, and events on
//! their way to the application.

use std::collections::VecDeque;
use vstd::prelude::*;
use crate::handler::{HandlerOutEvent, HandlerOutEventView};
use crate::message::{ErrorView, MessageType, MessageView, SignalingError, SignalingMessage};

verus! {

/// The identity of a peer, as the bytes that name it.
#[derive(Clone, Debug, PartialEq, Eq)]
pub struct PeerId {
    bytes: Vec<u8>,
}

impl View for PeerId {
    type V = Seq<u8>;

    closed spec fn view(&self) -> Seq<u8> {
        self.bytes@
    }
}

impl PeerId {
    /// The peer that these bytes name.
    pub fn from_bytes(bytes: Vec<u8>) -> (peer: PeerId)
        ensures
            peer@ == bytes@,
    {
        PeerId { bytes }
    }

    /// The bytes that name this peer.
    pub fn to_bytes(&self) -> (bytes: Vec<u8>)
        ensures
            bytes@ == self@,
    {
        let mut bytes: Vec<u8> = Vec::new();
        bytes.extend_from_slice(self.bytes.as_slice());
        bytes
    }

    /// Whether both name the same peer.
    pub fn same_as(&self, other: &PeerId) -> (same: bool)
        ensures
            same == (self@ == other@),
    {
        if self.bytes.len() != other.bytes.len() {
            return false;
        }
        let mut i: usize = 0;
        while i < self.bytes.len()
            invariant
                i <= self.bytes@.len(),
                self.bytes@.len() == other.bytes@.len(),
                self.bytes@.take(i as int) == other.bytes@.take(i as int),
            decreases self.bytes@.len() - i,
        {
            if self.bytes[i] != other.bytes[i] {
                return false;
            }
            assert(self.bytes@.take(i + 1) =~= self.bytes@.take(i as int).push(
                self.bytes@[i as int],
            ));
            assert(other.bytes@.take(i + 1) =~= other.bytes@.take(i as int).push(
                other.bytes@[i as int],
            ));
            i = i + 1;
        }
        assert(self.bytes@.take(i as int) =~= self.bytes@);
        assert(other.bytes@.take(i as int) =~= other.bytes@);
        true
    }
}

/// The content of an [`Event`].
pub ghost enum EventView {
    ReceivedSdpOffer { peer: Seq<u8>, offer: Seq<char> },
    ReceivedSdpAnswer { peer: Seq<u8>, answer: Seq<char> },
    ReceivedIceCandidate { peer: Seq<u8>, candidate: Seq<char> },
    SignalingError { peer: Seq<u8>, error: ErrorView },
}

/// What the application sees.
#[derive(Clone, Debug, PartialEq, Eq)]
pub enum Event {
    ReceivedSdpOffer { peer: PeerId, offer: String },
    ReceivedSdpAnswer { peer: PeerId, answer: String },
    ReceivedIceCandidate { peer: PeerId, candidate: String },
    SignalingError { peer: PeerId, error: SignalingError },
}

impl View for Event {
    type V = EventView;

    open spec fn view(&self) -> EventView {
        match self {
            Event::ReceivedSdpOffer { peer, offer } => EventView::ReceivedSdpOffer {
                peer: peer@,
                offer: offer@,
            },
            Event::ReceivedSdpAnswer { peer, answer } => EventView::ReceivedSdpAnswer {
                peer: peer@,
                answer: answer@,
            },
            Event::ReceivedIceCandidate { peer, candidate } => EventView::ReceivedIceCandidate {
                peer: peer@,
                candidate: candidate@,
            },
            Event::SignalingError { peer, error } => EventView::SignalingError {
                peer: peer@,
                error: error@,
            },
        }
    }
}

/// The content of a [`HandlerRequest`].
pub ghost struct RequestView {
    pub peer: Seq<u8>,
    pub connection: u64,
    pub message: MessageView,
}

/// A message on its way to the handler of one connection.
#[derive(Clone, Debug, PartialEq, Eq)]
pub struct HandlerRequest {
    pub peer: PeerId,
    pub connection: u64,
    pub message: SignalingMessage,
}

impl View for HandlerRequest {
    type V = RequestView;

    open spec fn view(&self) -> RequestView {
        RequestView { peer: self.peer@, connection: self.connection, message: self.message@ }
    }
}

/// What the connection driver reports about connections.
#[derive(Clone, Debug, PartialEq, Eq)]
pub enum FromSwarm {
    /// A connection to the peer was established.
    ConnectionEstablished { peer: PeerId, connection: u64 },
    /// A connection to the peer was closed.
    ConnectionClosed { peer: PeerId, connection: u64 },
    /// Anything else.
    Other,
}

/// One row of the routing table.
#[derive(Debug)]
struct Connection {
    peer: PeerId,
    id: u64,
}

/// The state of a behaviour, as the contracts see it.
pub ghost struct BehaviourView {
    /// The events that wait for the application, oldest first.
    pub events: Seq<EventView>,
    /// The requests that wait for their handler, oldest first.
    pub requests: Seq<RequestView>,
    /// The routing table: peer and connection, in the order in which the
    /// connections were established.
    pub connections: Seq<(Seq<u8>, u64)>,
}

/// The place in the table of the connection to `peer` that was established
/// last; with `connection` given, of the last one with that identifier.
pub open spec fn spec_last_index(
    connections: Seq<(Seq<u8>, u64)>,
    peer: Seq<u8>,
    connection: Option<u64>,
) -> Option<int>
    decreases connections.len(),
{
    if connections.len() == 0 {
        None
    } else if connections.last().0 == peer && (connection is None || connection == Some(
        connections.last().1,
    )) {
        Some(connections.len() - 1)
    } else {
        spec_last_index(connections.drop_last(), peer, connection)
    }
}

/// The connection that a request to `peer` goes to: the one established last.
pub open spec fn spec_resolve(connections: Seq<(Seq<u8>, u64)>, peer: Seq<u8>) -> Option<u64> {
    match spec_last_index(connections, peer, None) {
        Some(index) => Some(connections[index].1),
        None => None,
    }
}

/// The application's event for what a handler reported.
pub open spec fn spec_translate(peer: Seq<u8>, event: HandlerOutEventView) -> EventView {
    match event {
        HandlerOutEventView::ReceivedOffer(offer) => EventView::ReceivedSdpOffer { peer, offer },
        HandlerOutEventView::ReceivedAnswer(answer) => EventView::ReceivedSdpAnswer {
            peer,
            answer,
        },
        HandlerOutEventView::ReceivedIceCandidate(candidate) => EventView::ReceivedIceCandidate {
            peer,
            candidate,
        },
        HandlerOutEventView::Error(error) => EventView::SignalingError { peer, error },
    }
}

/// What sending `message` to `peer` makes of a behaviour: with a connection
/// to the peer, one more request, addressed to the connection established
/// last; without one, no change. The events are never touched.
pub open spec fn spec_send(state: BehaviourView, peer: Seq<u8>, message: MessageView)
    -> BehaviourView {
    match spec_resolve(state.connections, peer) {
        Some(connection) => BehaviourView {
            requests: state.requests.push(RequestView { peer, connection, message }),
            ..state
        },
        None => state,
    }
}

/// The signaling behaviour of one node.
#[derive(Debug)]
pub struct Behaviour {
    events: VecDeque<Event>,
    requests: VecDeque<HandlerRequest>,
    connections: Vec<Connection>,
}

impl View for Behaviour {
    type V = BehaviourView;

    closed spec fn view(&self) -> BehaviourView {
        BehaviourView {
            events: self.events@.map_values(|event: Event| event@),
            requests: self.requests@.map_values(|request: HandlerRequest| request@),
            connections: self.connections@.map_values(|row: Connection| (row.peer@, row.id)),
        }
    }
}

impl Behaviour {
    /// A behaviour with no connection and nothing queued.
    pub fn new() -> (behaviour: Behaviour)
        ensures
            behaviour@ == (BehaviourView {
                events: Seq::empty(),
                requests: Seq::empty(),
                connections: Seq::empty(),
            }),
    {
        let behaviour = Behaviour {
            events: VecDeque::new(),
            requests: VecDeque::new(),
            connections: Vec::new(),
        };
        assert(behaviour@.events =~= Seq::<EventView>::empty());
        assert(behaviour@.requests =~= Seq::<RequestView>::empty());
        assert(behaviour@.connections =~= Seq::<(Seq<u8>, u64)>::empty());
        behaviour
    }

    fn last_index(&self, peer: &PeerId, connection: Option<u64>) -> (found: Option<usize>)
        ensures
            match found {
                Some(index) => index < self@.connections.len() && spec_last_index(
                    self@.connections,
                    peer@,
                    connection,
                ) == Some(index as int),
                None => spec_last_index(self@.connections, peer@, connection) is None,
            },
    {
        let ghost table = self@.connections;
        let mut i: usize = self.connections.len();
        assert(table.take(i as int) =~= table);
        while i > 0
            invariant
                i <= self.connections@.len(),
                table == self@.connections,
                table.len() == self.connections@.len(),
                spec_last_index(table, peer@, connection) == spec_last_index(
                    table.take(i as int),
                    peer@,
                    connection,
                ),
            decreases i,
        {
            i = i - 1;
            let row = &self.connections[i];
            assert(table.take(i + 1).drop_last() =~= table.take(i as int));
            let wanted: bool = match connection {
                Some(id) => id == row.id,
                None => true,
            };
            if wanted && row.peer.same_as(peer) {
                return Some(i);
            }
        }
        None
    }

    /// Follows what the driver reports about connections: one that was
    /// established joins the table's end, one that was closed leaves it.
    pub fn on_swarm_event(&mut self, event: FromSwarm)
        ensures
            match event {
                FromSwarm::ConnectionEstablished { peer, connection } => final(self)@ == (
                BehaviourView {
                    connections: old(self)@.connections.push((peer@, connection)),
                    ..old(self)@
                }),
                FromSwarm::ConnectionClosed { peer, connection } => match spec_last_index(
                    old(self)@.connections,
                    peer@,
                    Some(connection),
                ) {
                    Some(index) => final(self)@ == (BehaviourView {
                        connections: old(self)@.connections.remove(index),
                        ..old(self)@
                    }),
                    None => final(self)@ == old(self)@,
                },
                FromSwarm::Other => final(self)@ == old(self)@,
            },
    {
        match event {
            FromSwarm::ConnectionEstablished { peer, connection } => {
                let ghost name = peer@;
                self.connections.push(Connection { peer, id: connection });
                assert(self@.connections =~= old(self)@.connections.push((name, connection)));
            },
            FromSwarm::ConnectionClosed { peer, connection } => {
                match self.last_index(&peer, Some(connection)) {
                    Some(index) => {
                        let _ = self.connections.remove(index);
                        assert(self@.connections =~= old(self)@.connections.remove(index as int));
                    },
                    None => {},
                }
            },
            FromSwarm::Other => {},
        }
    }

    /// The connection that a request to `peer` would go to now.
    pub fn resolve(&self, peer: &PeerId) -> (connection: Option<u64>)
        ensures
            connection == spec_resolve(self@.connections, peer@),
    {
        match self.last_index(peer, None) {
            Some(index) => {
                let row = &self.connections[index];
                Some(row.id)
            },
            None => None,
        }
    }

    fn send(&mut self, peer: PeerId, message: SignalingMessage)
        ensures
            final(self)@ == spec_send(old(self)@, peer@, message@),
    {
        match self.resolve(&peer) {
            Some(connection) => {
                let ghost request = (RequestView { peer: peer@, connection, message: message@ });
                self.requests.push_back(HandlerRequest { peer, connection, message });
                assert(self@.requests =~= old(self)@.requests.push(request));
            },
            None => {},
        }
    }

    /// Asks to send an SDP offer to `peer`.
    pub fn send_offer(&mut self, peer: PeerId, offer: String)
        ensures
            final(self)@.events == old(self)@.events,
            final(self)@ == spec_send(
                old(self)@,
                peer@,
                MessageView { kind: MessageType::SdpOffer, data: Some(offer@) },
            ),
    {
        self.send(peer, SignalingMessage::offer(offer));
    }

    /// Asks to send an SDP answer to `peer`.
    pub fn send_answer(&mut self, peer: PeerId, answer: String)
        ensures
            final(self)@.events == old(self)@.events,
            final(self)@ == spec_send(
                old(self)@,
                peer@,
                MessageView { kind: MessageType::SdpAnswer, data: Some(answer@) },
            ),
    {
        self.send(peer, SignalingMessage::answer(answer));
    }

    /// Asks to send an ICE candidate to `peer`.
    pub fn send_ice_candidate(&mut self, peer: PeerId, candidate: String)
        ensures
            final(self)@.events == old(self)@.events,
            final(self)@ == spec_send(
                old(self)@,
                peer@,
                MessageView { kind: MessageType::IceCandidate, data: Some(candidate@) },
            ),
    {
        self.send(peer, SignalingMessage::ice_candidate(candidate));
    }

    /// Takes what the handler of a connection to `peer` reported and queues
    /// the application's event for it.
    pub fn on_connection_handler_event(
        &mut self,
        peer: PeerId,
        connection: u64,
        event: HandlerOutEvent,
    )
        ensures
            final(self)@ == (BehaviourView {
                events: old(self)@.events.push(spec_translate(peer@, event@)),
                ..old(self)@
            }),
    {
        let ghost translated = spec_translate(peer@, event@);
        let out = match event {
            HandlerOutEvent::ReceivedOffer(offer) => Event::ReceivedSdpOffer { peer, offer },
            HandlerOutEvent::ReceivedAnswer(answer) => Event::ReceivedSdpAnswer { peer, answer },
            HandlerOutEvent::ReceivedIceCandidate(candidate) => Event::ReceivedIceCandidate {
                peer,
                candidate,
            },
            HandlerOutEvent::Error(error) => Event::SignalingError { peer, error },
        };
        self.events.push_back(out);
        assert(self@.events =~= old(self)@.events.push(translated));
    }

    /// Hands out the oldest event that waits for the application, if any.
    pub fn poll(&mut self) -> (event: Option<Event>)
        ensures
            old(self)@.events.len() == 0 ==> event is None && final(self)@ == old(self)@,
            old(self)@.events.len() > 0 ==> event is Some && event.unwrap()@ == old(
                self,
            )@.events[0] && final(self)@ == (BehaviourView {
                events: old(self)@.events.drop_first(),
                ..old(self)@
            }),
    {
        let event = self.events.pop_front();
        assert(self@.events =~= if old(self)@.events.len() > 0 {
            old(self)@.events.drop_first()
        } else {
            old(self)@.events
        });
        event
    }

    /// Hands out the oldest request that waits for its handler, if any.
    pub fn next_request(&mut self) -> (request: Option<HandlerRequest>)
        ensures
            old(self)@.requests.len() == 0 ==> request is None && final(self)@ == old(self)@,
            old(self)@.requests.len() > 0 ==> request is Some && request.unwrap()@ == old(
                self,
            )@.requests[0] && final(self)@ == (BehaviourView {
                requests: old(self)@.requests.drop_first(),
                ..old(self)@
            }),
    {
        let request = self.requests.pop_front();
        assert(self@.requests =~= if old(self)@.requests.len() > 0 {
            old(self)@.requests.drop_first()
        } else {
            old(self)@.requests
        });
        request
    }
}

} // verus!
