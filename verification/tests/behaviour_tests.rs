use webrtc_signaling::{
    Behaviour, ConnectionEvent, Event, FromSwarm, Handler, HandlerEvent, HandlerOutEvent,
    HandlerRequest, MessageType, PeerId, PollOutcome, ReadOutcome, SignalingError,
    SignalingMessage, WriteOutcome,
};

fn peer(tag: u8) -> PeerId {
    PeerId::from_bytes(vec![0x00, 0x24, tag, tag])
}

fn connected(peers: &[(u8, u64)]) -> Behaviour {
    let mut behaviour = Behaviour::new();
    for (tag, connection) in peers {
        behaviour.on_swarm_event(FromSwarm::ConnectionEstablished {
            peer: peer(*tag),
            connection: *connection,
        });
    }
    behaviour
}

#[test]
fn peer_id_bytes_and_sameness() {
    let a = PeerId::from_bytes(vec![1, 2, 3]);
    assert_eq!(a.to_bytes(), vec![1, 2, 3]);
    assert!(a.same_as(&PeerId::from_bytes(vec![1, 2, 3])));
    assert!(!a.same_as(&PeerId::from_bytes(vec![1, 2, 4])));
    assert!(!a.same_as(&PeerId::from_bytes(vec![1, 2])));
    assert!(PeerId::from_bytes(vec![]).same_as(&PeerId::from_bytes(vec![])));
}

#[test]
fn new_behaviour_has_nothing() {
    let mut behaviour = Behaviour::new();
    assert_eq!(behaviour.poll(), None);
    assert_eq!(behaviour.next_request(), None);
    assert_eq!(behaviour.resolve(&peer(1)), None);
}

#[test]
fn send_offer_goes_to_the_handler_not_to_the_application() {
    let mut behaviour = connected(&[(1, 7)]);
    behaviour.send_offer(peer(1), "v=0".to_string());
    assert_eq!(behaviour.poll(), None);
    assert_eq!(
        behaviour.next_request(),
        Some(HandlerRequest {
            peer: peer(1),
            connection: 7,
            message: SignalingMessage { kind: MessageType::SdpOffer, data: Some("v=0".to_string()) },
        })
    );
    assert_eq!(behaviour.next_request(), None);
}

#[test]
fn send_answer_and_candidate_build_their_messages() {
    let mut behaviour = connected(&[(1, 7)]);
    behaviour.send_answer(peer(1), "ans".to_string());
    behaviour.send_ice_candidate(peer(1), "cand".to_string());
    let first = behaviour.next_request().unwrap();
    assert_eq!(first.message, SignalingMessage::answer("ans".to_string()));
    let second = behaviour.next_request().unwrap();
    assert_eq!(second.message, SignalingMessage::ice_candidate("cand".to_string()));
    assert_eq!(second.connection, 7);
    assert_eq!(behaviour.poll(), None);
}

#[test]
fn send_picks_most_recent_connection_of_the_peer() {
    let mut behaviour = connected(&[(1, 10), (2, 11), (1, 12), (2, 13)]);
    assert_eq!(behaviour.resolve(&peer(1)), Some(12));
    assert_eq!(behaviour.resolve(&peer(2)), Some(13));
    behaviour.send_offer(peer(1), "x".to_string());
    assert_eq!(behaviour.next_request().unwrap().connection, 12);
    behaviour.on_swarm_event(FromSwarm::ConnectionClosed { peer: peer(1), connection: 12 });
    assert_eq!(behaviour.resolve(&peer(1)), Some(10));
    behaviour.on_swarm_event(FromSwarm::ConnectionClosed { peer: peer(1), connection: 10 });
    assert_eq!(behaviour.resolve(&peer(1)), None);
    assert_eq!(behaviour.resolve(&peer(2)), Some(13));
}

#[test]
fn send_without_connection_is_dropped() {
    let mut behaviour = connected(&[(1, 7)]);
    behaviour.send_offer(peer(2), "lost".to_string());
    assert_eq!(behaviour.next_request(), None);
    assert_eq!(behaviour.poll(), None);
}

#[test]
fn closing_unknown_connection_changes_nothing() {
    let mut behaviour = connected(&[(1, 7)]);
    behaviour.on_swarm_event(FromSwarm::ConnectionClosed { peer: peer(1), connection: 8 });
    behaviour.on_swarm_event(FromSwarm::ConnectionClosed { peer: peer(2), connection: 7 });
    behaviour.on_swarm_event(FromSwarm::Other);
    assert_eq!(behaviour.resolve(&peer(1)), Some(7));
}

#[test]
fn handler_events_become_application_events_in_order() {
    let mut behaviour = Behaviour::new();
    behaviour.on_connection_handler_event(peer(1), 1, HandlerOutEvent::ReceivedOffer("o".into()));
    behaviour.on_connection_handler_event(peer(2), 2, HandlerOutEvent::ReceivedAnswer("a".into()));
    behaviour.on_connection_handler_event(
        peer(1),
        1,
        HandlerOutEvent::ReceivedIceCandidate("c".into()),
    );
    behaviour.on_connection_handler_event(
        peer(3),
        3,
        HandlerOutEvent::Error(SignalingError::ProtocolError("p".into())),
    );
    assert_eq!(
        behaviour.poll(),
        Some(Event::ReceivedSdpOffer { peer: peer(1), offer: "o".to_string() })
    );
    assert_eq!(
        behaviour.poll(),
        Some(Event::ReceivedSdpAnswer { peer: peer(2), answer: "a".to_string() })
    );
    assert_eq!(
        behaviour.poll(),
        Some(Event::ReceivedIceCandidate { peer: peer(1), candidate: "c".to_string() })
    );
    assert_eq!(
        behaviour.poll(),
        Some(Event::SignalingError {
            peer: peer(3),
            error: SignalingError::ProtocolError("p".to_string()),
        })
    );
    assert_eq!(behaviour.poll(), None);
    assert_eq!(behaviour.next_request(), None);
}

#[test]
fn end_to_end_offer_from_a_to_b() {
    let a = peer(0xa);
    let b = peer(0xb);
    let mut behaviour_a = Behaviour::new();
    let mut behaviour_b = Behaviour::new();
    let mut handler_a = Handler::new();
    let mut handler_b = Handler::new();
    behaviour_a.on_swarm_event(FromSwarm::ConnectionEstablished { peer: b.clone(), connection: 1 });
    behaviour_b.on_swarm_event(FromSwarm::ConnectionEstablished { peer: a.clone(), connection: 1 });

    behaviour_a.send_offer(b.clone(), "v=0...".to_string());
    assert_eq!(behaviour_a.poll(), None);
    let request = behaviour_a.next_request().unwrap();
    assert!(request.peer.same_as(&b));
    handler_a.on_behaviour_event(request.message);
    assert_eq!(handler_a.poll(), PollOutcome::Ready(HandlerEvent::OutboundSubstreamRequest));
    assert_eq!(handler_a.poll(), PollOutcome::Pending);

    handler_a.on_connection_event(ConnectionEvent::FullyNegotiatedOutbound);
    handler_b.on_connection_event(ConnectionEvent::FullyNegotiatedInbound);

    let frame = match handler_a.poll() {
        PollOutcome::Io { write: Some(frame), read: false } => frame,
        other => panic!("no frame to write: {:?}", other),
    };
    handler_a.on_write_outcome(WriteOutcome::Complete);
    assert_eq!(handler_a.poll(), PollOutcome::Pending);

    assert_eq!(handler_b.poll(), PollOutcome::Io { write: None, read: true });
    handler_b.on_read_outcome(ReadOutcome::Data(frame));
    let event = match handler_b.poll() {
        PollOutcome::Ready(HandlerEvent::NotifyBehaviour(event)) => event,
        other => panic!("no event: {:?}", other),
    };
    assert_eq!(handler_b.poll(), PollOutcome::Io { write: None, read: true });
    behaviour_b.on_connection_handler_event(a.clone(), 1, event);
    assert_eq!(
        behaviour_b.poll(),
        Some(Event::ReceivedSdpOffer { peer: a, offer: "v=0...".to_string() })
    );
    assert_eq!(behaviour_b.poll(), None);
    assert_eq!(behaviour_b.next_request(), None);
}
