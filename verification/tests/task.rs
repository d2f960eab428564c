use oblivious_transfer::address::SocketAddress;
use oblivious_transfer::connection::{Peer, UserMessage, Username};
use oblivious_transfer::crypto::CryptoError;
use oblivious_transfer::curve::{CurvePoint, Scalar};
use oblivious_transfer::event::{Action, Event, NetworkError, Outgoing, Reaction};
use oblivious_transfer::message::{Message, MessageError};
use oblivious_transfer::peers::PeerPanel;
use oblivious_transfer::task::{NetworkTask, Turn};

fn name(text: &str) -> Username {
    Username::new(text.to_string()).unwrap()
}

fn message(text: &str) -> UserMessage {
    UserMessage::try_from(text.to_string()).unwrap()
}

fn scalar(value: u64) -> Scalar {
    let mut bytes = [0u8; 32];
    bytes[24..].copy_from_slice(&value.to_be_bytes());
    Scalar::from_bytes(bytes)
}

fn alice_addr() -> SocketAddress {
    SocketAddress::new([192, 168, 0, 10], 12345)
}

fn bob_addr() -> SocketAddress {
    SocketAddress::new([192, 168, 0, 20], 12345)
}

fn local_ip_failure() -> Result<u32, NetworkError> {
    Err(NetworkError::LocalIpNotFound("no interface".to_string()))
}

#[test]
fn discovery() {
    let mut alice = NetworkTask::new(name("alice"));
    let mut bob = NetworkTask::new(name("bob"));
    assert_eq!(alice.name(), &name("alice"));

    let turn = alice.on_action(Action::Broadcast);
    assert_eq!(
        turn,
        Turn {
            reaction: Reaction::send(Outgoing::Broadcast(Message::BroadcastGreet(name("alice")))),
            running: true,
        }
    );
    let greet = match turn.reaction.outgoing {
        Some(Outgoing::Broadcast(message)) => message.into_bytes(),
        other => panic!("unexpected {:?}", other),
    };
    assert_eq!(greet, b"OTMP\x00\x00\x05alice".to_vec());

    let reaction = bob.on_datagram(&greet, alice_addr(), Ok(bob_addr().ip));
    assert_eq!(
        reaction,
        Reaction {
            event: Some(Event::Connected(Peer::new_with_name(alice_addr(), name("alice")))),
            outgoing: Some(Outgoing::Unicast(
                Message::BroadcastResponse(name("bob")),
                alice_addr()
            )),
        }
    );
    let response = match reaction.outgoing {
        Some(Outgoing::Unicast(message, _)) => message.into_bytes(),
        other => panic!("unexpected {:?}", other),
    };
    assert_eq!(response, b"OTMP\x01\x00\x03bob".to_vec());

    let reaction = alice.on_datagram(&response, bob_addr(), Ok(alice_addr().ip));
    assert_eq!(
        reaction,
        Reaction::report(Event::Connected(Peer::new_with_name(bob_addr(), name("bob"))))
    );
}

#[test]
fn disconnect() {
    let mut alice = NetworkTask::new(name("alice"));
    let mut bob = NetworkTask::new(name("bob"));
    let turn = alice.on_command(Some(Action::Disconnect));
    assert_eq!(
        turn,
        Turn {
            reaction: Reaction::send(Outgoing::Broadcast(Message::BroadcastBye)),
            running: false,
        }
    );
    let bye = Message::BroadcastBye.into_bytes();
    assert_eq!(bye, b"OTMP\x02\x00\x00".to_vec());
    let reaction = bob.on_datagram(&bye, alice_addr(), Ok(bob_addr().ip));
    assert_eq!(reaction, Reaction::report(Event::Disconnected(alice_addr())));
    let own = alice.on_datagram(&bye, alice_addr(), Ok(alice_addr().ip));
    assert_eq!(own, Reaction::nothing());
}

#[test]
fn a_closed_queue_stops_the_task() {
    let mut task = NetworkTask::new(name("alice"));
    assert_eq!(
        task.on_command(None),
        Turn { reaction: Reaction::nothing(), running: false }
    );
    let turn = task.on_command(Some(Action::Broadcast));
    assert!(turn.running);
}

#[test]
fn loopback_suppression() {
    let mut alice = NetworkTask::new(name("alice"));
    let own = Message::BroadcastGreet(name("alice"));
    let same_host_other_port = SocketAddress::new([192, 168, 0, 10], 40000);
    assert_eq!(
        alice.on_packet(own, same_host_other_port, Ok(alice_addr().ip)),
        Ok(Reaction::nothing())
    );
    let bytes = Message::BroadcastGreet(name("alice")).into_bytes();
    assert_eq!(
        alice.on_datagram(&bytes, alice_addr(), Ok(alice_addr().ip)),
        Reaction::nothing()
    );
}

#[test]
fn response_is_reported_whatever_its_source() {
    let mut alice = NetworkTask::new(name("alice"));
    let reaction = alice.on_packet(
        Message::BroadcastResponse(name("alice")),
        alice_addr(),
        local_ip_failure(),
    );
    assert_eq!(
        reaction,
        Ok(Reaction::report(Event::Connected(Peer::new_with_name(alice_addr(), name("alice")))))
    );
}

#[test]
fn unknown_local_address_is_reported() {
    let mut bob = NetworkTask::new(name("bob"));
    assert_eq!(
        bob.on_packet(Message::BroadcastGreet(name("alice")), alice_addr(), local_ip_failure()),
        local_ip_failure().map(|_| Reaction::nothing())
    );
    assert_eq!(
        bob.on_packet(Message::BroadcastBye, alice_addr(), local_ip_failure()),
        local_ip_failure().map(|_| Reaction::nothing())
    );
    let bytes = Message::BroadcastBye.into_bytes();
    assert_eq!(
        bob.on_datagram(&bytes, alice_addr(), local_ip_failure()),
        Reaction::fail(NetworkError::LocalIpNotFound("no interface".to_string()))
    );
    let greet = Message::Greet(CurvePoint::generator());
    assert!(bob.on_packet(greet, alice_addr(), local_ip_failure()).is_ok());
}

#[test]
fn idempotent_peer_add() {
    let mut bob = NetworkTask::new(name("bob"));
    let mut panel = PeerPanel::new();
    for _ in 0..2 {
        let reaction = bob
            .on_packet(Message::BroadcastGreet(name("alice")), alice_addr(), Ok(bob_addr().ip))
            .unwrap();
        match reaction.event {
            Some(Event::Connected(peer)) => {
                assert_eq!(peer, Peer::new_with_name(alice_addr(), name("alice")));
                panel.add_peer(peer);
            }
            other => panic!("unexpected {:?}", other),
        }
    }
    assert_eq!(panel.len(), 1);
    assert!(!bob.has_state(alice_addr()));
}

#[test]
fn state_discipline_for_response() {
    let mut alice = NetworkTask::new(name("alice"));
    let response = Message::Response(CurvePoint::generator());
    assert_eq!(
        alice.on_packet(response, bob_addr(), Ok(alice_addr().ip)),
        Err(NetworkError::IncorrectMessage(bob_addr()))
    );
    assert!(!alice.has_state(bob_addr()));
    let bytes = Message::Response(CurvePoint::generator()).into_bytes();
    assert_eq!(
        alice.on_datagram(&bytes, bob_addr(), Ok(alice_addr().ip)),
        Reaction::fail(NetworkError::IncorrectMessage(bob_addr()))
    );
    assert!(!alice.has_state(bob_addr()));
}

#[test]
fn state_discipline_for_data() {
    let mut bob = NetworkTask::new(name("bob"));
    assert_eq!(
        bob.on_packet(Message::Data(vec![0; 16], vec![0; 16]), alice_addr(), Ok(bob_addr().ip)),
        Err(NetworkError::IncorrectMessage(alice_addr()))
    );
    assert!(!bob.has_state(alice_addr()));
}

#[test]
fn a_packet_in_the_wrong_direction_leaves_the_state() {
    let mut alice = NetworkTask::new(name("alice"));
    alice.on_action_with(Action::Send(bob_addr(), message("a"), message("b")), scalar(3));
    assert!(alice.has_state(bob_addr()));
    assert_eq!(
        alice.on_packet(Message::Data(vec![0; 16], vec![0; 16]), bob_addr(), Ok(alice_addr().ip)),
        Err(NetworkError::IncorrectMessage(bob_addr()))
    );
    assert!(alice.has_state(bob_addr()));
    let response = Message::Response(CurvePoint::generator().mul(&scalar(5)));
    let reaction = alice.on_packet(response, bob_addr(), Ok(alice_addr().ip)).unwrap();
    assert!(matches!(
        reaction,
        Reaction { event: None, outgoing: Some(Outgoing::Unicast(Message::Data(_, _), _)) }
    ));
    assert!(!alice.has_state(bob_addr()));

    let mut bob = NetworkTask::new(name("bob"));
    let greet = Message::Greet(CurvePoint::generator().mul(&scalar(3)));
    bob.on_packet(greet, alice_addr(), Ok(bob_addr().ip)).unwrap();
    assert!(bob.has_state(alice_addr()));
    let response = Message::Response(CurvePoint::generator());
    assert_eq!(
        bob.on_packet(response, alice_addr(), Ok(bob_addr().ip)),
        Err(NetworkError::IncorrectMessage(alice_addr()))
    );
    assert!(bob.has_state(alice_addr()));
}

#[test]
fn states_are_kept_per_address() {
    let mut alice = NetworkTask::new(name("alice"));
    let carol = SocketAddress::new([192, 168, 0, 30], 12345);
    let bob_other_port = SocketAddress::new([192, 168, 0, 20], 12346);
    alice.on_action(Action::Send(bob_addr(), message("a"), message("b")));
    assert!(alice.has_state(bob_addr()));
    assert!(!alice.has_state(carol));
    assert!(!alice.has_state(bob_other_port));
    let response = Message::Response(CurvePoint::generator());
    assert_eq!(
        alice.on_packet(response, carol, Ok(alice_addr().ip)),
        Err(NetworkError::IncorrectMessage(carol))
    );
    assert!(alice.has_state(bob_addr()));
}

#[test]
fn a_new_exchange_supplants_the_old_one() {
    let mut alice = NetworkTask::new(name("alice"));
    alice.on_action_with(Action::Send(bob_addr(), message("a"), message("b")), scalar(3));
    let greet = Message::Greet(CurvePoint::generator().mul(&scalar(9)));
    let reaction = alice
        .on_packet_with(greet, bob_addr(), Ok(alice_addr().ip), scalar(4), true)
        .unwrap();
    let expected = CurvePoint::generator().mul(&scalar(13));
    assert_eq!(
        reaction,
        Reaction::send(Outgoing::Unicast(Message::Response(expected), bob_addr()))
    );
    let response = Message::Response(CurvePoint::generator());
    assert_eq!(
        alice.on_packet(response, bob_addr(), Ok(alice_addr().ip)),
        Err(NetworkError::IncorrectMessage(bob_addr()))
    );
}

#[test]
fn send_opens_an_exchange() {
    let mut alice = NetworkTask::new(name("alice"));
    let turn = alice.on_action_with(Action::Send(bob_addr(), message("a"), message("b")), scalar(2));
    let expected = CurvePoint::generator().mul(&scalar(2));
    assert_eq!(
        turn,
        Turn {
            reaction: Reaction::send(Outgoing::Unicast(Message::Greet(expected), bob_addr())),
            running: true,
        }
    );
    let again = alice.on_action_with(Action::Broadcast, scalar(2));
    assert_eq!(
        again.reaction,
        Reaction::send(Outgoing::Broadcast(Message::BroadcastGreet(name("alice"))))
    );
    let stop = alice.on_action_with(Action::Disconnect, scalar(2));
    assert!(!stop.running);
}

#[test]
fn a_datagram_that_is_no_message_is_reported() {
    let mut bob = NetworkTask::new(name("bob"));
    let cases: Vec<(Vec<u8>, MessageError)> = vec![
        (b"OTM".to_vec(), MessageError::MissingHeaderBytes),
        (b"HTTP\x00\x00\x00".to_vec(), MessageError::InvalidMagicNumber),
        (b"OTMP\x02\x00\x01\x00".to_vec(), MessageError::InvalidMessageLength),
        (b"OTMP\x07\x00\x00".to_vec(), MessageError::InvalidMessageType),
        (b"OTMP\x00\x00\x01\xff".to_vec(), MessageError::InvalidUtf8),
        (
            b"OTMP\x03\x00\x01\x09".to_vec(),
            MessageError::InvalidCrypto(CryptoError::InvalidPoint),
        ),
    ];
    for (bytes, error) in cases {
        assert_eq!(
            bob.on_datagram(&bytes, alice_addr(), Ok(bob_addr().ip)),
            Reaction::fail(NetworkError::MessageError(error))
        );
    }
}

#[test]
fn a_datagram_cut_off_by_the_buffer_is_reported() {
    let mut bob = NetworkTask::new(name("bob"));
    let full = Message::Data(vec![1; 1500], vec![2; 1500]).into_bytes();
    assert!(Message::try_from(&full).is_ok());
    let received = &full[..oblivious_transfer::socket::RECEIVE_BUFFER_SIZE];
    assert_eq!(
        bob.on_datagram(received, alice_addr(), Ok(bob_addr().ip)),
        Reaction::fail(NetworkError::MessageError(MessageError::InvalidMessageLength))
    );
}

#[test]
fn reaction_builders() {
    assert_eq!(Reaction::nothing(), Reaction { event: None, outgoing: None });
    assert_eq!(
        Reaction::report(Event::Disconnected(alice_addr())),
        Reaction { event: Some(Event::Disconnected(alice_addr())), outgoing: None }
    );
    assert_eq!(
        Reaction::fail(NetworkError::TaskClosed),
        Reaction { event: Some(Event::Error(NetworkError::TaskClosed)), outgoing: None }
    );
    assert_eq!(
        Reaction::send(Outgoing::Broadcast(Message::BroadcastBye)),
        Reaction { event: None, outgoing: Some(Outgoing::Broadcast(Message::BroadcastBye)) }
    );
}
