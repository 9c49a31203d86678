use gray_hole::client::initial_hello;
use gray_hole::client::resolve_assignment;
use gray_hole::client::PeerPlan;
use gray_hole::message::ByteStream;
use gray_hole::message::MessageRead;
use gray_hole::message::MessageWrite;
use gray_hole::server::Coordinator;
use gray_hole::server::HelloOutcome;
use gray_hole::server::PairingResult;
use gray_hole::types::ClientMessage;
use gray_hole::types::ConnectionMessage;
use gray_hole::types::Endpoint;
use gray_hole::types::ServerMessage;

fn endpoint(a: u8, b: u8, c: u8, d: u8, port: u16) -> Endpoint {
    let ip = ((a as u32) << 24) | ((b as u32) << 16) | ((c as u32) << 8) | (d as u32);
    Endpoint { ip, port }
}

#[test]
fn connect_role_dials_the_given_address() {
    let given = endpoint(127, 0, 0, 1, 51000);
    let local = endpoint(127, 0, 0, 1, 52000);
    let plan = resolve_assignment(&ServerMessage::YouConnect { address: given }, local);
    match plan {
        PeerPlan::Dial { endpoint } => assert_eq!(endpoint, given),
        PeerPlan::Listen { .. } => panic!("connect role must dial"),
    }
}

#[test]
fn listen_role_binds_its_relay_local_address_and_acknowledges() {
    let local = endpoint(127, 0, 0, 1, 51000);
    let plan = resolve_assignment(&ServerMessage::YouListen, local);
    match plan {
        PeerPlan::Listen {
            bind_addr,
            acknowledgement,
        } => {
            assert_eq!(bind_addr, local);
            assert_eq!(acknowledgement, ClientMessage::ReadyToListen);
        }
        PeerPlan::Dial { .. } => panic!("listen role must listen"),
    }
}

#[test]
fn clients_open_with_ready() {
    assert_eq!(initial_hello(), ClientMessage::Ready);
}

/// The full handoff choreography, with every byte passing through the
/// framed codec as it would over sockets: relay at 127.0.0.1:9000 pairs
/// clients A and B, A listens on its relay-local endpoint, B is sent
/// there, and "hello" crosses the direct channel.
#[test]
fn end_to_end_handoff_carries_hello() {
    let mut relay: Coordinator<&str> = Coordinator::new();

    // Client A connects from 127.0.0.1:51000 (as the relay observes it)
    // and sends Ready.
    let a_observed = endpoint(127, 0, 0, 1, 51000);
    let a_local = endpoint(127, 0, 0, 1, 51000);
    let mut a_to_relay = ByteStream::new();
    initial_hello().write_message(&mut a_to_relay).unwrap();
    let hello_a = ClientMessage::read_message(&mut a_to_relay).unwrap();
    assert!(matches!(
        relay.on_hello("a", a_observed, hello_a),
        HelloOutcome::Held
    ));

    // Client B connects from 127.0.0.1:52000 and sends Ready.
    let b_observed = endpoint(127, 0, 0, 1, 52000);
    let mut b_to_relay = ByteStream::new();
    initial_hello().write_message(&mut b_to_relay).unwrap();
    let hello_b = ClientMessage::read_message(&mut b_to_relay).unwrap();
    let round = match relay.on_hello("b", b_observed, hello_b) {
        HelloOutcome::Pair(round) => round,
        _ => panic!("B's arrival must start the pairing round"),
    };

    // Relay -> A: the listen assignment.
    let mut relay_to_a = ByteStream::new();
    round
        .listener_assignment
        .write_message(&mut relay_to_a)
        .unwrap();
    let assignment_a = ServerMessage::read_message(&mut relay_to_a).unwrap();

    // A resolves its role: bind the relay-local endpoint, acknowledge.
    let ack = match resolve_assignment(&assignment_a, a_local) {
        PeerPlan::Listen {
            bind_addr,
            acknowledgement,
        } => {
            assert_eq!(bind_addr, a_local);
            acknowledgement
        }
        PeerPlan::Dial { .. } => panic!("A was assigned the listening role"),
    };

    // A -> relay: ReadyToListen, read back by the relay.
    let mut a_ack = ByteStream::new();
    ack.write_message(&mut a_ack).unwrap();
    let ack_read = ClientMessage::read_message(&mut a_ack).ok();
    let connect_b = match round.finish(ack_read) {
        PairingResult::Complete {
            connector_assignment,
            ..
        } => connector_assignment,
        PairingResult::Abandoned { .. } => panic!("the round must complete"),
    };

    // Relay -> B: connect to A's observed endpoint.
    let mut relay_to_b = ByteStream::new();
    connect_b.write_message(&mut relay_to_b).unwrap();
    let assignment_b = ServerMessage::read_message(&mut relay_to_b).unwrap();
    let b_local = endpoint(127, 0, 0, 1, 52000);
    let dial = match resolve_assignment(&assignment_b, b_local) {
        PeerPlan::Dial { endpoint } => endpoint,
        PeerPlan::Listen { .. } => panic!("B was assigned the connecting role"),
    };
    assert_eq!(dial, a_observed);

    // B dials A's endpoint and sends "hello" over the direct channel.
    let mut peer_channel = ByteStream::new();
    (ConnectionMessage::DataLoad {
        data: b"hello".to_vec(),
    })
    .write_message(&mut peer_channel)
    .unwrap();

    // A accepts and receives it.
    let ConnectionMessage::DataLoad { data } = ConnectionMessage::read_message(&mut peer_channel).unwrap();
    assert_eq!(data, b"hello".to_vec());
}
