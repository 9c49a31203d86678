use gray_hole::server::Coordinator;
use gray_hole::server::HelloOutcome;
use gray_hole::server::PairingResult;
use gray_hole::types::ClientMessage;
use gray_hole::types::Endpoint;
use gray_hole::types::ServerMessage;

fn endpoint(a: u8, b: u8, c: u8, d: u8, port: u16) -> Endpoint {
    let ip = ((a as u32) << 24) | ((b as u32) << 16) | ((c as u32) << 8) | (d as u32);
    Endpoint { ip, port }
}

#[test]
fn first_client_is_held() {
    let mut relay: Coordinator<u64> = Coordinator::new();
    let r = relay.on_hello(1, endpoint(10, 0, 0, 1, 4000), ClientMessage::Ready);
    assert!(matches!(r, HelloOutcome::Held));
    assert!(relay.pending.is_some());
}

#[test]
fn pairing_order_three_clients() {
    // A, B, C connect in order, each sending Ready: A and B are paired,
    // A listens, B connects to A's observed address, C waits.
    let mut relay: Coordinator<u64> = Coordinator::new();
    let addr_a = endpoint(10, 0, 0, 1, 4001);
    let addr_b = endpoint(10, 0, 0, 2, 4002);
    let addr_c = endpoint(10, 0, 0, 3, 4003);

    let r1 = relay.on_hello(1, addr_a, ClientMessage::Ready);
    assert!(matches!(r1, HelloOutcome::Held));

    let r2 = relay.on_hello(2, addr_b, ClientMessage::Ready);
    let round = match r2 {
        HelloOutcome::Pair(round) => round,
        _ => panic!("second client must start a pairing round"),
    };
    assert_eq!(round.listener_conn, 1);
    assert_eq!(round.listener_addr, addr_a);
    assert_eq!(round.connector_conn, 2);
    assert_eq!(round.listener_assignment, ServerMessage::YouListen);

    let r3 = relay.on_hello(3, addr_c, ClientMessage::Ready);
    assert!(matches!(r3, HelloOutcome::Held));
    assert_eq!(relay.pending, Some((3, addr_c)));
}

#[test]
fn roles_are_complementary_and_address_is_relay_observed() {
    let mut relay: Coordinator<u64> = Coordinator::new();
    let addr_a = endpoint(127, 0, 0, 1, 51000);
    let addr_b = endpoint(127, 0, 0, 1, 52000);

    relay.on_hello(1, addr_a, ClientMessage::Ready);
    let round = match relay.on_hello(2, addr_b, ClientMessage::Ready) {
        HelloOutcome::Pair(round) => round,
        _ => panic!("expected a pairing round"),
    };
    // The stored client is told to listen...
    assert_eq!(round.listener_assignment, ServerMessage::YouListen);
    // ...and once it acknowledges, the newcomer is told to connect to
    // the listener's relay-observed address, not its own.
    match round.finish(Some(ClientMessage::ReadyToListen)) {
        PairingResult::Complete {
            listener_conn,
            connector_conn,
            connector_assignment,
        } => {
            assert_eq!(listener_conn, 1);
            assert_eq!(connector_conn, 2);
            assert_eq!(
                connector_assignment,
                ServerMessage::YouConnect { address: addr_a }
            );
        }
        PairingResult::Abandoned { .. } => panic!("round must complete"),
    }
}

#[test]
fn wrong_hello_is_contained() {
    // A connection whose first message is ReadyToListen is rejected
    // without touching the pending slot; later clients still pair.
    let mut relay: Coordinator<u64> = Coordinator::new();
    let r = relay.on_hello(9, endpoint(10, 0, 0, 9, 9), ClientMessage::ReadyToListen);
    match r {
        HelloOutcome::Violation { conn } => assert_eq!(conn, 9),
        _ => panic!("a hello that is not Ready is a violation"),
    }
    assert_eq!(relay.pending, None);

    relay.on_hello(1, endpoint(10, 0, 0, 1, 1), ClientMessage::Ready);
    let r2 = relay.on_hello(2, endpoint(10, 0, 0, 2, 2), ClientMessage::Ready);
    assert!(matches!(r2, HelloOutcome::Pair(_)));
}

#[test]
fn pending_disconnect_is_contained() {
    // The pending client vanishes before acknowledging: the round is
    // abandoned, both connections come back, and the relay can go on.
    let mut relay: Coordinator<u64> = Coordinator::new();
    relay.on_hello(1, endpoint(10, 0, 0, 1, 1), ClientMessage::Ready);
    let round = match relay.on_hello(2, endpoint(10, 0, 0, 2, 2), ClientMessage::Ready) {
        HelloOutcome::Pair(round) => round,
        _ => panic!("expected a pairing round"),
    };
    match round.finish(None) {
        PairingResult::Abandoned {
            listener_conn,
            connector_conn,
        } => {
            assert_eq!(listener_conn, 1);
            assert_eq!(connector_conn, 2);
        }
        PairingResult::Complete { .. } => panic!("a vanished listener cannot complete"),
    }
    // The slot was already cleared when the round began.
    assert_eq!(relay.pending, None);

    relay.on_hello(3, endpoint(10, 0, 0, 3, 3), ClientMessage::Ready);
    let r = relay.on_hello(4, endpoint(10, 0, 0, 4, 4), ClientMessage::Ready);
    assert!(matches!(r, HelloOutcome::Pair(_)));
}

#[test]
fn wrong_acknowledgement_abandons_the_round() {
    let mut relay: Coordinator<u64> = Coordinator::new();
    relay.on_hello(1, endpoint(10, 0, 0, 1, 1), ClientMessage::Ready);
    let round = match relay.on_hello(2, endpoint(10, 0, 0, 2, 2), ClientMessage::Ready) {
        HelloOutcome::Pair(round) => round,
        _ => panic!("expected a pairing round"),
    };
    // Ready, where ReadyToListen is owed, is a protocol violation.
    assert!(matches!(
        round.finish(Some(ClientMessage::Ready)),
        PairingResult::Abandoned { .. }
    ));
}
