use peertlshake::actor::{ActorEvent, ActorState, Command};
use peertlshake::addr::PeerAddr;
use peertlshake::node::{ConnectDecision, Node, NodeError};

fn local_addr(port: u16) -> PeerAddr {
    // 127.0.0.1
    PeerAddr::v4(0x7F000001, port)
}

#[test]
fn addresses_compare_by_host_and_port() {
    let a = local_addr(9000);
    assert_eq!(a, PeerAddr::v4(0x7F000001, 9000));
    assert_ne!(a, local_addr(9001));
    assert_ne!(a, PeerAddr::v4(0x7F000002, 9000));
    // ::1
    let b = PeerAddr::v6(1, 9000);
    assert_eq!(b, PeerAddr::v6(1, 9000));
    assert_ne!(b, PeerAddr::v6(1, 9001));
    assert_ne!(b, PeerAddr::v6(2, 9000));
    // An IPv4 host never equals an IPv6 host, whatever the numeric value.
    assert_ne!(PeerAddr::v4(1, 9000), PeerAddr::v6(1, 9000));
}

#[test]
fn both_address_families_are_served_independently() {
    let mut node = Node::new();
    let four = local_addr(9000);
    // [::1]:9000
    let six = PeerAddr::v6(1, 9000);
    assert_eq!(node.connect_begin(six), ConnectDecision::Dial);
    node.connect_established(four, 1);
    // The IPv6 endpoint is its own connection, not the IPv4 one.
    assert_eq!(node.connect_begin(six), ConnectDecision::Dial);
    node.connect_established(six, 2);
    let (handle, _cmd) = node.write(six, vec![1]).unwrap();
    assert_eq!(handle, 2);
    let (handle, _cmd) = node.write(four, vec![1]).unwrap();
    assert_eq!(handle, 1);
    assert!(matches!(node.close(six), Some((2, Command::Close))));
    assert_eq!(node.write(six, vec![1]).unwrap_err(), NodeError::NotConnected);
    // The IPv4 connection is untouched by the IPv6 close.
    assert!(node.write(four, vec![1]).is_ok());
}

#[test]
fn connect_is_idempotent_while_established() {
    let mut node = Node::new();
    let addr = local_addr(9000);
    assert_eq!(node.connect_begin(addr), ConnectDecision::Dial);
    node.connect_established(addr, 1);
    // A second connect short-circuits: no duplicate actor is created.
    assert_eq!(node.connect_begin(addr), ConnectDecision::AlreadyEstablished);
    assert_eq!(node.connect_begin(addr), ConnectDecision::AlreadyEstablished);
    // Still exactly one handle registered for the address.
    let (handle, _cmd) = node.write(addr, vec![1]).unwrap();
    assert_eq!(handle, 1);
}

#[test]
fn write_routes_to_registered_handle() {
    let mut node = Node::new();
    let addr = local_addr(9000);
    node.connect_established(addr, 7);
    let (handle, cmd) = node.write(addr, vec![1, 2, 3]).unwrap();
    assert_eq!(handle, 7);
    assert!(matches!(cmd, Command::Write(b) if b == vec![1, 2, 3]));
}

#[test]
fn write_fails_when_not_connected() {
    let node = Node::new();
    let addr = local_addr(9000);
    assert_eq!(node.write(addr, vec![1]).unwrap_err(), NodeError::NotConnected);
}

#[test]
fn reader_routes_a_new_listener_command() {
    let mut node = Node::new();
    let addr = local_addr(9000);
    node.connect_established(addr, 7);
    let (handle, cmd) = node.reader(addr, 42).unwrap();
    assert_eq!(handle, 7);
    assert!(matches!(cmd, Command::NewListener(42)));
}

#[test]
fn reader_fails_when_not_connected() {
    let node = Node::new();
    let addr = local_addr(9000);
    assert_eq!(node.reader(addr, 42).unwrap_err(), NodeError::NotConnected);
}

#[test]
fn close_removes_entry_then_owes_close_to_old_handle() {
    let mut node = Node::new();
    let addr = local_addr(9000);
    node.connect_established(addr, 7);
    let closed = node.close(addr);
    assert!(matches!(closed, Some((7, Command::Close))));
    // After close, a write fails with "connection not established".
    assert_eq!(node.write(addr, vec![1]).unwrap_err(), NodeError::NotConnected);
    // Closing again is tolerated: the connection is already gone.
    assert!(node.close(addr).is_none());
    // A fresh connect may succeed again, producing a fresh actor.
    assert_eq!(node.connect_begin(addr), ConnectDecision::Dial);
    node.connect_established(addr, 8);
    let (handle, _cmd) = node.write(addr, vec![1]).unwrap();
    assert_eq!(handle, 8);
}

#[test]
fn shutdown_closes_every_connection_exactly_once() {
    let mut node = Node::new();
    let a = local_addr(9000);
    let b = local_addr(9001);
    let c = local_addr(9002);
    node.connect_established(a, 1);
    node.connect_established(b, 2);
    node.connect_established(c, 3);
    let closed = node.shutdown();
    assert_eq!(closed.len(), 3);
    assert!(closed.contains(&(a, 1)));
    assert!(closed.contains(&(b, 2)));
    assert!(closed.contains(&(c, 3)));
    // Nothing is left: every later operation fails as not connected.
    assert_eq!(node.write(a, vec![1]).unwrap_err(), NodeError::NotConnected);
    assert_eq!(node.write(b, vec![1]).unwrap_err(), NodeError::NotConnected);
    assert_eq!(node.write(c, vec![1]).unwrap_err(), NodeError::NotConnected);
    assert!(node.shutdown().is_empty());
}

#[test]
fn simulated_session_echo_reaches_single_reader() {
    // The scenario: connect to 127.0.0.1:9000, the peer completes the
    // handshake, write b"ping", the peer echoes it, and a registered reader
    // observes exactly one chunk equal to b"ping".
    let mut node = Node::new();
    let addr = local_addr(9000);
    assert_eq!(node.connect_begin(addr), ConnectDecision::Dial);
    let mut actor = ActorState::new();
    node.connect_established(addr, 1);

    // Register a reader.
    let (handle, cmd) = node.reader(addr, 10).unwrap();
    assert_eq!(handle, 1);
    let eff = actor.step(ActorEvent::CommandReceived(cmd));
    assert!(eff.deliveries.is_empty() && eff.wire_write.is_none() && !eff.stop);

    // Write b"ping": the bytes are owed to the wire.
    let (_, cmd) = node.write(addr, b"ping".to_vec()).unwrap();
    let eff = actor.step(ActorEvent::CommandReceived(cmd));
    assert_eq!(eff.wire_write, Some(b"ping".to_vec()));
    assert!(!eff.stop);

    // The peer echoes: the one reader observes exactly one chunk b"ping".
    let eff = actor.step(ActorEvent::ChunkArrived(b"ping".to_vec(), vec![true]));
    assert_eq!(eff.deliveries, vec![10]);
    assert_eq!(eff.chunk, Some(b"ping".to_vec()));
    assert!(!eff.stop);
}
