use peertlshake::actor::{ActorEvent, ActorState, Command};

#[test]
fn chunk_fans_out_to_every_live_subscriber_in_order() {
    let mut actor = ActorState::new();
    actor.step(ActorEvent::CommandReceived(Command::NewListener(1)));
    actor.step(ActorEvent::CommandReceived(Command::NewListener(2)));
    actor.step(ActorEvent::CommandReceived(Command::NewListener(3)));
    let eff = actor.step(ActorEvent::ChunkArrived(vec![9, 9], vec![true, true, true]));
    assert_eq!(eff.deliveries, vec![1, 2, 3]);
    assert_eq!(eff.chunk, Some(vec![9, 9]));
    assert!(eff.wire_write.is_none());
    assert!(!eff.stop);
}

#[test]
fn dead_subscriber_is_pruned_and_not_attempted() {
    let mut actor = ActorState::new();
    actor.step(ActorEvent::CommandReceived(Command::NewListener(1)));
    actor.step(ActorEvent::CommandReceived(Command::NewListener(2)));
    actor.step(ActorEvent::CommandReceived(Command::NewListener(3)));
    // Subscriber 2's receiving side is dropped: it gets nothing, the others
    // are unaffected.
    let eff = actor.step(ActorEvent::ChunkArrived(vec![5], vec![true, false, true]));
    assert_eq!(eff.deliveries, vec![1, 3]);
    // It stays pruned: the next chunk consults only the remaining two.
    let eff = actor.step(ActorEvent::ChunkArrived(vec![6], vec![true, true]));
    assert_eq!(eff.deliveries, vec![1, 3]);
}

#[test]
fn late_subscriber_sees_only_later_chunks() {
    let mut actor = ActorState::new();
    actor.step(ActorEvent::CommandReceived(Command::NewListener(1)));
    let eff = actor.step(ActorEvent::ChunkArrived(vec![1], vec![true]));
    assert_eq!(eff.deliveries, vec![1]);
    // Subscriber 2 registers after the first chunk: it never sees it.
    actor.step(ActorEvent::CommandReceived(Command::NewListener(2)));
    let eff = actor.step(ActorEvent::ChunkArrived(vec![2], vec![true, true]));
    assert_eq!(eff.deliveries, vec![1, 2]);
}

#[test]
fn sequential_writes_keep_their_order() {
    let mut actor = ActorState::new();
    let first = actor.step(ActorEvent::CommandReceived(Command::Write(b"one".to_vec())));
    let second = actor.step(ActorEvent::CommandReceived(Command::Write(b"two".to_vec())));
    assert_eq!(first.wire_write, Some(b"one".to_vec()));
    assert_eq!(second.wire_write, Some(b"two".to_vec()));
    assert!(!first.stop && !second.stop);
}

#[test]
fn close_command_stops_the_loop() {
    let mut actor = ActorState::new();
    actor.step(ActorEvent::CommandReceived(Command::NewListener(1)));
    let eff = actor.step(ActorEvent::CommandReceived(Command::Close));
    assert!(eff.stop);
    assert!(eff.deliveries.is_empty() && eff.chunk.is_none() && eff.wire_write.is_none());
}

#[test]
fn read_error_is_transient_but_send_failures_are_fatal() {
    let mut actor = ActorState::new();
    let eff = actor.step(ActorEvent::ReadFailed);
    assert!(!eff.stop);
    let eff = actor.step(ActorEvent::DeliveryFailed);
    assert!(eff.stop);
    let mut actor = ActorState::new();
    let eff = actor.step(ActorEvent::WireWriteFailed);
    assert!(eff.stop);
}

#[test]
fn empty_chunk_is_still_fanned_out() {
    let mut actor = ActorState::new();
    actor.step(ActorEvent::CommandReceived(Command::NewListener(4)));
    let eff = actor.step(ActorEvent::ChunkArrived(Vec::new(), vec![true]));
    assert_eq!(eff.deliveries, vec![4]);
    assert_eq!(eff.chunk, Some(Vec::new()));
}

#[test]
fn subscriber_count_tracks_registrations_and_pruning() {
    let mut actor = ActorState::new();
    assert_eq!(actor.subscriber_count(), 0);
    actor.step(ActorEvent::CommandReceived(Command::NewListener(1)));
    actor.step(ActorEvent::CommandReceived(Command::NewListener(2)));
    assert_eq!(actor.subscriber_count(), 2);
    actor.step(ActorEvent::ChunkArrived(vec![0], vec![false, true]));
    assert_eq!(actor.subscriber_count(), 1);
}
