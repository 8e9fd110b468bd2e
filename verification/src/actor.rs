//! The connection actor: one per established connection, interleaving two
//! event sources — bytes arriving from the encrypted stream and commands from
//! the inbox.
//!
//! The actor's decisions are a step function from subscriber state and event
//! to the next state and the effects owed: which subscribers receive the
//! chunk, what goes on the wire, and whether the loop stops. The surrounding
//! task performs the effects (sends, stream writes) and hands the next event
//! back.

use vstd::prelude::*;

verus! {

/// A command sent to a connection actor's inbox.
#[derive(Debug)]
pub enum Command {
    /// Write the bytes to the stream's write half.
    Write(Vec<u8>),
    /// Register a new subscriber, identified by a fresh handle.
    NewListener(u64),
    /// Stop the actor's loop cleanly.
    Close,
}

/// One event observed by the actor's loop.
#[derive(Debug)]
pub enum ActorEvent {
    /// A chunk of bytes arrived from the stream's read half, together with
    /// which of the current subscribers (by position) are still open.
    ChunkArrived(Vec<u8>, Vec<bool>),
    /// A transient error on the stream's read half: logged, not fatal.
    ReadFailed,
    /// The next command from the inbox.
    CommandReceived(Command),
    /// Handing a chunk to a live subscriber failed: fatal to the actor.
    DeliveryFailed,
    /// Writing to the stream's write half failed: fatal to the actor.
    WireWriteFailed,
}

/// The effects one step owes the surrounding task.
#[derive(Debug)]
pub struct StepEffects {
    /// Subscribers owed a copy of the chunk, in registration order.
    pub deliveries: Vec<u64>,
    /// The chunk to deliver to each of them.
    pub chunk: Option<Vec<u8>>,
    /// Bytes owed to the stream's write half.
    pub wire_write: Option<Vec<u8>>,
    /// Whether the actor's loop ends after this step.
    pub stop: bool,
}

/// The subscribers restricted to those still alive, in their original order.
pub open spec fn filter_live(subs: Seq<u64>, alive: Seq<bool>) -> Seq<u64>
    decreases subs.len(),
{
    if subs.len() == 0 || alive.len() == 0 {
        Seq::empty()
    } else {
        let rest = filter_live(subs.drop_last(), alive.drop_last());
        if alive.last() {
            rest.push(subs.last())
        } else {
            rest
        }
    }
}

/// The subscriber list after one step.
pub open spec fn step_listeners(subs: Seq<u64>, event: ActorEvent) -> Seq<u64> {
    match event {
        ActorEvent::ChunkArrived(_, alive) => filter_live(subs, alive@),
        ActorEvent::CommandReceived(Command::NewListener(l)) => subs.push(l),
        _ => subs,
    }
}

/// The subscribers a step delivers the chunk to, in registration order.
pub open spec fn step_deliveries(subs: Seq<u64>, event: ActorEvent) -> Seq<u64> {
    match event {
        ActorEvent::ChunkArrived(_, alive) => filter_live(subs, alive@),
        _ => Seq::empty(),
    }
}

/// The chunk a step delivers, if the event carried one.
pub open spec fn step_chunk(subs: Seq<u64>, event: ActorEvent) -> Option<Seq<u8>> {
    match event {
        ActorEvent::ChunkArrived(c, _) => Some(c@),
        _ => None,
    }
}

/// The bytes a step puts on the wire, if the event was a write command.
pub open spec fn step_wire(subs: Seq<u64>, event: ActorEvent) -> Option<Seq<u8>> {
    match event {
        ActorEvent::CommandReceived(Command::Write(b)) => Some(b@),
        _ => None,
    }
}

/// Whether a step ends the actor's loop: a close command or a fatal failure
/// does; a transient read error does not.
pub open spec fn step_stop(subs: Seq<u64>, event: ActorEvent) -> bool {
    match event {
        ActorEvent::CommandReceived(Command::Close) => true,
        ActorEvent::DeliveryFailed => true,
        ActorEvent::WireWriteFailed => true,
        _ => false,
    }
}

/// The view of an optional byte buffer.
pub open spec fn opt_bytes_view(o: Option<Vec<u8>>) -> Option<Seq<u8>> {
    match o {
        Some(b) => Some(b@),
        None => None,
    }
}

/// Every element of the live restriction occurs among the subscribers.
pub proof fn lemma_filter_live_subset(subs: Seq<u64>, alive: Seq<bool>, x: u64)
    requires
        filter_live(subs, alive).contains(x),
    ensures
        subs.contains(x),
    decreases subs.len(),
{
    if subs.len() == 0 || alive.len() == 0 {
    } else {
        let rest = filter_live(subs.drop_last(), alive.drop_last());
        if alive.last() && x == subs.last() {
            assert(subs.contains(x));
        } else {
            assert(rest.contains(x)) by {
                let full = filter_live(subs, alive);
                let i = choose|i: int| 0 <= i < full.len() && full[i] == x;
                if alive.last() {
                    assert(full[i] == rest.push(subs.last())[i]);
                    assert(rest[i] == x);
                }
            }
            lemma_filter_live_subset(subs.drop_last(), alive.drop_last(), x);
            let j = choose|j: int|
                0 <= j < subs.drop_last().len() && subs.drop_last()[j] == x;
            assert(subs[j] == x);
        }
    }
}

/// With distinct subscribers, the live restriction keeps them distinct.
pub proof fn lemma_filter_live_no_duplicates(subs: Seq<u64>, alive: Seq<bool>)
    requires
        subs.no_duplicates(),
    ensures
        filter_live(subs, alive).no_duplicates(),
    decreases subs.len(),
{
    if subs.len() == 0 || alive.len() == 0 {
    } else {
        assert(subs.drop_last().no_duplicates());
        lemma_filter_live_no_duplicates(subs.drop_last(), alive.drop_last());
        let rest = filter_live(subs.drop_last(), alive.drop_last());
        if alive.last() {
            assert(!rest.contains(subs.last())) by {
                if rest.contains(subs.last()) {
                    lemma_filter_live_subset(subs.drop_last(), alive.drop_last(), subs.last());
                    let j = choose|j: int|
                        0 <= j < subs.drop_last().len() && subs.drop_last()[j] == subs.last();
                    assert(subs[j] == subs[subs.len() - 1]);
                    assert(false);
                }
            }
            let out = rest.push(subs.last());
            assert forall|p: int, q: int|
                0 <= p < out.len() && 0 <= q < out.len() && p != q implies out[p] != out[q] by {
                if p < rest.len() && q < rest.len() {
                } else if p == rest.len() {
                    assert(out[q] == rest[q]);
                    assert(rest.contains(rest[q]));
                } else {
                    assert(out[p] == rest[p]);
                    assert(rest.contains(rest[p]));
                }
            }
        }
    }
}

/// With distinct subscribers, a subscriber is in the live restriction exactly
/// when its flag says it is alive.
pub proof fn lemma_filter_live_membership(subs: Seq<u64>, alive: Seq<bool>, i: int)
    requires
        subs.no_duplicates(),
        alive.len() == subs.len(),
        0 <= i < subs.len(),
    ensures
        filter_live(subs, alive).contains(subs[i]) <==> alive[i],
    decreases subs.len(),
{
    let rest = filter_live(subs.drop_last(), alive.drop_last());
    if i == subs.len() - 1 {
        if alive[i] {
            let out = rest.push(subs.last());
            assert(out[out.len() - 1] == subs[i]);
            assert(out.contains(subs[i]));
        } else {
            if filter_live(subs, alive).contains(subs[i]) {
                lemma_filter_live_subset(subs.drop_last(), alive.drop_last(), subs[i]);
                let j = choose|j: int|
                    0 <= j < subs.drop_last().len() && subs.drop_last()[j] == subs[i];
                assert(subs[j] == subs[i]);
                assert(false);
            }
        }
    } else {
        assert(subs.drop_last().no_duplicates());
        lemma_filter_live_membership(subs.drop_last(), alive.drop_last(), i);
        assert(subs.drop_last()[i] == subs[i]);
        assert(alive.drop_last()[i] == alive[i]);
        if alive.last() {
            let out = rest.push(subs.last());
            assert(subs[i] != subs.last());
            if alive[i] {
                let j = choose|j: int| 0 <= j < rest.len() && rest[j] == subs[i];
                assert(out[j] == subs[i]);
                assert(out.contains(subs[i]));
            } else {
                if out.contains(subs[i]) {
                    let j = choose|j: int| 0 <= j < out.len() && out[j] == subs[i];
                    assert(j < rest.len());
                    assert(rest.contains(subs[i]));
                    assert(false);
                }
            }
        }
    }
}

/// Fan-out keeps registration order: two subscribers both alive when a chunk
/// arrives stand in the delivery list in the order they registered.
pub proof fn lemma_filter_live_order(subs: Seq<u64>, alive: Seq<bool>, i: int, j: int)
    requires
        subs.no_duplicates(),
        alive.len() == subs.len(),
        0 <= i < j < subs.len(),
        alive[i],
        alive[j],
    ensures
        ({
            let out = filter_live(subs, alive);
            exists|p: int, q: int|
                0 <= p < q < out.len() && out[p] == subs[i] && out[q] == subs[j]
        }),
    decreases subs.len(),
{
    let out = filter_live(subs, alive);
    let rest = filter_live(subs.drop_last(), alive.drop_last());
    assert(subs.drop_last().no_duplicates());
    if j == subs.len() - 1 {
        assert(subs.drop_last()[i] == subs[i]);
        assert(alive.drop_last()[i] == alive[i]);
        lemma_filter_live_membership(subs.drop_last(), alive.drop_last(), i);
        let p = choose|p: int| 0 <= p < rest.len() && rest[p] == subs[i];
        let q = rest.len() as int;
        assert(out == rest.push(subs.last()));
        assert(out[p] == subs[i]);
        assert(out[q] == subs[j]);
        assert(0 <= p < q < out.len());
    } else {
        lemma_filter_live_order(subs.drop_last(), alive.drop_last(), i, j);
        let (p, q) = choose|p: int, q: int|
            0 <= p < q < rest.len() && rest[p] == subs.drop_last()[i] && rest[q]
                == subs.drop_last()[j];
        if alive.last() {
            assert(out == rest.push(subs.last()));
        }
        assert(out[p] == subs[i]);
        assert(out[q] == subs[j]);
        assert(0 <= p < q < out.len());
    }
}

/// The subscriber state of one connection actor.
pub struct ActorState {
    listeners: Vec<u64>,
}

impl View for ActorState {
    type V = Seq<u64>;

    closed spec fn view(&self) -> Seq<u64> {
        self.listeners@
    }
}

impl ActorState {
    #[verifier::type_invariant]
    spec fn wf(self) -> bool {
        self.listeners@.no_duplicates()
    }

    /// A fresh actor: no subscribers yet.
    pub fn new() -> (r: Self)
        ensures
            r@ == Seq::<u64>::empty(),
    {
        ActorState { listeners: Vec::new() }
    }

    /// Handle one event: prune and fan out on a chunk, register a listener,
    /// forward a write, or stop — exactly as the step functions say.
    pub fn step(&mut self, event: ActorEvent) -> (eff: StepEffects)
        requires
            match event {
                ActorEvent::ChunkArrived(_, alive) => alive@.len() == old(self)@.len(),
                ActorEvent::CommandReceived(Command::NewListener(l)) => !old(self)@.contains(l),
                _ => true,
            },
        ensures
            final(self)@ == step_listeners(old(self)@, event),
            eff.deliveries@ == step_deliveries(old(self)@, event),
            opt_bytes_view(eff.chunk) == step_chunk(old(self)@, event),
            opt_bytes_view(eff.wire_write) == step_wire(old(self)@, event),
            eff.stop == step_stop(old(self)@, event),
    {
        proof {
            use_type_invariant(&*self);
        }
        match event {
            ActorEvent::ChunkArrived(chunk, alive) => {
                let ghost subs0 = self@;
                let mut tmp = ActorState { listeners: Vec::new() };
                std::mem::swap(self, &mut tmp);
                let ActorState { listeners } = tmp;
                let mut kept: Vec<u64> = Vec::new();
                let mut owed: Vec<u64> = Vec::new();
                let mut i: usize = 0;
                while i < listeners.len()
                    invariant
                        i <= listeners@.len(),
                        alive@.len() == listeners@.len(),
                        kept@ == filter_live(listeners@.take(i as int), alive@.take(i as int)),
                        owed@ == kept@,
                    decreases listeners@.len() - i,
                {
                    let ghost pre = filter_live(
                        listeners@.take(i as int),
                        alive@.take(i as int),
                    );
                    if alive[i] {
                        kept.push(listeners[i]);
                        owed.push(listeners[i]);
                    }
                    proof {
                        assert(listeners@.take(i + 1).drop_last() =~= listeners@.take(i as int));
                        assert(alive@.take(i + 1).drop_last() =~= alive@.take(i as int));
                        assert(listeners@.take(i + 1).last() == listeners@[i as int]);
                        assert(alive@.take(i + 1).last() == alive@[i as int]);
                    }
                    i += 1;
                }
                proof {
                    assert(listeners@.take(listeners@.len() as int) =~= listeners@);
                    assert(alive@.take(listeners@.len() as int) =~= alive@);
                    lemma_filter_live_no_duplicates(subs0, alive@);
                }
                *self = ActorState { listeners: kept };
                StepEffects { deliveries: owed, chunk: Some(chunk), wire_write: None, stop: false }
            },
            ActorEvent::ReadFailed => {
                StepEffects { deliveries: Vec::new(), chunk: None, wire_write: None, stop: false }
            },
            ActorEvent::CommandReceived(cmd) => match cmd {
                Command::Write(bytes) => {
                    StepEffects {
                        deliveries: Vec::new(),
                        chunk: None,
                        wire_write: Some(bytes),
                        stop: false,
                    }
                },
                Command::NewListener(l) => {
                    let ghost subs0 = self@;
                    let mut tmp = ActorState { listeners: Vec::new() };
                    std::mem::swap(self, &mut tmp);
                    let ActorState { mut listeners } = tmp;
                    listeners.push(l);
                    proof {
                        assert forall|p: int, q: int|
                            0 <= p < listeners@.len() && 0 <= q < listeners@.len() && p != q
                            implies listeners@[p] != listeners@[q] by {
                            if p == listeners@.len() - 1 {
                                assert(listeners@[q] == subs0[q]);
                                assert(subs0.contains(subs0[q]));
                            } else if q == listeners@.len() - 1 {
                                assert(listeners@[p] == subs0[p]);
                                assert(subs0.contains(subs0[p]));
                            }
                        }
                    }
                    *self = ActorState { listeners };
                    StepEffects { deliveries: Vec::new(), chunk: None, wire_write: None, stop: false }
                },
                Command::Close => {
                    StepEffects { deliveries: Vec::new(), chunk: None, wire_write: None, stop: true }
                },
            },
            ActorEvent::DeliveryFailed => {
                StepEffects { deliveries: Vec::new(), chunk: None, wire_write: None, stop: true }
            },
            ActorEvent::WireWriteFailed => {
                StepEffects { deliveries: Vec::new(), chunk: None, wire_write: None, stop: true }
            },
        }
    }

    /// How many subscribers are registered.
    pub fn subscriber_count(&self) -> (r: usize)
        ensures
            r == self@.len(),
    {
        self.listeners.len()
    }

    /// The registered subscriber handles, in registration order. The
    /// surrounding task aligns its liveness flags with this order.
    pub fn listener_ids(&self) -> (r: Vec<u64>)
        ensures
            r@ == self@,
    {
        let mut out: Vec<u64> = Vec::new();
        let mut i: usize = 0;
        while i < self.listeners.len()
            invariant
                i <= self.listeners@.len(),
                out@ == self.listeners@.take(i as int),
            decreases self.listeners@.len() - i,
        {
            let x = self.listeners[i];
            out.push(x);
            proof {
                assert(out@ =~= self.listeners@.take(i as int + 1));
            }
            i += 1;
        }
        proof {
            assert(out@ =~= self.listeners@);
        }
        out
    }
}

/// Fan-out law: when a chunk arrives, a subscriber receives it exactly when
/// it is still alive; the delivery list repeats no subscriber, keeps
/// registration order (it is the subscriber list restricted to its live
/// entries), carries the chunk byte for byte, and the event never ends the
/// loop. A dead subscriber is not attempted, and its death does not change
/// what the others receive.
pub proof fn lemma_fanout(subs: Seq<u64>, chunk: Vec<u8>, alive: Vec<bool>, i: int)
    requires
        subs.no_duplicates(),
        alive@.len() == subs.len(),
        0 <= i < subs.len(),
    ensures
        step_deliveries(subs, ActorEvent::ChunkArrived(chunk, alive)).contains(subs[i])
            <==> alive@[i],
        step_deliveries(subs, ActorEvent::ChunkArrived(chunk, alive)).no_duplicates(),
        step_chunk(subs, ActorEvent::ChunkArrived(chunk, alive)) == Some(chunk@),
        !step_stop(subs, ActorEvent::ChunkArrived(chunk, alive)),
{
    lemma_filter_live_membership(subs, alive@, i);
    lemma_filter_live_no_duplicates(subs, alive@);
}

/// Late-subscriber law: a subscriber not yet registered when a chunk arrives
/// receives nothing from it; once its registration command is handled it
/// stands in the subscriber list, so it receives every later chunk it is
/// alive for.
pub proof fn lemma_no_early_delivery(subs: Seq<u64>, chunk: Vec<u8>, alive: Vec<bool>, l: u64)
    requires
        !subs.contains(l),
    ensures
        !step_deliveries(subs, ActorEvent::ChunkArrived(chunk, alive)).contains(l),
        step_listeners(subs, ActorEvent::CommandReceived(Command::NewListener(l))).contains(l),
{
    if step_deliveries(subs, ActorEvent::ChunkArrived(chunk, alive)).contains(l) {
        lemma_filter_live_subset(subs, alive@, l);
        assert(false);
    }
    let after = step_listeners(subs, ActorEvent::CommandReceived(Command::NewListener(l)));
    assert(after[after.len() - 1] == l);
    assert(after.contains(l));
}

/// Write-ordering law: two write commands handled in sequence put the bytes
/// on the wire in the order issued — the first step emits the first payload,
/// leaves the subscriber state unchanged and does not stop the loop, and the
/// step that follows emits the second payload.
pub proof fn lemma_write_ordering(subs: Seq<u64>, a: Vec<u8>, b: Vec<u8>)
    ensures
        step_wire(subs, ActorEvent::CommandReceived(Command::Write(a))) == Some(a@),
        step_listeners(subs, ActorEvent::CommandReceived(Command::Write(a))) == subs,
        !step_stop(subs, ActorEvent::CommandReceived(Command::Write(a))),
        step_wire(
            step_listeners(subs, ActorEvent::CommandReceived(Command::Write(a))),
            ActorEvent::CommandReceived(Command::Write(b)),
        ) == Some(b@),
{
}

} // verus!
