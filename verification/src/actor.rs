//! The coordination actor's decision core. The actor owns the only handles
//! to the store and the routing state; a host loop feeds it one input at a
//! time — a consumer command or a raw network notification — and `step`
//! answers with the actions the network layer must perform and the events
//! to send to the consumer, while updating the state it owns.
//!
//! The host loop around this is a single task with two wait points: the
//! next input, and the send of a translated event when the outbound channel
//! is full. All suspension lives there; `step` itself never waits.

use vstd::prelude::*;
use crate::bytes::copy_bytes;
use crate::data::{Address, P2pCommand, P2pEvent, PeerIdentity, RecordKey};
use crate::dispatch::{dispatch_command, dispatch_matches, DhtAction};
use crate::routing::{book_pair, AddressBook};
use crate::store::RecordStore;
use crate::translate::{
    accept_inbound,
    inbound_event,
    inbound_store_effect,
    query_event,
    translate_query_outcome,
    NetNotification,
};

verus! {

/// One thing for the actor to react to.
#[derive(Debug, Clone, PartialEq, Eq)]
pub enum ActorInput {
    /// The consumer asked for something.
    Command(P2pCommand),
    /// The network layer reported something.
    Network(NetNotification),
}

/// One instruction for the network layer.
#[derive(Debug, Clone, PartialEq, Eq)]
pub enum NetAction {
    /// Issue this query.
    Dht(DhtAction),
    /// Register a discovered address in the network layer's routing table.
    AddRoutingAddress(PeerIdentity, Address),
    /// Drop an expired address from the network layer's routing table.
    RemoveRoutingAddress(PeerIdentity, Address),
}

/// Everything one step asks of the outside: instructions for the network
/// layer, and events for the consumer, each in order.
#[derive(Debug)]
pub struct StepEffects {
    pub actions: Vec<NetAction>,
    pub events: Vec<P2pEvent>,
}

/// Zero or one events, as a sequence.
pub open spec fn opt_event_seq(o: Option<P2pEvent>) -> Seq<P2pEvent> {
    match o {
        Some(e) => seq![e],
        None => Seq::empty(),
    }
}

/// The events one input produces, in order. Translation is stateless: what
/// is sent depends only on what arrived.
pub open spec fn step_events(input: ActorInput) -> Seq<P2pEvent> {
    match input {
        ActorInput::Command(_) => Seq::empty(),
        ActorInput::Network(n) => match n {
            NetNotification::NewListenAddr(address) => seq![P2pEvent::Bootstrapped(address)],
            NetNotification::PeersDiscovered(list) => list@.map_values(
                |e: (PeerIdentity, Address)| P2pEvent::PeerDiscovered(e.0, e.1),
            ),
            NetNotification::PeersExpired(list) => list@.map_values(
                |e: (PeerIdentity, Address)| P2pEvent::PeerExpired(e.0, e.1),
            ),
            NetNotification::QueryCompleted(outcome) => opt_event_seq(query_event(outcome)),
            NetNotification::InboundRequest(w) => opt_event_seq(inbound_event(w)),
            NetNotification::OtherNotification => Seq::empty(),
        },
    }
}

/// The (peer bytes, address bytes) pairs of a discovery batch.
pub open spec fn discovery_pairs(list: Seq<(PeerIdentity, Address)>) -> Set<(Seq<u8>, Seq<u8>)> {
    list.map_values(|e: (PeerIdentity, Address)| book_pair(e)).to_set()
}

/// What one input does to the discovered-address set.
pub open spec fn step_routing(
    routing: Set<(Seq<u8>, Seq<u8>)>,
    input: ActorInput,
) -> Set<(Seq<u8>, Seq<u8>)> {
    match input {
        ActorInput::Network(NetNotification::PeersDiscovered(list)) => routing.union(
            discovery_pairs(list@),
        ),
        ActorInput::Network(NetNotification::PeersExpired(list)) => routing.difference(
            discovery_pairs(list@),
        ),
        _ => routing,
    }
}

/// What one input does to the store: the (records, providers) views after
/// the step. Only an inbound write touches the store.
pub open spec fn step_stored(
    records: Map<Seq<u8>, Seq<u8>>,
    providers: Set<(Seq<u8>, Seq<u8>)>,
    input: ActorInput,
) -> (Map<Seq<u8>, Seq<u8>>, Set<(Seq<u8>, Seq<u8>)>) {
    match input {
        ActorInput::Network(NetNotification::InboundRequest(w)) => inbound_store_effect(
            records,
            providers,
            w,
        ),
        _ => (records, providers),
    }
}

/// The instructions one step must hand the network layer: a command becomes
/// exactly its dispatched query; a discovery batch becomes one routing
/// registration per pair, in batch order; an expiry batch one removal per
/// pair; nothing else asks anything of the network.
pub open spec fn step_actions_ok(input: ActorInput, actions: Seq<NetAction>) -> bool {
    match input {
        ActorInput::Command(c) => actions.len() == 1 && (actions[0] matches NetAction::Dht(a)
            && dispatch_matches(c, a)),
        ActorInput::Network(n) => match n {
            NetNotification::PeersDiscovered(list) => actions.len() == list@.len() && forall|i: int|
                0 <= i < actions.len() ==> (#[trigger] actions[i] matches
                    NetAction::AddRoutingAddress(p, a) && p@ == list@[i].0@ && a@ == list@[i].1@),
            NetNotification::PeersExpired(list) => actions.len() == list@.len() && forall|i: int|
                0 <= i < actions.len() ==> (#[trigger] actions[i] matches
                    NetAction::RemoveRoutingAddress(p, a) && p@ == list@[i].0@ && a@
                    == list@[i].1@),
            _ => actions == Seq::<NetAction>::empty(),
        },
    }
}

/// Taking one more element of a batch adds exactly its pair.
proof fn lemma_discovery_pairs_step(s: Seq<(PeerIdentity, Address)>, k: int)
    requires
        0 <= k < s.len(),
    ensures
        discovery_pairs(s.take(k + 1)) == discovery_pairs(s.take(k)).insert(book_pair(s[k])),
{
    let a = s.take(k).map_values(|e: (PeerIdentity, Address)| book_pair(e));
    let b = s.take(k + 1).map_values(|e: (PeerIdentity, Address)| book_pair(e));
    assert forall|x: (Seq<u8>, Seq<u8>)| b.contains(x) implies a.contains(x)
        || x == book_pair(s[k]) by {
        let j = choose|j: int| 0 <= j < b.len() && b[j] == x;
        if j < k {
            assert(a[j] == x);
        }
    }
    assert forall|x: (Seq<u8>, Seq<u8>)| a.contains(x) implies b.contains(x) by {
        let j = choose|j: int| 0 <= j < a.len() && a[j] == x;
        assert(b[j] == x);
    }
    assert(b[k] == book_pair(s[k]));
    assert(b.contains(book_pair(s[k])));
    assert(discovery_pairs(s.take(k + 1)) =~= discovery_pairs(s.take(k)).insert(book_pair(s[k])));
}

/// The actor's state: the only handles to the local store and to the
/// discovered-address set.
pub struct ActorState {
    store: RecordStore,
    routing: AddressBook,
}

impl ActorState {
    /// The stored records, as a map from key bytes to value bytes.
    pub closed spec fn records(&self) -> Map<Seq<u8>, Seq<u8>> {
        self.store.records_view()
    }

    /// The accepted provider claims.
    pub closed spec fn providers(&self) -> Set<(Seq<u8>, Seq<u8>)> {
        self.store.providers_view()
    }

    /// The discovered (peer, address) pairs.
    pub closed spec fn routing_pairs(&self) -> Set<(Seq<u8>, Seq<u8>)> {
        self.routing.view_set()
    }

    pub closed spec fn wf(&self) -> bool {
        self.store.wf() && self.routing.wf()
    }

    /// A fresh actor: empty store, nothing discovered.
    pub fn new() -> (s: Self)
        ensures
            s.wf(),
            s.records() == Map::<Seq<u8>, Seq<u8>>::empty(),
            s.providers() == Set::<(Seq<u8>, Seq<u8>)>::empty(),
            s.routing_pairs() == Set::<(Seq<u8>, Seq<u8>)>::empty(),
    {
        ActorState { store: RecordStore::new(), routing: AddressBook::new() }
    }

    /// React to one input: update the owned state and say what the outside
    /// must do. `step` never waits and never fails.
    pub fn step(&mut self, input: ActorInput) -> (effects: StepEffects)
        requires
            old(self).wf(),
        ensures
            final(self).wf(),
            final(self).routing_pairs() == step_routing(old(self).routing_pairs(), input),
            (final(self).records(), final(self).providers()) == step_stored(
                old(self).records(),
                old(self).providers(),
                input,
            ),
            effects.events@ == step_events(input),
            step_actions_ok(input, effects.actions@),
    {
        match input {
            ActorInput::Command(cmd) => {
                let action = dispatch_command(cmd);
                let mut actions: Vec<NetAction> = Vec::new();
                actions.push(NetAction::Dht(action));
                StepEffects { actions, events: Vec::new() }
            },
            ActorInput::Network(n) => match n {
                NetNotification::NewListenAddr(address) => {
                    let mut events: Vec<P2pEvent> = Vec::new();
                    events.push(P2pEvent::Bootstrapped(address));
                    proof {
                        assert(events@ =~= step_events(input));
                    }
                    StepEffects { actions: Vec::new(), events }
                },
                NetNotification::PeersDiscovered(mut list) => {
                    let ghost orig = list@;
                    let ghost routing0 = self.routing.view_set();
                    let mut actions: Vec<NetAction> = Vec::new();
                    let mut events: Vec<P2pEvent> = Vec::new();
                    let ghost mut k: int = 0;
                    while list.len() > 0
                        invariant
                            old(self).wf(),
                            self.store == old(self).store,
                            self.routing.wf(),
                            0 <= k <= orig.len(),
                            list@ == orig.skip(k),
                            routing0 == old(self).routing.view_set(),
                            self.routing.view_set() == routing0.union(
                                discovery_pairs(orig.take(k)),
                            ),
                            events@ == orig.take(k).map_values(
                                |e: (PeerIdentity, Address)| P2pEvent::PeerDiscovered(e.0, e.1),
                            ),
                            actions@.len() == k,
                            forall|i: int| 0 <= i < k ==> (#[trigger] actions@[i] matches
                                NetAction::AddRoutingAddress(p, a) && p@ == orig[i].0@ && a@
                                == orig[i].1@),
                        decreases list@.len(),
                    {
                        proof {
                            assert(orig.skip(k)[0] == orig[k]);
                        }
                        let e = list.remove(0);
                        let peer_for_routing = PeerIdentity { bytes: copy_bytes(&e.0.bytes) };
                        let addr_for_routing = Address { bytes: copy_bytes(&e.1.bytes) };
                        let peer_for_action = PeerIdentity { bytes: copy_bytes(&e.0.bytes) };
                        let addr_for_action = Address { bytes: copy_bytes(&e.1.bytes) };
                        self.routing.insert(peer_for_routing, addr_for_routing);
                        actions.push(
                            NetAction::AddRoutingAddress(peer_for_action, addr_for_action),
                        );
                        events.push(P2pEvent::PeerDiscovered(e.0, e.1));
                        proof {
                            assert(e == orig[k]);
                            lemma_discovery_pairs_step(orig, k);
                            assert(self.routing.view_set() =~= routing0.union(
                                discovery_pairs(orig.take(k + 1)),
                            ));
                            assert(events@ =~= orig.take(k + 1).map_values(
                                |e: (PeerIdentity, Address)| P2pEvent::PeerDiscovered(e.0, e.1),
                            ));
                            assert(list@ =~= orig.skip(k + 1));
                            k = k + 1;
                        }
                    }
                    proof {
                        assert(orig.take(k) =~= orig);
                        assert(step_routing(old(self).routing_pairs(), input) == routing0.union(
                            discovery_pairs(orig),
                        ));
                        assert(events@ == step_events(input));
                    }
                    StepEffects { actions, events }
                },
                NetNotification::PeersExpired(mut list) => {
                    let ghost orig = list@;
                    let ghost routing0 = self.routing.view_set();
                    let mut actions: Vec<NetAction> = Vec::new();
                    let mut events: Vec<P2pEvent> = Vec::new();
                    let ghost mut k: int = 0;
                    while list.len() > 0
                        invariant
                            old(self).wf(),
                            self.store == old(self).store,
                            self.routing.wf(),
                            0 <= k <= orig.len(),
                            list@ == orig.skip(k),
                            routing0 == old(self).routing.view_set(),
                            self.routing.view_set() == routing0.difference(
                                discovery_pairs(orig.take(k)),
                            ),
                            events@ == orig.take(k).map_values(
                                |e: (PeerIdentity, Address)| P2pEvent::PeerExpired(e.0, e.1),
                            ),
                            actions@.len() == k,
                            forall|i: int| 0 <= i < k ==> (#[trigger] actions@[i] matches
                                NetAction::RemoveRoutingAddress(p, a) && p@ == orig[i].0@ && a@
                                == orig[i].1@),
                        decreases list@.len(),
                    {
                        proof {
                            assert(orig.skip(k)[0] == orig[k]);
                        }
                        let e = list.remove(0);
                        self.routing.remove(&e.0, &e.1);
                        let peer_for_action = PeerIdentity { bytes: copy_bytes(&e.0.bytes) };
                        let addr_for_action = Address { bytes: copy_bytes(&e.1.bytes) };
                        actions.push(
                            NetAction::RemoveRoutingAddress(peer_for_action, addr_for_action),
                        );
                        events.push(P2pEvent::PeerExpired(e.0, e.1));
                        proof {
                            assert(e == orig[k]);
                            lemma_discovery_pairs_step(orig, k);
                            assert(self.routing.view_set() =~= routing0.difference(
                                discovery_pairs(orig.take(k + 1)),
                            ));
                            assert(events@ =~= orig.take(k + 1).map_values(
                                |e: (PeerIdentity, Address)| P2pEvent::PeerExpired(e.0, e.1),
                            ));
                            assert(list@ =~= orig.skip(k + 1));
                            k = k + 1;
                        }
                    }
                    proof {
                        assert(orig.take(k) =~= orig);
                        assert(step_routing(old(self).routing_pairs(), input)
                            == routing0.difference(discovery_pairs(orig)));
                        assert(events@ == step_events(input));
                    }
                    StepEffects { actions, events }
                },
                NetNotification::QueryCompleted(outcome) => {
                    let translated = translate_query_outcome(outcome);
                    let mut events: Vec<P2pEvent> = Vec::new();
                    match translated {
                        Some(e) => events.push(e),
                        None => {},
                    }
                    proof {
                        assert(events@ =~= step_events(input));
                    }
                    StepEffects { actions: Vec::new(), events }
                },
                NetNotification::InboundRequest(w) => {
                    let accepted = accept_inbound(&mut self.store, w);
                    let mut events: Vec<P2pEvent> = Vec::new();
                    match accepted {
                        Some(e) => events.push(e),
                        None => {},
                    }
                    proof {
                        assert(events@ =~= step_events(input));
                    }
                    StepEffects { actions: Vec::new(), events }
                },
                NetNotification::OtherNotification => {
                    StepEffects { actions: Vec::new(), events: Vec::new() }
                },
            },
        }
    }

    /// What the local store holds under a key, as a fresh copy.
    pub fn local_record(&self, key: &RecordKey) -> (r: Option<Vec<u8>>)
        requires
            self.wf(),
        ensures
            match r {
                Some(v) => self.records().contains_key(key@) && v@ == self.records()[key@],
                None => !self.records().contains_key(key@),
            },
    {
        self.store.get(key)
    }

    /// The peers locally recorded as providers for a key, each at most once.
    pub fn local_providers(&self, key: &RecordKey) -> (r: Vec<PeerIdentity>)
        requires
            self.wf(),
        ensures
            forall|j: int| 0 <= j < r@.len() ==> self.providers().contains(
                (key@, #[trigger] r@[j]@),
            ),
            forall|p: Seq<u8>| #[trigger] self.providers().contains((key@, p)) ==> exists|j: int|
                0 <= j < r@.len() && r@[j]@ == p,
            forall|j1: int, j2: int| 0 <= j1 < j2 < r@.len() ==> r@[j1]@ != r@[j2]@,
    {
        self.store.providers_for(key)
    }

    /// How many (peer, address) pairs are currently discovered. A consumer
    /// that shows a peer count reads this; it can never go negative.
    pub fn discovered_count(&self) -> (r: usize)
        requires
            self.wf(),
        ensures
            r == self.routing_pairs().len(),
    {
        self.routing.len()
    }
}

/// Whether a discovery or expiry batch mentions a pair.
pub open spec fn batch_mentions(
    list: Seq<(PeerIdentity, Address)>,
    p: Seq<u8>,
    a: Seq<u8>,
) -> bool {
    exists|i: int| 0 <= i < list.len() && list[i].0@ == p && list[i].1@ == a
}

/// The discovered-address set after a whole run of inputs.
pub open spec fn routing_after_inputs(
    routing: Set<(Seq<u8>, Seq<u8>)>,
    inputs: Seq<ActorInput>,
) -> Set<(Seq<u8>, Seq<u8>)>
    decreases inputs.len(),
{
    if inputs.len() == 0 {
        routing
    } else {
        step_routing(routing_after_inputs(routing, inputs.drop_last()), inputs.last())
    }
}

/// A batch mentions a pair exactly when the pair is among its byte pairs.
proof fn lemma_batch_mentions_pairs(list: Seq<(PeerIdentity, Address)>, p: Seq<u8>, a: Seq<u8>)
    ensures
        batch_mentions(list, p, a) <==> discovery_pairs(list).contains((p, a)),
{
    let mapped = list.map_values(|e: (PeerIdentity, Address)| book_pair(e));
    if batch_mentions(list, p, a) {
        let i = choose|i: int| 0 <= i < list.len() && list[i].0@ == p && list[i].1@ == a;
        assert(mapped[i] == (p, a));
        assert(mapped.contains((p, a)));
    }
    if discovery_pairs(list).contains((p, a)) {
        let i = choose|i: int| 0 <= i < mapped.len() && mapped[i] == (p, a);
        assert(list[i].0@ == p && list[i].1@ == a);
    }
}

/// Discovery symmetry, persistence half: a pair some discovery batch
/// announces, with no later batch expiring it, is still in the routing
/// state after the whole run of inputs.
pub proof fn lemma_discovered_pair_persists(
    routing: Set<(Seq<u8>, Seq<u8>)>,
    inputs: Seq<ActorInput>,
    i: int,
    p: Seq<u8>,
    a: Seq<u8>,
)
    requires
        0 <= i < inputs.len(),
        (inputs[i] matches ActorInput::Network(NetNotification::PeersDiscovered(list))
            && batch_mentions(list@, p, a)),
        forall|j: int| i < j < inputs.len() ==> !(#[trigger] inputs[j] matches
            ActorInput::Network(NetNotification::PeersExpired(list)) && batch_mentions(
            list@,
            p,
            a,
        )),
    ensures
        routing_after_inputs(routing, inputs).contains((p, a)),
    decreases inputs.len(),
{
    let prev = routing_after_inputs(routing, inputs.drop_last());
    if i == inputs.len() - 1 {
        match inputs[i] {
            ActorInput::Network(NetNotification::PeersDiscovered(list)) => {
                lemma_batch_mentions_pairs(list@, p, a);
                assert(prev.union(discovery_pairs(list@)).contains((p, a)));
            },
            _ => {},
        }
    } else {
        lemma_discovered_pair_persists(routing, inputs.drop_last(), i, p, a);
        match inputs.last() {
            ActorInput::Network(NetNotification::PeersExpired(list)) => {
                assert(inputs[inputs.len() - 1] == inputs.last());
                assert(!batch_mentions(list@, p, a));
                lemma_batch_mentions_pairs(list@, p, a);
                assert(prev.difference(discovery_pairs(list@)).contains((p, a)));
            },
            _ => {},
        }
    }
}

/// Discovery symmetry, provenance half: starting from nothing, the routing
/// state only ever holds pairs that some discovery batch announced.
pub proof fn lemma_routing_pair_has_discovery(inputs: Seq<ActorInput>, p: Seq<u8>, a: Seq<u8>)
    requires
        routing_after_inputs(Set::empty(), inputs).contains((p, a)),
    ensures
        exists|i: int| 0 <= i < inputs.len() && (#[trigger] inputs[i] matches
            ActorInput::Network(NetNotification::PeersDiscovered(list)) && batch_mentions(
            list@,
            p,
            a,
        )),
    decreases inputs.len(),
{
    if inputs.len() == 0 {
    } else {
        let prev = routing_after_inputs(Set::empty(), inputs.drop_last());
        let found_last = (inputs.last() matches ActorInput::Network(
            NetNotification::PeersDiscovered(list),
        ) && batch_mentions(list@, p, a));
        if found_last {
            assert(inputs[inputs.len() - 1] == inputs.last());
        } else {
            match inputs.last() {
                ActorInput::Network(NetNotification::PeersDiscovered(list)) => {
                    lemma_batch_mentions_pairs(list@, p, a);
                    assert(prev.contains((p, a)));
                },
                ActorInput::Network(NetNotification::PeersExpired(list)) => {
                    assert(prev.contains((p, a)));
                },
                _ => {
                    assert(prev.contains((p, a)));
                },
            }
            lemma_routing_pair_has_discovery(inputs.drop_last(), p, a);
            let i = choose|i: int|
                0 <= i < inputs.drop_last().len() && (#[trigger] inputs.drop_last()[i] matches
                    ActorInput::Network(NetNotification::PeersDiscovered(list))
                    && batch_mentions(list@, p, a));
            assert(inputs[i] == inputs.drop_last()[i]);
        }
    }
}

/// An expiry batch that mentions only pairs never discovered changes the
/// routing state not at all — so a peer count derived from the set's size
/// cannot be driven below zero by stray expiries.
pub proof fn lemma_expiring_unknown_changes_nothing(
    routing: Set<(Seq<u8>, Seq<u8>)>,
    list: Vec<(PeerIdentity, Address)>,
)
    requires
        forall|p: Seq<u8>, a: Seq<u8>| batch_mentions(list@, p, a) ==> !routing.contains((p, a)),
    ensures
        step_routing(routing, ActorInput::Network(NetNotification::PeersExpired(list)))
            == routing,
{
    assert forall|x: (Seq<u8>, Seq<u8>)| routing.contains(x) implies !discovery_pairs(
        list@,
    ).contains(x) by {
        lemma_batch_mentions_pairs(list@, x.0, x.1);
    }
    assert(routing.difference(discovery_pairs(list@)) =~= routing);
}

/// No feedback loop, first half: a command never directly enqueues an
/// event, and touches neither the store nor the discovered-address set. Its
/// whole effect is the one query handed to the network layer.
pub proof fn lemma_command_has_no_direct_effect(
    c: P2pCommand,
    records: Map<Seq<u8>, Seq<u8>>,
    providers: Set<(Seq<u8>, Seq<u8>)>,
    routing: Set<(Seq<u8>, Seq<u8>)>,
)
    ensures
        step_events(ActorInput::Command(c)) == Seq::<P2pEvent>::empty(),
        step_routing(routing, ActorInput::Command(c)) == routing,
        step_stored(records, providers, ActorInput::Command(c)) == (records, providers),
{
}

/// No feedback loop, second half: an event on the outbound path arises only
/// from a query-completion notification — never from a command, a discovery
/// change, a listening address or an inbound write.
pub proof fn lemma_outbound_only_from_query_completion(input: ActorInput, i: int)
    requires
        0 <= i < step_events(input).len(),
        step_events(input)[i] matches P2pEvent::Outbound(_),
    ensures
        input matches ActorInput::Network(NetNotification::QueryCompleted(_)),
{
    match input {
        ActorInput::Command(_) => {},
        ActorInput::Network(n) => match n {
            NetNotification::NewListenAddr(address) => {
                assert(step_events(input)[i] == P2pEvent::Bootstrapped(address));
            },
            NetNotification::PeersDiscovered(list) => {
                assert(step_events(input)[i] == P2pEvent::PeerDiscovered(
                    list@[i].0,
                    list@[i].1,
                ));
            },
            NetNotification::PeersExpired(list) => {
                assert(step_events(input)[i] == P2pEvent::PeerExpired(list@[i].0, list@[i].1));
            },
            NetNotification::QueryCompleted(_) => {},
            NetNotification::InboundRequest(w) => {
                match w {
                    crate::translate::InboundWrite::AddProvider(claim_opt) => {
                        if claim_opt is Some {
                            assert(step_events(input)[i] matches P2pEvent::Inbound(_));
                        }
                    },
                    crate::translate::InboundWrite::PutRecord(source, record_opt) => {
                        if record_opt is Some {
                            assert(step_events(input)[i] matches P2pEvent::Inbound(_));
                        }
                    },
                    crate::translate::InboundWrite::OtherRequest => {},
                }
            },
            NetNotification::OtherNotification => {},
        },
    }
}

} // verus!
