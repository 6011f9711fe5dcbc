use p2p_core::actor::{ActorInput, ActorState, NetAction};
use p2p_core::data::{
    Address, P2pCommand, P2pEvent, P2pInboundEvent, P2pOutboundEvent, PeerIdentity, Record,
    RecordKey,
};
use p2p_core::dispatch::{DhtAction, WriteQuorum};
use p2p_core::translate::{InboundWrite, NetNotification, ProviderClaim, QueryOutcome};

fn key(bytes: &[u8]) -> RecordKey {
    RecordKey { bytes: bytes.to_vec() }
}

fn peer(bytes: &[u8]) -> PeerIdentity {
    PeerIdentity { bytes: bytes.to_vec() }
}

fn addr(bytes: &[u8]) -> Address {
    Address { bytes: bytes.to_vec() }
}

#[test]
fn command_step_emits_no_event_and_one_query() {
    let mut actor = ActorState::new();
    let effects = actor.step(ActorInput::Command(P2pCommand::GetRecord("k".to_string())));
    assert!(effects.events.is_empty());
    assert_eq!(
        effects.actions,
        vec![NetAction::Dht(DhtAction::GetRecord(key(b"k")))]
    );
}

#[test]
fn put_command_dispatches_with_quorum_one() {
    let mut actor = ActorState::new();
    let effects = actor.step(ActorInput::Command(P2pCommand::PutRecord(
        "k".to_string(),
        b"v".to_vec(),
    )));
    assert!(effects.events.is_empty());
    assert_eq!(
        effects.actions,
        vec![NetAction::Dht(DhtAction::PutRecord(
            Record { key: key(b"k"), value: b"v".to_vec() },
            WriteQuorum::One
        ))]
    );
}

#[test]
fn provider_commands_dispatch() {
    let mut actor = ActorState::new();
    let effects = actor.step(ActorInput::Command(P2pCommand::GetProviders("k".to_string())));
    assert_eq!(
        effects.actions,
        vec![NetAction::Dht(DhtAction::GetProviders(key(b"k")))]
    );
    let effects = actor.step(ActorInput::Command(P2pCommand::PutProvider("k".to_string())));
    assert_eq!(
        effects.actions,
        vec![NetAction::Dht(DhtAction::StartProviding(key(b"k")))]
    );
}

#[test]
fn new_listen_addr_becomes_bootstrapped() {
    let mut actor = ActorState::new();
    let effects = actor.step(ActorInput::Network(NetNotification::NewListenAddr(addr(
        b"/ip4/1",
    ))));
    assert_eq!(effects.events, vec![P2pEvent::Bootstrapped(addr(b"/ip4/1"))]);
    assert!(effects.actions.is_empty());
}

#[test]
fn discovery_batch_registers_and_reports_each_pair_in_order() {
    let mut actor = ActorState::new();
    let batch = vec![(peer(b"p1"), addr(b"a1")), (peer(b"p2"), addr(b"a2"))];
    let effects = actor.step(ActorInput::Network(NetNotification::PeersDiscovered(batch)));
    assert_eq!(
        effects.events,
        vec![
            P2pEvent::PeerDiscovered(peer(b"p1"), addr(b"a1")),
            P2pEvent::PeerDiscovered(peer(b"p2"), addr(b"a2")),
        ]
    );
    assert_eq!(
        effects.actions,
        vec![
            NetAction::AddRoutingAddress(peer(b"p1"), addr(b"a1")),
            NetAction::AddRoutingAddress(peer(b"p2"), addr(b"a2")),
        ]
    );
    assert_eq!(actor.discovered_count(), 2);
}

#[test]
fn expiry_removes_one_address_not_the_peer() {
    let mut actor = ActorState::new();
    let batch = vec![(peer(b"p"), addr(b"a1")), (peer(b"p"), addr(b"a2"))];
    actor.step(ActorInput::Network(NetNotification::PeersDiscovered(batch)));
    assert_eq!(actor.discovered_count(), 2);
    let effects = actor.step(ActorInput::Network(NetNotification::PeersExpired(vec![(
        peer(b"p"),
        addr(b"a1"),
    )])));
    assert_eq!(
        effects.events,
        vec![P2pEvent::PeerExpired(peer(b"p"), addr(b"a1"))]
    );
    assert_eq!(
        effects.actions,
        vec![NetAction::RemoveRoutingAddress(peer(b"p"), addr(b"a1"))]
    );
    assert_eq!(actor.discovered_count(), 1);
}

#[test]
fn expiry_of_unknown_pair_changes_nothing() {
    let mut actor = ActorState::new();
    let effects = actor.step(ActorInput::Network(NetNotification::PeersExpired(vec![(
        peer(b"ghost"),
        addr(b"a"),
    )])));
    // the event is still reported, but the discovered set stays empty
    assert_eq!(
        effects.events,
        vec![P2pEvent::PeerExpired(peer(b"ghost"), addr(b"a"))]
    );
    assert_eq!(actor.discovered_count(), 0);
}

#[test]
fn rediscovery_of_same_pair_counts_once() {
    let mut actor = ActorState::new();
    let pair = vec![(peer(b"p"), addr(b"a"))];
    actor.step(ActorInput::Network(NetNotification::PeersDiscovered(pair.clone())));
    actor.step(ActorInput::Network(NetNotification::PeersDiscovered(pair)));
    assert_eq!(actor.discovered_count(), 1);
}

#[test]
fn query_successes_become_outbound_events() {
    let mut actor = ActorState::new();
    let effects = actor.step(ActorInput::Network(NetNotification::QueryCompleted(
        QueryOutcome::PutRecordOk(key(b"k")),
    )));
    assert_eq!(
        effects.events,
        vec![P2pEvent::Outbound(P2pOutboundEvent::RecordPut(key(b"k")))]
    );
    let effects = actor.step(ActorInput::Network(NetNotification::QueryCompleted(
        QueryOutcome::FoundRecord(Record { key: key(b"k"), value: b"v".to_vec() }),
    )));
    assert_eq!(
        effects.events,
        vec![P2pEvent::Outbound(P2pOutboundEvent::RecordFound(
            key(b"k"),
            b"v".to_vec()
        ))]
    );
    let effects = actor.step(ActorInput::Network(NetNotification::QueryCompleted(
        QueryOutcome::FoundProviders(key(b"k"), vec![peer(b"p")]),
    )));
    assert_eq!(
        effects.events,
        vec![P2pEvent::Outbound(P2pOutboundEvent::ProvidersFound(
            key(b"k"),
            vec![peer(b"p")]
        ))]
    );
}

#[test]
fn empty_provider_list_is_still_reported() {
    let mut actor = ActorState::new();
    let effects = actor.step(ActorInput::Network(NetNotification::QueryCompleted(
        QueryOutcome::FoundProviders(key(b"k"), Vec::new()),
    )));
    assert_eq!(
        effects.events,
        vec![P2pEvent::Outbound(P2pOutboundEvent::ProvidersFound(
            key(b"k"),
            Vec::new()
        ))]
    );
}

#[test]
fn providing_twice_reports_two_provider_put_events() {
    let mut actor = ActorState::new();
    let first = actor.step(ActorInput::Network(NetNotification::QueryCompleted(
        QueryOutcome::StartProvidingOk(key(b"k")),
    )));
    let second = actor.step(ActorInput::Network(NetNotification::QueryCompleted(
        QueryOutcome::StartProvidingOk(key(b"k")),
    )));
    let expected = vec![P2pEvent::Outbound(P2pOutboundEvent::ProviderPut(key(b"k")))];
    assert_eq!(first.events, expected);
    assert_eq!(second.events, expected);
}

#[test]
fn query_failures_become_error_events() {
    let mut actor = ActorState::new();
    for outcome in [
        QueryOutcome::GetRecordFailed("no record".to_string()),
        QueryOutcome::GetProvidersFailed("no providers".to_string()),
        QueryOutcome::PutRecordFailed("quorum failed".to_string()),
        QueryOutcome::StartProvidingFailed("provide failed".to_string()),
    ] {
        let effects = actor.step(ActorInput::Network(NetNotification::QueryCompleted(outcome)));
        assert_eq!(effects.events.len(), 1);
        assert!(matches!(effects.events[0], P2pEvent::Error(_)));
    }
}

#[test]
fn empty_store_get_yields_error_or_nothing_never_a_record() {
    // a lookup of a never-stored key: the network reports a failure, the
    // translator surfaces an error — no record event can appear
    let mut actor = ActorState::new();
    assert_eq!(actor.local_record(&key(b"missing")), None);
    let effects = actor.step(ActorInput::Network(NetNotification::QueryCompleted(
        QueryOutcome::GetRecordFailed("not found".to_string()),
    )));
    assert_eq!(
        effects.events,
        vec![P2pEvent::Error("not found".to_string())]
    );
    // the terminal marker after streamed results is internal only
    let effects = actor.step(ActorInput::Network(NetNotification::QueryCompleted(
        QueryOutcome::GetRecordFinishedWithNoExtra,
    )));
    assert!(effects.events.is_empty());
}

#[test]
fn inbound_record_is_stored_and_reported() {
    let mut actor = ActorState::new();
    let effects = actor.step(ActorInput::Network(NetNotification::InboundRequest(
        InboundWrite::PutRecord(
            peer(b"src"),
            Some(Record { key: key(b"k"), value: b"v".to_vec() }),
        ),
    )));
    assert_eq!(
        effects.events,
        vec![P2pEvent::Inbound(P2pInboundEvent::RecordStored(
            peer(b"src"),
            key(b"k"),
            b"v".to_vec()
        ))]
    );
    assert_eq!(actor.local_record(&key(b"k")), Some(b"v".to_vec()));
}

#[test]
fn inbound_provider_is_stored_and_reported() {
    let mut actor = ActorState::new();
    let effects = actor.step(ActorInput::Network(NetNotification::InboundRequest(
        InboundWrite::AddProvider(Some(ProviderClaim {
            key: key(b"k"),
            provider: peer(b"p"),
        })),
    )));
    assert_eq!(
        effects.events,
        vec![P2pEvent::Inbound(P2pInboundEvent::ProviderAdded(key(b"k")))]
    );
    assert_eq!(actor.local_providers(&key(b"k")), vec![peer(b"p")]);
}

#[test]
fn malformed_inbound_requests_are_dropped_silently() {
    let mut actor = ActorState::new();
    let effects = actor.step(ActorInput::Network(NetNotification::InboundRequest(
        InboundWrite::AddProvider(None),
    )));
    assert!(effects.events.is_empty());
    let effects = actor.step(ActorInput::Network(NetNotification::InboundRequest(
        InboundWrite::PutRecord(peer(b"src"), None),
    )));
    assert!(effects.events.is_empty());
    assert_eq!(actor.local_record(&key(b"k")), None);
}

#[test]
fn two_peer_put_then_get_round_trip() {
    // peer A puts; the network delivers the record to peer B's store; B's
    // later lookup completes from what was delivered, byte for byte
    let mut actor_a = ActorState::new();
    let effects = actor_a.step(ActorInput::Command(P2pCommand::PutRecord(
        "k".to_string(),
        b"v".to_vec(),
    )));
    let record = match &effects.actions[0] {
        NetAction::Dht(DhtAction::PutRecord(record, WriteQuorum::One)) => record.clone(),
        other => panic!("unexpected action: {:?}", other),
    };

    // discovery links A and B, then the network pushes A's record to B
    let mut actor_b = ActorState::new();
    actor_b.step(ActorInput::Network(NetNotification::PeersDiscovered(vec![(
        peer(b"A"),
        addr(b"addr-a"),
    )])));
    actor_b.step(ActorInput::Network(NetNotification::InboundRequest(
        InboundWrite::PutRecord(peer(b"A"), Some(record)),
    )));

    // B issues the lookup; the network answers from B's own store
    let effects = actor_b.step(ActorInput::Command(P2pCommand::GetRecord("k".to_string())));
    let looked_up = match &effects.actions[0] {
        NetAction::Dht(DhtAction::GetRecord(k)) => k.clone(),
        other => panic!("unexpected action: {:?}", other),
    };
    let value = actor_b.local_record(&looked_up).expect("record must be held");
    let effects = actor_b.step(ActorInput::Network(NetNotification::QueryCompleted(
        QueryOutcome::FoundRecord(Record { key: looked_up, value }),
    )));
    assert_eq!(
        effects.events,
        vec![P2pEvent::Outbound(P2pOutboundEvent::RecordFound(
            key(b"k"),
            b"v".to_vec()
        ))]
    );
}

#[test]
fn ignored_notifications_do_nothing() {
    let mut actor = ActorState::new();
    let effects = actor.step(ActorInput::Network(NetNotification::OtherNotification));
    assert!(effects.events.is_empty());
    assert!(effects.actions.is_empty());
    let effects = actor.step(ActorInput::Network(NetNotification::QueryCompleted(
        QueryOutcome::OtherProgress,
    )));
    assert!(effects.events.is_empty());
}
