//! The event translator: raw network notifications, already read off the
//! wire as plain values, become the public event vocabulary. Each policy of
//! the translation is pinned here:
//! - a query failure always surfaces as an `Error` event, never a retry;
//! - the terminal "finished with no additional record" marker of a record
//!   lookup is internal only and produces no event, by design;
//! - an inbound write without an attached record is malformed and is
//!   dropped silently, by design.

use vstd::prelude::*;
use crate::bytes::copy_bytes;
use crate::data::{P2pEvent, P2pInboundEvent, P2pOutboundEvent, PeerIdentity, Record, RecordKey};
use crate::store::RecordStore;

verus! {

/// A remote peer's claim to provide the value for a key.
#[derive(Debug, Clone, PartialEq, Eq)]
pub struct ProviderClaim {
    pub key: RecordKey,
    pub provider: PeerIdentity,
}

/// How a query this actor issued completed.
#[derive(Debug, Clone, PartialEq, Eq)]
pub enum QueryOutcome {
    /// A provider lookup finished; an empty list is a valid answer.
    FoundProviders(RecordKey, Vec<PeerIdentity>),
    GetProvidersFailed(String),
    /// A record lookup streamed back a record.
    FoundRecord(Record),
    /// The terminal marker after a record lookup's streamed results.
    GetRecordFinishedWithNoExtra,
    GetRecordFailed(String),
    PutRecordOk(RecordKey),
    PutRecordFailed(String),
    StartProvidingOk(RecordKey),
    StartProvidingFailed(String),
    /// A completion kind the actor does not observe.
    OtherProgress,
}

/// A network-originated write request against the local store.
#[derive(Debug, Clone, PartialEq, Eq)]
pub enum InboundWrite {
    /// A provider claim; `None` means no record was attached (malformed).
    AddProvider(Option<ProviderClaim>),
    /// A record pushed by the given source peer; `None` as above.
    PutRecord(PeerIdentity, Option<Record>),
    /// A request kind the actor does not observe.
    OtherRequest,
}

/// A raw notification from the network layer, as plain values.
#[derive(Debug, Clone, PartialEq, Eq)]
pub enum NetNotification {
    /// A new local listening address was bound.
    NewListenAddr(crate::data::Address),
    /// Discovery announced a batch of (peer, address) pairs.
    PeersDiscovered(Vec<(PeerIdentity, crate::data::Address)>),
    /// A batch of (peer, address) pairs reached its time-to-live.
    PeersExpired(Vec<(PeerIdentity, crate::data::Address)>),
    /// A query this actor issued made terminal progress.
    QueryCompleted(QueryOutcome),
    /// A remote peer asked to write into the local store.
    InboundRequest(InboundWrite),
    /// Anything else the actor ignores.
    OtherNotification,
}

/// The event a query completion translates to, if any.
pub open spec fn query_event(outcome: QueryOutcome) -> Option<P2pEvent> {
    match outcome {
        QueryOutcome::FoundProviders(key, providers) => Some(
            P2pEvent::Outbound(P2pOutboundEvent::ProvidersFound(key, providers)),
        ),
        QueryOutcome::GetProvidersFailed(msg) => Some(P2pEvent::Error(msg)),
        QueryOutcome::FoundRecord(record) => Some(
            P2pEvent::Outbound(P2pOutboundEvent::RecordFound(record.key, record.value)),
        ),
        QueryOutcome::GetRecordFinishedWithNoExtra => None,
        QueryOutcome::GetRecordFailed(msg) => Some(P2pEvent::Error(msg)),
        QueryOutcome::PutRecordOk(key) => Some(
            P2pEvent::Outbound(P2pOutboundEvent::RecordPut(key)),
        ),
        QueryOutcome::PutRecordFailed(msg) => Some(P2pEvent::Error(msg)),
        QueryOutcome::StartProvidingOk(key) => Some(
            P2pEvent::Outbound(P2pOutboundEvent::ProviderPut(key)),
        ),
        QueryOutcome::StartProvidingFailed(msg) => Some(P2pEvent::Error(msg)),
        QueryOutcome::OtherProgress => None,
    }
}

/// Translate a query completion into its public event, if it has one.
pub fn translate_query_outcome(outcome: QueryOutcome) -> (r: Option<P2pEvent>)
    ensures
        r == query_event(outcome),
{
    match outcome {
        QueryOutcome::FoundProviders(key, providers) => Some(
            P2pEvent::Outbound(P2pOutboundEvent::ProvidersFound(key, providers)),
        ),
        QueryOutcome::GetProvidersFailed(msg) => Some(P2pEvent::Error(msg)),
        QueryOutcome::FoundRecord(record) => Some(
            P2pEvent::Outbound(P2pOutboundEvent::RecordFound(record.key, record.value)),
        ),
        QueryOutcome::GetRecordFinishedWithNoExtra => None,
        QueryOutcome::GetRecordFailed(msg) => Some(P2pEvent::Error(msg)),
        QueryOutcome::PutRecordOk(key) => Some(
            P2pEvent::Outbound(P2pOutboundEvent::RecordPut(key)),
        ),
        QueryOutcome::PutRecordFailed(msg) => Some(P2pEvent::Error(msg)),
        QueryOutcome::StartProvidingOk(key) => Some(
            P2pEvent::Outbound(P2pOutboundEvent::ProviderPut(key)),
        ),
        QueryOutcome::StartProvidingFailed(msg) => Some(P2pEvent::Error(msg)),
        QueryOutcome::OtherProgress => None,
    }
}

/// The event an inbound write translates to, if any. A request without an
/// attached record is malformed and yields nothing.
pub open spec fn inbound_event(w: InboundWrite) -> Option<P2pEvent> {
    match w {
        InboundWrite::AddProvider(Some(claim)) => Some(
            P2pEvent::Inbound(P2pInboundEvent::ProviderAdded(claim.key)),
        ),
        InboundWrite::PutRecord(source, Some(record)) => Some(
            P2pEvent::Inbound(P2pInboundEvent::RecordStored(source, record.key, record.value)),
        ),
        _ => None,
    }
}

/// What an inbound write does to the store: the (records, providers) views
/// after acceptance.
pub open spec fn inbound_store_effect(
    records: Map<Seq<u8>, Seq<u8>>,
    providers: Set<(Seq<u8>, Seq<u8>)>,
    w: InboundWrite,
) -> (Map<Seq<u8>, Seq<u8>>, Set<(Seq<u8>, Seq<u8>)>) {
    match w {
        InboundWrite::AddProvider(Some(claim)) => (
            records,
            providers.insert((claim.key@, claim.provider@)),
        ),
        InboundWrite::PutRecord(source, Some(record)) => (
            records.insert(record.key@, record.value@),
            providers,
        ),
        _ => (records, providers),
    }
}

/// Accept a network-originated write into the local store and report it.
/// The store itself never refuses here, so acceptance cannot crash the
/// actor, whatever a remote peer sends.
pub fn accept_inbound(store: &mut RecordStore, w: InboundWrite) -> (r: Option<P2pEvent>)
    requires
        old(store).wf(),
    ensures
        final(store).wf(),
        r == inbound_event(w),
        (final(store).records_view(), final(store).providers_view()) == inbound_store_effect(
            old(store).records_view(),
            old(store).providers_view(),
            w,
        ),
{
    match w {
        InboundWrite::AddProvider(claim_opt) => match claim_opt {
            Some(claim) => {
                let key_copy = RecordKey { bytes: copy_bytes(&claim.key.bytes) };
                store.add_provider(key_copy, claim.provider);
                Some(P2pEvent::Inbound(P2pInboundEvent::ProviderAdded(claim.key)))
            },
            None => None,
        },
        InboundWrite::PutRecord(source, record_opt) => match record_opt {
            Some(record) => {
                let stored = Record {
                    key: RecordKey { bytes: copy_bytes(&record.key.bytes) },
                    value: copy_bytes(&record.value),
                };
                store.put(stored);
                Some(
                    P2pEvent::Inbound(
                        P2pInboundEvent::RecordStored(source, record.key, record.value),
                    ),
                )
            },
            None => None,
        },
        InboundWrite::OtherRequest => None,
    }
}

} // verus!
