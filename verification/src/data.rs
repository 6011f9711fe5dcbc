//! The data model: identities, addresses, record keys and values, and the
//! two vocabularies spoken over the channel boundary — commands from the
//! consumer in, events to the consumer out.

use vstd::prelude::*;

verus! {

/// Opaque unique identifier of a network participant, in its canonical byte
/// form. Equality is byte-exact.
#[derive(Debug, Clone, PartialEq, Eq)]
pub struct PeerIdentity {
    pub bytes: Vec<u8>,
}

impl View for PeerIdentity {
    type V = Seq<u8>;

    open spec fn view(&self) -> Seq<u8> {
        self.bytes@
    }
}

/// A multi-protocol network address in its canonical byte form; many
/// addresses may map to one peer. Equality is byte-exact.
#[derive(Debug, Clone, PartialEq, Eq)]
pub struct Address {
    pub bytes: Vec<u8>,
}

impl View for Address {
    type V = Seq<u8>;

    open spec fn view(&self) -> Seq<u8> {
        self.bytes@
    }
}

/// An opaque byte string identifying a distributed-hash-table entry.
/// Equality is byte-exact.
#[derive(Debug, Clone, PartialEq, Eq)]
pub struct RecordKey {
    pub bytes: Vec<u8>,
}

impl View for RecordKey {
    type V = Seq<u8>;

    open spec fn view(&self) -> Seq<u8> {
        self.bytes@
    }
}

/// A stored entry: a key and its byte value. Updates replace the stored
/// value; they never mutate it in place.
#[derive(Debug, Clone, PartialEq, Eq)]
pub struct Record {
    pub key: RecordKey,
    pub value: Vec<u8>,
}

/// What the consumer asks of the actor. Commands carry no correlation
/// identifiers: outcomes arrive later as `P2pEvent`s and are matched by key
/// alone.
#[derive(Debug, Clone, PartialEq, Eq)]
pub enum P2pCommand {
    GetRecord(String),
    GetProviders(String),
    PutRecord(String, Vec<u8>),
    PutProvider(String),
}

/// What the actor reports to the consumer.
#[derive(Debug, Clone, PartialEq, Eq)]
pub enum P2pEvent {
    /// A new local listening address was acquired; one event per address,
    /// never retracted.
    Bootstrapped(Address),
    /// Discovery found a peer at an address. A peer may be discovered many
    /// times, once per address.
    PeerDiscovered(PeerIdentity, Address),
    /// A discovered address reached its time-to-live. Expiry is scoped to
    /// one address, not to the whole peer.
    PeerExpired(PeerIdentity, Address),
    /// The result of a query this actor issued.
    Outbound(P2pOutboundEvent),
    /// A network-originated write accepted into the local store.
    Inbound(P2pInboundEvent),
    /// A recoverable failure, surfaced for observation only.
    Error(String),
}

/// Completions of queries the actor issued.
#[derive(Debug, Clone, PartialEq, Eq)]
pub enum P2pOutboundEvent {
    RecordFound(RecordKey, Vec<u8>),
    ProvidersFound(RecordKey, Vec<PeerIdentity>),
    RecordPut(RecordKey),
    ProviderPut(RecordKey),
}

/// Writes pushed into the local store by remote peers.
#[derive(Debug, Clone, PartialEq, Eq)]
pub enum P2pInboundEvent {
    ProviderAdded(RecordKey),
    RecordStored(PeerIdentity, RecordKey, Vec<u8>),
}

} // verus!
