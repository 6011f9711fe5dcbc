//! Command dispatch: the pure mapping of a consumer command to the one
//! query the network layer must issue. Dispatch itself emits no event —
//! outcomes surface later, asynchronously, as outbound events once the
//! corresponding query completes.

use vstd::prelude::*;
use vstd::string::StrSliceExecFns;
use vstd::utf8::encode_utf8;
use crate::data::{P2pCommand, Record, RecordKey};

verus! {

/// The byte form of a textual key: its characters encoded as bytes. Two
/// textual keys map to the same byte key exactly when they are equal.
pub open spec fn key_bytes(text: Seq<char>) -> Seq<u8> {
    encode_utf8(text)
}

/// How many peers must acknowledge a write before it counts as stored.
#[derive(Debug, Clone, Copy, PartialEq, Eq)]
pub enum WriteQuorum {
    /// One acknowledging peer: availability over consistency, the
    /// deliberate choice for record puts issued here.
    One,
    /// A majority of the closest peers.
    Majority,
}

/// A query for the network layer to issue.
#[derive(Debug, Clone, PartialEq, Eq)]
pub enum DhtAction {
    GetRecord(RecordKey),
    GetProviders(RecordKey),
    PutRecord(Record, WriteQuorum),
    StartProviding(RecordKey),
}

/// The dispatch table: which query a command must become. The key of the
/// query is the command's textual key in byte form; a put carries the value
/// unchanged and asks for a quorum of one.
pub open spec fn dispatch_matches(cmd: P2pCommand, a: DhtAction) -> bool {
    match cmd {
        P2pCommand::GetRecord(k) => a matches DhtAction::GetRecord(key) && key@ == key_bytes(k@),
        P2pCommand::GetProviders(k) => a matches DhtAction::GetProviders(key) && key@
            == key_bytes(k@),
        P2pCommand::PutRecord(k, v) => a matches DhtAction::PutRecord(record, quorum)
            && record.key@ == key_bytes(k@) && record.value@ == v@ && quorum == WriteQuorum::One,
        P2pCommand::PutProvider(k) => a matches DhtAction::StartProviding(key) && key@
            == key_bytes(k@),
    }
}

/// Turn a command into its query. Pure and total: no suspension, no
/// event, and nothing a malformed key can break — every textual key has a
/// byte form.
pub fn dispatch_command(cmd: P2pCommand) -> (a: DhtAction)
    ensures
        dispatch_matches(cmd, a),
{
    match cmd {
        P2pCommand::GetRecord(k) => DhtAction::GetRecord(
            RecordKey { bytes: k.as_str().as_bytes_vec() },
        ),
        P2pCommand::GetProviders(k) => DhtAction::GetProviders(
            RecordKey { bytes: k.as_str().as_bytes_vec() },
        ),
        P2pCommand::PutRecord(k, v) => DhtAction::PutRecord(
            Record { key: RecordKey { bytes: k.as_str().as_bytes_vec() }, value: v },
            WriteQuorum::One,
        ),
        P2pCommand::PutProvider(k) => DhtAction::StartProviding(
            RecordKey { bytes: k.as_str().as_bytes_vec() },
        ),
    }
}

} // verus!
