//! Consumer-side state: what the observing client keeps while it watches
//! the event stream — the growing event log, the discovered-address set,
//! and the two text inputs of the key/value form.
//!
//! The peer count shown to a user is the size of the discovered-address
//! set, not an independent counter: an expiry for a pair never discovered
//! then changes nothing, and the count can never go negative.

use vstd::prelude::*;
use vstd::string::StrSliceExecFns;
use vstd::utf8::encode_utf8;
use crate::bytes::copy_bytes;
use crate::data::{Address, P2pCommand, P2pEvent, PeerIdentity};
use crate::routing::AddressBook;

verus! {

/// The observing client's state.
pub struct State {
    /// Every event received, in arrival order; append-only.
    pub event_log: Vec<P2pEvent>,
    /// The text currently in the key input.
    pub current_key: String,
    /// The text currently in the value input.
    pub current_value: String,
    /// The (peer, address) pairs currently discovered.
    pub discovered: AddressBook,
}

impl State {
    /// The discovered pairs, as a set of byte-string pairs.
    pub open spec fn discovered_pairs(&self) -> Set<(Seq<u8>, Seq<u8>)> {
        self.discovered.view_set()
    }

    pub open spec fn wf(&self) -> bool {
        self.discovered.wf()
    }

    /// A fresh state: nothing logged, nothing discovered, empty inputs.
    pub fn new() -> (s: Self)
        ensures
            s.wf(),
            s.event_log@ == Seq::<P2pEvent>::empty(),
            s.current_key@ == Seq::<char>::empty(),
            s.current_value@ == Seq::<char>::empty(),
            s.discovered_pairs() == Set::<(Seq<u8>, Seq<u8>)>::empty(),
    {
        let s = State {
            event_log: Vec::new(),
            current_key: String::new(),
            current_value: String::new(),
            discovered: AddressBook::new(),
        };
        proof {
            assert(s.event_log@ =~= Seq::<P2pEvent>::empty());
        }
        s
    }

    /// How many peers to show: the size of the discovered set.
    pub fn peer_count(&self) -> (r: usize)
        requires
            self.wf(),
        ensures
            r == self.discovered_pairs().len(),
    {
        self.discovered.len()
    }
}

/// What one event does to the discovered set: discovery adds the pair,
/// expiry removes it, anything else leaves it alone.
pub open spec fn discovered_after(
    discovered: Set<(Seq<u8>, Seq<u8>)>,
    event: P2pEvent,
) -> Set<(Seq<u8>, Seq<u8>)> {
    match event {
        P2pEvent::PeerDiscovered(p, a) => discovered.insert((p@, a@)),
        P2pEvent::PeerExpired(p, a) => discovered.remove((p@, a@)),
        _ => discovered,
    }
}

/// Record one received event: append it to the log and keep the discovered
/// set in step with the discovery lifecycle it reports.
pub fn handle_p2p_event(state: &mut State, event: P2pEvent)
    requires
        old(state).wf(),
    ensures
        final(state).wf(),
        final(state).event_log@ == old(state).event_log@.push(event),
        final(state).discovered_pairs() == discovered_after(
            old(state).discovered_pairs(),
            event,
        ),
        final(state).current_key == old(state).current_key,
        final(state).current_value == old(state).current_value,
{
    match &event {
        P2pEvent::PeerDiscovered(p, a) => {
            let peer = PeerIdentity { bytes: copy_bytes(&p.bytes) };
            let address = Address { bytes: copy_bytes(&a.bytes) };
            state.discovered.insert(peer, address);
        },
        P2pEvent::PeerExpired(p, a) => {
            state.discovered.remove(p, a);
        },
        _ => {},
    }
    state.event_log.push(event);
}

/// The key input changed: keep the new text.
pub fn handle_key_text_changed(state: &mut State, data: String)
    requires
        old(state).wf(),
    ensures
        final(state).wf(),
        final(state).current_key == data,
        final(state).current_value == old(state).current_value,
        final(state).event_log == old(state).event_log,
        final(state).discovered_pairs() == old(state).discovered_pairs(),
{
    state.current_key = data;
}

/// The value input changed: keep the new text.
pub fn handle_value_text_changed(state: &mut State, data: String)
    requires
        old(state).wf(),
    ensures
        final(state).wf(),
        final(state).current_value == data,
        final(state).current_key == old(state).current_key,
        final(state).event_log == old(state).event_log,
        final(state).discovered_pairs() == old(state).discovered_pairs(),
{
    state.current_value = data;
}

/// The user submitted the form as a put: clear the value input and build
/// the command to send — the key as typed, the value as its bytes.
pub fn handle_put_record(state: &mut State, key: String, value: String) -> (cmd: P2pCommand)
    requires
        old(state).wf(),
    ensures
        final(state).wf(),
        final(state).current_value@ == Seq::<char>::empty(),
        final(state).current_key == old(state).current_key,
        final(state).event_log == old(state).event_log,
        final(state).discovered_pairs() == old(state).discovered_pairs(),
        (cmd matches P2pCommand::PutRecord(k, v) && k == key && v@ == encode_utf8(value@)),
{
    state.current_value = String::new();
    let bytes = value.as_str().as_bytes_vec();
    P2pCommand::PutRecord(key, bytes)
}

/// The user submitted the form as a get: build the lookup command; the
/// state is left as it is.
pub fn handle_get_record(state: &mut State, key: String) -> (cmd: P2pCommand)
    requires
        old(state).wf(),
    ensures
        *final(state) == *old(state),
        cmd == P2pCommand::GetRecord(key),
{
    P2pCommand::GetRecord(key)
}

/// Which submission the key/value form offers.
#[derive(Debug, Clone, Copy, PartialEq, Eq)]
pub enum InputAction {
    /// Both inputs are filled: a put may be submitted.
    Put,
    /// Only the key is filled: a get may be submitted.
    Get,
    /// Without a key, nothing may be submitted.
    Neither,
}

/// The form's rule: a key and a value submit a put, a key alone submits a
/// get, and an empty key submits nothing.
pub fn input_action(current_key: &String, current_value: &String) -> (r: InputAction)
    ensures
        (r == InputAction::Put) <==> (current_key@.len() > 0 && current_value@.len() > 0),
        (r == InputAction::Get) <==> (current_key@.len() > 0 && current_value@.len() == 0),
        (r == InputAction::Neither) <==> (current_key@.len() == 0),
{
    if !current_key.as_str().is_empty() && !current_value.as_str().is_empty() {
        InputAction::Put
    } else if !current_key.as_str().is_empty() {
        InputAction::Get
    } else {
        InputAction::Neither
    }
}

/// What the system reports its colour scheme to be.
#[derive(Debug, Clone, Copy, PartialEq, Eq)]
pub enum SystemTheme {
    Light,
    Dark,
    Unspecified,
}

/// The theme the client renders with.
#[derive(Debug, Clone, Copy, PartialEq, Eq)]
pub enum ThemeChoice {
    Light,
    Dark,
}

/// Light only when the system says light; dark otherwise, also when the
/// system leaves it unspecified.
pub fn choose_theme(detected: SystemTheme) -> (r: ThemeChoice)
    ensures
        (r == ThemeChoice::Light) <==> (detected == SystemTheme::Light),
{
    match detected {
        SystemTheme::Light => ThemeChoice::Light,
        SystemTheme::Dark => ThemeChoice::Dark,
        SystemTheme::Unspecified => ThemeChoice::Dark,
    }
}

} // verus!
