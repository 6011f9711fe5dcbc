use p2p_core::data::{Address, P2pCommand, P2pEvent, PeerIdentity};
use p2p_core::ui::{
    choose_theme, handle_get_record, handle_key_text_changed, handle_p2p_event,
    handle_put_record, handle_value_text_changed, input_action, InputAction, State, SystemTheme,
    ThemeChoice,
};

fn peer(bytes: &[u8]) -> PeerIdentity {
    PeerIdentity { bytes: bytes.to_vec() }
}

fn addr(bytes: &[u8]) -> Address {
    Address { bytes: bytes.to_vec() }
}

#[test]
fn events_are_logged_in_order() {
    let mut state = State::new();
    handle_p2p_event(&mut state, P2pEvent::Bootstrapped(addr(b"a")));
    handle_p2p_event(&mut state, P2pEvent::Error("boom".to_string()));
    assert_eq!(
        state.event_log,
        vec![
            P2pEvent::Bootstrapped(addr(b"a")),
            P2pEvent::Error("boom".to_string()),
        ]
    );
}

#[test]
fn peer_count_follows_discovery_and_expiry() {
    let mut state = State::new();
    assert_eq!(state.peer_count(), 0);
    handle_p2p_event(&mut state, P2pEvent::PeerDiscovered(peer(b"p1"), addr(b"a1")));
    handle_p2p_event(&mut state, P2pEvent::PeerDiscovered(peer(b"p2"), addr(b"a2")));
    assert_eq!(state.peer_count(), 2);
    handle_p2p_event(&mut state, P2pEvent::PeerExpired(peer(b"p1"), addr(b"a1")));
    assert_eq!(state.peer_count(), 1);
}

#[test]
fn expiry_without_discovery_cannot_drive_the_count_negative() {
    let mut state = State::new();
    handle_p2p_event(&mut state, P2pEvent::PeerExpired(peer(b"ghost"), addr(b"a")));
    assert_eq!(state.peer_count(), 0);
    handle_p2p_event(&mut state, P2pEvent::PeerDiscovered(peer(b"p"), addr(b"a")));
    assert_eq!(state.peer_count(), 1);
}

#[test]
fn duplicate_discovery_counts_once() {
    let mut state = State::new();
    handle_p2p_event(&mut state, P2pEvent::PeerDiscovered(peer(b"p"), addr(b"a")));
    handle_p2p_event(&mut state, P2pEvent::PeerDiscovered(peer(b"p"), addr(b"a")));
    assert_eq!(state.peer_count(), 1);
}

#[test]
fn text_inputs_keep_the_latest_text() {
    let mut state = State::new();
    handle_key_text_changed(&mut state, "k".to_string());
    handle_value_text_changed(&mut state, "v".to_string());
    assert_eq!(state.current_key, "k");
    assert_eq!(state.current_value, "v");
}

#[test]
fn put_submission_builds_the_command_and_clears_the_value() {
    let mut state = State::new();
    handle_value_text_changed(&mut state, "v".to_string());
    let cmd = handle_put_record(&mut state, "k".to_string(), "v".to_string());
    assert_eq!(cmd, P2pCommand::PutRecord("k".to_string(), b"v".to_vec()));
    assert_eq!(state.current_value, "");
}

#[test]
fn get_submission_builds_the_command() {
    let mut state = State::new();
    let cmd = handle_get_record(&mut state, "k".to_string());
    assert_eq!(cmd, P2pCommand::GetRecord("k".to_string()));
}

#[test]
fn form_offers_put_get_or_nothing() {
    assert_eq!(
        input_action(&"k".to_string(), &"v".to_string()),
        InputAction::Put
    );
    assert_eq!(input_action(&"k".to_string(), &"".to_string()), InputAction::Get);
    assert_eq!(
        input_action(&"".to_string(), &"v".to_string()),
        InputAction::Neither
    );
    assert_eq!(input_action(&"".to_string(), &"".to_string()), InputAction::Neither);
}

#[test]
fn theme_follows_the_system_and_defaults_to_dark() {
    assert_eq!(choose_theme(SystemTheme::Light), ThemeChoice::Light);
    assert_eq!(choose_theme(SystemTheme::Dark), ThemeChoice::Dark);
    assert_eq!(choose_theme(SystemTheme::Unspecified), ThemeChoice::Dark);
}
