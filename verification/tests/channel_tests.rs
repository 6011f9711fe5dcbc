use p2p_core::channel::{BoundedQueue, SendOutcome};
use p2p_core::data::{Address, P2pEvent};

fn bootstrapped(n: u8) -> P2pEvent {
    P2pEvent::Bootstrapped(Address { bytes: vec![n] })
}

#[test]
fn sends_up_to_capacity_are_accepted() {
    let mut q: BoundedQueue<P2pEvent> = BoundedQueue::new(3);
    assert_eq!(q.try_send(bootstrapped(1)), SendOutcome::Accepted);
    assert_eq!(q.try_send(bootstrapped(2)), SendOutcome::Accepted);
    assert_eq!(q.try_send(bootstrapped(3)), SendOutcome::Accepted);
    assert_eq!(q.len(), 3);
}

#[test]
fn send_past_capacity_is_refused_and_drops_nothing() {
    let mut q: BoundedQueue<P2pEvent> = BoundedQueue::new(3);
    for n in 1..=3 {
        assert_eq!(q.try_send(bootstrapped(n)), SendOutcome::Accepted);
    }
    assert_eq!(q.try_send(bootstrapped(4)), SendOutcome::Full);
    assert_eq!(q.len(), 3);
    assert_eq!(q.recv(), Some(bootstrapped(1)));
    assert_eq!(q.recv(), Some(bootstrapped(2)));
    assert_eq!(q.recv(), Some(bootstrapped(3)));
    assert_eq!(q.recv(), None);
}

#[test]
fn receive_frees_space_for_the_waiting_sender() {
    let mut q: BoundedQueue<P2pEvent> = BoundedQueue::new(1);
    assert_eq!(q.try_send(bootstrapped(1)), SendOutcome::Accepted);
    assert_eq!(q.try_send(bootstrapped(2)), SendOutcome::Full);
    assert_eq!(q.recv(), Some(bootstrapped(1)));
    assert_eq!(q.try_send(bootstrapped(2)), SendOutcome::Accepted);
    assert_eq!(q.recv(), Some(bootstrapped(2)));
}

#[test]
fn receive_order_is_send_order() {
    let mut q: BoundedQueue<P2pEvent> = BoundedQueue::new(10);
    for n in 1..=5 {
        assert_eq!(q.try_send(bootstrapped(n)), SendOutcome::Accepted);
    }
    for n in 1..=5 {
        assert_eq!(q.recv(), Some(bootstrapped(n)));
    }
}

#[test]
fn zero_capacity_queue_accepts_nothing() {
    let mut q: BoundedQueue<P2pEvent> = BoundedQueue::new(0);
    assert_eq!(q.try_send(bootstrapped(1)), SendOutcome::Full);
    assert_eq!(q.recv(), None);
}
