use identified_server::connection::ConnectionSession;
use identified_server::hub::{NotificationHub, PermissionUpdate};
use tokio::sync::mpsc::error::TryRecvError;
use tokio::sync::mpsc::unbounded_channel;

fn event(user_id: i64, permission_id: i64, allowed: bool) -> PermissionUpdate {
    PermissionUpdate { user_id, permission_id, allowed }
}

#[test]
fn subscribe_then_publish_delivers_exactly_to_the_subscriber() {
    let mut hub = NotificationHub::new();
    let (tx1, mut rx1) = unbounded_channel::<PermissionUpdate>();
    let (tx2, mut rx2) = unbounded_channel::<PermissionUpdate>();
    hub.subscribe(1, 10, tx1);
    hub.subscribe(2, 20, tx2);

    let delivered = hub.publish(&event(7, 1, true));
    assert_eq!(delivered, vec![10]);

    assert_eq!(rx1.try_recv().unwrap(), event(7, 1, true));
    assert!(matches!(rx1.try_recv(), Err(TryRecvError::Empty)));
    assert!(matches!(rx2.try_recv(), Err(TryRecvError::Empty)));
}

#[test]
fn unsubscribed_connection_receives_nothing() {
    let mut hub = NotificationHub::new();
    let (tx, mut rx) = unbounded_channel::<PermissionUpdate>();
    hub.subscribe(1, 10, tx);
    hub.unsubscribe(1, 10);

    let delivered = hub.publish(&event(7, 1, true));
    assert!(delivered.is_empty());
    // The hub dropped the registered sender; no event was ever queued.
    assert!(rx.try_recv().is_err());
}

#[test]
fn unsubscribe_of_an_absent_pair_is_a_no_op() {
    let mut hub = NotificationHub::new();
    let (tx, _rx) = unbounded_channel::<PermissionUpdate>();
    hub.subscribe(1, 10, tx);
    hub.unsubscribe(2, 10);
    hub.unsubscribe(1, 11);
    assert!(hub.is_subscribed(1, 10));
}

#[test]
fn both_subscribers_receive_every_event_in_publish_order() {
    let mut hub = NotificationHub::new();
    let (tx1, mut rx1) = unbounded_channel::<PermissionUpdate>();
    let (tx2, mut rx2) = unbounded_channel::<PermissionUpdate>();
    hub.subscribe(5, 1, tx1);
    hub.subscribe(5, 2, tx2);

    let first = event(7, 5, true);
    let second = event(7, 5, false);
    let d1 = hub.publish(&first);
    let d2 = hub.publish(&second);
    assert_eq!(d1.len(), 2);
    assert_eq!(d2.len(), 2);

    assert_eq!(rx1.try_recv().unwrap(), first);
    assert_eq!(rx1.try_recv().unwrap(), second);
    assert_eq!(rx2.try_recv().unwrap(), first);
    assert_eq!(rx2.try_recv().unwrap(), second);
    assert!(matches!(rx1.try_recv(), Err(TryRecvError::Empty)));
    assert!(matches!(rx2.try_recv(), Err(TryRecvError::Empty)));
}

#[test]
fn resubscribing_overwrites_the_prior_channel() {
    let mut hub = NotificationHub::new();
    let (tx_old, mut rx_old) = unbounded_channel::<PermissionUpdate>();
    let (tx_new, mut rx_new) = unbounded_channel::<PermissionUpdate>();
    hub.subscribe(1, 10, tx_old);
    hub.subscribe(1, 10, tx_new);

    let delivered = hub.publish(&event(7, 1, true));
    assert_eq!(delivered, vec![10]);
    // The overwritten sender is gone from the hub; nothing reached it.
    assert!(rx_old.try_recv().is_err());
    assert_eq!(rx_new.try_recv().unwrap(), event(7, 1, true));
}

#[test]
fn dead_subscriber_is_pruned_without_troubling_the_rest() {
    let mut hub = NotificationHub::new();
    let (tx_dead, rx_dead) = unbounded_channel::<PermissionUpdate>();
    let (tx_live, mut rx_live) = unbounded_channel::<PermissionUpdate>();
    hub.subscribe(1, 10, tx_dead);
    hub.subscribe(1, 20, tx_live);
    drop(rx_dead);

    let delivered = hub.publish(&event(7, 1, true));
    assert_eq!(delivered, vec![20]);
    assert_eq!(rx_live.try_recv().unwrap(), event(7, 1, true));

    // The dead entry is gone; the live one stays.
    assert!(!hub.is_subscribed(1, 10));
    assert!(hub.is_subscribed(1, 20));
}

#[test]
fn unsubscribe_all_removes_exactly_one_connection() {
    let mut hub = NotificationHub::new();
    let (tx1, _rx1) = unbounded_channel::<PermissionUpdate>();
    let (tx2, mut rx2) = unbounded_channel::<PermissionUpdate>();
    hub.subscribe(1, 10, tx1.clone());
    hub.subscribe(2, 10, tx1.clone());
    hub.subscribe(3, 10, tx1);
    hub.subscribe(2, 20, tx2);

    hub.unsubscribe_all(10, &vec![1, 2, 3]);
    assert!(!hub.is_subscribed(1, 10));
    assert!(!hub.is_subscribed(2, 10));
    assert!(!hub.is_subscribed(3, 10));
    assert!(!hub.has_connection(10));
    assert!(hub.is_subscribed(2, 20));

    let delivered = hub.publish(&event(9, 2, false));
    assert_eq!(delivered, vec![20]);
    assert_eq!(rx2.try_recv().unwrap(), event(9, 2, false));
}

#[test]
fn session_registers_and_tears_down_exactly_once() {
    let mut hub = NotificationHub::new();
    let (tx, mut rx) = unbounded_channel::<PermissionUpdate>();
    let mut session = ConnectionSession::start(&mut hub, 1, &vec![4, 8], tx);
    assert!(hub.is_subscribed(4, 1));
    assert!(hub.is_subscribed(8, 1));

    let delivered = hub.publish(&event(7, 8, true));
    assert_eq!(delivered, vec![1]);
    assert_eq!(rx.try_recv().unwrap(), event(7, 8, true));

    session.terminate(&mut hub);
    assert!(!hub.has_connection(1));
    let delivered = hub.publish(&event(7, 8, true));
    assert!(delivered.is_empty());

    // A second teardown — the other exit trigger losing the race — is a
    // no-op.
    session.terminate(&mut hub);
    assert!(!hub.has_connection(1));
}

#[test]
fn churn_of_many_simulated_connections_leaves_no_stale_entries() {
    let mut hub = NotificationHub::new();
    let mut sessions = Vec::new();
    let mut receivers = Vec::new();

    // Interleave subscriptions and publishes from many connections.
    for c in 0..20usize {
        let (tx, rx) = unbounded_channel::<PermissionUpdate>();
        let ids: Vec<i64> = vec![(c % 3) as i64, 7, (c % 5) as i64];
        let session = ConnectionSession::start(&mut hub, c, &ids, tx);
        sessions.push(session);
        receivers.push(rx);
        hub.publish(&event(1, (c % 3) as i64, true));
        hub.publish(&event(1, 7, false));
    }

    // Disconnect every other connection, publishing in between.
    for c in (0..20usize).step_by(2) {
        sessions[c].terminate(&mut hub);
        hub.publish(&event(2, 7, true));
    }

    // No entry survives for any disconnected connection id.
    for c in (0..20usize).step_by(2) {
        assert!(!hub.has_connection(c));
    }
    for c in (1..20usize).step_by(2) {
        assert!(hub.has_connection(c));
    }

    // Settle the rest; the registry ends empty.
    for c in (1..20usize).step_by(2) {
        sessions[c].terminate(&mut hub);
    }
    for c in 0..20usize {
        assert!(!hub.has_connection(c));
    }
    let delivered = hub.publish(&event(3, 7, true));
    assert!(delivered.is_empty());
}
