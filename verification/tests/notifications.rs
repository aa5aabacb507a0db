use std::cell::Cell;

use nostr_sdk::client::Client;
use nostr_sdk::errors::ClientError;
use nostr_sdk::notifications::{RecvOutcome, RelayPoolNotification};
use nostr_sdk::pool::RelayPool;

fn event(payload: u64) -> RelayPoolNotification {
    RelayPoolNotification::ReceivedEvent { payload }
}

#[test]
fn two_subscriptions_each_observe_a_publish_once_in_order() {
    let mut pool = RelayPool::with_capacity(8);
    let mut s1 = pool.notifications();
    let mut s2 = pool.notifications();
    pool.publish_notification(event(1));
    pool.publish_notification(event(2));
    assert_eq!(s1.recv(&pool), RecvOutcome::Received(event(1)));
    assert_eq!(s2.recv(&pool), RecvOutcome::Received(event(1)));
    assert_eq!(s1.recv(&pool), RecvOutcome::Received(event(2)));
    assert_eq!(s2.recv(&pool), RecvOutcome::Received(event(2)));
    assert_eq!(s1.recv(&pool), RecvOutcome::Empty);
    assert_eq!(s2.recv(&pool), RecvOutcome::Empty);
}

#[test]
fn subscription_sees_nothing_published_before_it() {
    let mut pool = RelayPool::with_capacity(8);
    pool.publish_notification(event(1));
    let mut s = pool.notifications();
    assert_eq!(s.recv(&pool), RecvOutcome::Empty);
    pool.publish_notification(event(2));
    assert_eq!(s.recv(&pool), RecvOutcome::Received(event(2)));
}

#[test]
fn lagged_subscription_skips_and_continues() {
    let mut pool = RelayPool::with_capacity(2);
    let mut s = pool.notifications();
    for p in 1..=5 {
        pool.publish_notification(event(p));
    }
    assert_eq!(s.recv(&pool), RecvOutcome::Lagged(3));
    assert_eq!(s.recv(&pool), RecvOutcome::Received(event(4)));
    assert_eq!(s.recv(&pool), RecvOutcome::Received(event(5)));
    assert_eq!(s.recv(&pool), RecvOutcome::Empty);
}

#[test]
fn handle_notifications_drains_all_in_order() {
    let keys = Client::generate_keys();
    let mut client = Client::new(&keys, None);
    let mut subscription = client.notifications();
    for p in 1..=3 {
        client.pool.publish_notification(event(p));
    }
    let seen: Cell<u64> = Cell::new(0);
    let r = client.handle_notifications(&mut subscription, |n| {
        if let RelayPoolNotification::ReceivedEvent { payload } = n {
            seen.set(seen.get() * 10 + payload);
        }
        Ok(())
    });
    assert_eq!(r, Ok(()));
    assert_eq!(seen.get(), 123);
    assert_eq!(subscription.cursor, 3);
}

#[test]
fn handle_notifications_stops_on_callback_error() {
    let keys = Client::generate_keys();
    let mut client = Client::new(&keys, None);
    let mut subscription = client.notifications();
    for p in 1..=3 {
        client.pool.publish_notification(event(p));
    }
    let calls: Cell<u64> = Cell::new(0);
    let r = client.handle_notifications(&mut subscription, |_n| {
        calls.set(calls.get() + 1);
        if calls.get() == 2 {
            Err(ClientError::Protocol)
        } else {
            Ok(())
        }
    });
    assert_eq!(r, Err(ClientError::Protocol));
    assert_eq!(calls.get(), 2);
    assert_eq!(subscription.cursor, 2);
}

#[test]
fn handle_notifications_skips_lag_then_dispatches() {
    let keys = Client::generate_keys();
    let mut client = Client::new(&keys, None);
    client.pool = RelayPool::with_capacity(2);
    let mut subscription = client.notifications();
    for p in 1..=5 {
        client.pool.publish_notification(event(p));
    }
    let seen: Cell<u64> = Cell::new(0);
    let r = client.handle_notifications(&mut subscription, |n| {
        if let RelayPoolNotification::ReceivedEvent { payload } = n {
            seen.set(seen.get() * 10 + payload);
        }
        Ok(())
    });
    assert_eq!(r, Ok(()));
    assert_eq!(seen.get(), 45);
}
