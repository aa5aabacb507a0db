//! A model of the relay-pool collaborator's control surface: the set of
//! known relays with their connection state, the notification log behind
//! the broadcast subscriptions, and the record of what was sent.
//!
//! The pool's network transport is not here: a host application performs
//! the wire work and drives this state through the defined operations.
//!
//! Each operation's behaviour is a named effect predicate, so that the
//! client's pass-through methods can promise exactly the same effect.

use vstd::prelude::*;
use vstd::pervasive::VecAdditionalExecFns;
use crate::errors::ClientError;
use crate::notifications::{NotificationSubscription, RelayPoolNotification};

verus! {

/// How many notifications the broadcast buffer retains for a lagging
/// subscription before it starts skipping.
pub const DEFAULT_NOTIFICATION_CAPACITY: usize = 64;

/// The connection state of one relay.
#[derive(Clone, Copy, Debug, PartialEq, Eq, Structural)]
pub enum RelayStatus {
    Connected,
    Disconnected,
}

/// One relay known to the pool.
pub struct Relay {
    /// The relay's address text. Unique within a pool.
    pub url: String,
    /// An optional proxy address, as text.
    pub proxy: Option<String>,
    /// Whether the relay is currently connected.
    pub status: RelayStatus,
}

impl Clone for Relay {
    fn clone(&self) -> (r: Self)
        ensures
            r == *self,
    {
        let proxy: Option<String> = match &self.proxy {
            Some(p) => Some(p.clone()),
            None => None,
        };
        Relay { url: self.url.clone(), proxy, status: self.status }
    }
}

/// Whether some relay in the sequence has the given address.
pub open spec fn has_relay(rs: Seq<Relay>, url: Seq<char>) -> bool {
    exists|i: int| 0 <= i < rs.len() && rs[i].url@ == url
}

/// The pool's relay set is well formed: no two relays share an address.
pub open spec fn relays_wf(rs: Seq<Relay>) -> bool {
    forall|i: int, j: int| 0 <= i < j < rs.len() ==> rs[i].url@ != rs[j].url@
}

/// The addresses that a connect-everything pass attempts: exactly those
/// of the relays not already connected, in the order the pool knows them.
pub open spec fn attempt_targets(rs: Seq<Relay>) -> Seq<String>
    decreases rs.len(),
{
    if rs.len() == 0 {
        Seq::empty()
    } else {
        attempt_targets(rs.drop_last()) + (if rs.last().status is Disconnected {
            seq![rs.last().url]
        } else {
            Seq::empty()
        })
    }
}

/// The relay-pool collaborator, modelled at its interface: relays and
/// their state, the published notification log, the active filters, and
/// the events handed over for sending. A connect attempt on a relay is
/// recorded in `connect_attempts`, so a caller can observe which relays
/// were contacted.
pub struct RelayPool {
    /// The relays the pool knows, in insertion order, addresses unique.
    pub relays: Vec<Relay>,
    /// Every address that received a connect attempt, oldest first.
    pub connect_attempts: Vec<String>,
    /// Every notification the pool has published, oldest first.
    pub notif_log: Vec<RelayPoolNotification>,
    /// How many notifications a subscription may fall behind before it
    /// skips ahead.
    pub capacity: usize,
    /// The events handed to the pool for sending, oldest first.
    pub sent: Vec<nostr_sdk_base::Event>,
    /// The subscription filters most recently applied.
    pub filters: Vec<nostr_sdk_base::SubscriptionFilter>,
}

/// Registering a relay: a new entry at the end, initially disconnected,
/// when the address is new; a connection error and no change when it is
/// already known. Well-formedness of the relay set is kept.
pub open spec fn add_relay_effect(
    pre: RelayPool,
    post: RelayPool,
    url: Seq<char>,
    proxy: Option<String>,
    r: Result<(), ClientError>,
) -> bool {
    &&& (has_relay(pre.relays@, url) ==> r == Err::<(), ClientError>(ClientError::Connection)
        && post == pre)
    &&& (!has_relay(pre.relays@, url) ==> (r == Ok::<(), ClientError>(())
        && post.relays@.len() == pre.relays@.len() + 1
        && (forall|i: int| 0 <= i < pre.relays@.len() ==> post.relays@[i] == pre.relays@[i])
        && post.relays@.last().url@ == url
        && post.relays@.last().proxy == proxy
        && post.relays@.last().status is Disconnected
        && post.connect_attempts == pre.connect_attempts
        && post.notif_log == pre.notif_log
        && post.sent == pre.sent
        && post.filters == pre.filters
        && post.capacity == pre.capacity))
    &&& (relays_wf(pre.relays@) ==> relays_wf(post.relays@))
}

/// Forgetting a relay: the entry with the address is taken out when it is
/// known; a connection error and no change when it is not.
pub open spec fn remove_relay_effect(
    pre: RelayPool,
    post: RelayPool,
    url: Seq<char>,
    r: Result<(), ClientError>,
) -> bool {
    &&& (!has_relay(pre.relays@, url) ==> r == Err::<(), ClientError>(ClientError::Connection)
        && post == pre)
    &&& (has_relay(pre.relays@, url) ==> (r == Ok::<(), ClientError>(())
        && (exists|i: int|
            0 <= i < pre.relays@.len() && pre.relays@[i].url@ == url
                && post.relays@ == pre.relays@.remove(i))
        && post.connect_attempts == pre.connect_attempts
        && post.notif_log == pre.notif_log
        && post.sent == pre.sent
        && post.filters == pre.filters
        && post.capacity == pre.capacity))
    &&& (relays_wf(pre.relays@) ==> relays_wf(post.relays@))
    &&& (relays_wf(pre.relays@) ==> !has_relay(post.relays@, url))
}

/// Connecting one relay: its status becomes connected and the attempt is
/// recorded, when the address is known; a connection error, no attempt
/// and no change when it is not. Addresses and proxies never change.
pub open spec fn connect_relay_effect(
    pre: RelayPool,
    post: RelayPool,
    url: Seq<char>,
    r: Result<(), ClientError>,
) -> bool {
    &&& (!has_relay(pre.relays@, url) ==> r == Err::<(), ClientError>(ClientError::Connection)
        && post == pre)
    &&& (has_relay(pre.relays@, url) ==> (r == Ok::<(), ClientError>(())
        && (exists|i: int|
            0 <= i < pre.relays@.len() && pre.relays@[i].url@ == url
                && post.relays@[i].status is Connected
                && (forall|k: int|
                    0 <= k < pre.relays@.len() && k != i ==> post.relays@[k] == pre.relays@[k]))
        && post.connect_attempts@.len() == pre.connect_attempts@.len() + 1
        && post.connect_attempts@.last()@ == url
        && (forall|k: int|
            0 <= k < pre.connect_attempts@.len() ==> post.connect_attempts@[k]
                == pre.connect_attempts@[k])
        && post.notif_log == pre.notif_log
        && post.sent == pre.sent
        && post.filters == pre.filters
        && post.capacity == pre.capacity))
    &&& post.relays@.len() == pre.relays@.len()
    &&& (forall|k: int|
        0 <= k < pre.relays@.len() ==> post.relays@[k].url == pre.relays@[k].url
            && post.relays@[k].proxy == pre.relays@[k].proxy)
    &&& (relays_wf(pre.relays@) ==> relays_wf(post.relays@))
}

/// Disconnecting one relay: its status becomes disconnected, when the
/// address is known; a connection error and no change when it is not.
pub open spec fn disconnect_relay_effect(
    pre: RelayPool,
    post: RelayPool,
    url: Seq<char>,
    r: Result<(), ClientError>,
) -> bool {
    &&& (!has_relay(pre.relays@, url) ==> r == Err::<(), ClientError>(ClientError::Connection)
        && post == pre)
    &&& (has_relay(pre.relays@, url) ==> (r == Ok::<(), ClientError>(())
        && (exists|i: int|
            0 <= i < pre.relays@.len() && pre.relays@[i].url@ == url
                && post.relays@[i].status is Disconnected
                && (forall|k: int|
                    0 <= k < pre.relays@.len() && k != i ==> post.relays@[k] == pre.relays@[k]))
        && post.connect_attempts == pre.connect_attempts
        && post.notif_log == pre.notif_log
        && post.sent == pre.sent
        && post.filters == pre.filters
        && post.capacity == pre.capacity))
    &&& post.relays@.len() == pre.relays@.len()
    &&& (forall|k: int|
        0 <= k < pre.relays@.len() ==> post.relays@[k].url == pre.relays@[k].url
            && post.relays@[k].proxy == pre.relays@[k].proxy)
    &&& (relays_wf(pre.relays@) ==> relays_wf(post.relays@))
}

/// Connecting everything: every relay ends connected, and exactly the
/// ones that were not already connected receive an attempt, in order.
pub open spec fn connect_all_effect(
    pre: RelayPool,
    post: RelayPool,
    r: Result<(), ClientError>,
) -> bool {
    &&& r == Ok::<(), ClientError>(())
    &&& post.relays@.len() == pre.relays@.len()
    &&& (forall|k: int|
        0 <= k < pre.relays@.len() ==> post.relays@[k].url == pre.relays@[k].url
            && post.relays@[k].proxy == pre.relays@[k].proxy
            && post.relays@[k].status is Connected)
    &&& post.connect_attempts@ == pre.connect_attempts@ + attempt_targets(pre.relays@)
    &&& post.notif_log == pre.notif_log
    &&& post.sent == pre.sent
    &&& post.filters == pre.filters
    &&& post.capacity == pre.capacity
    &&& (relays_wf(pre.relays@) ==> relays_wf(post.relays@))
}

/// Subscribing: the active filter set is replaced, nothing else moves.
pub open spec fn subscribe_effect(
    pre: RelayPool,
    post: RelayPool,
    filters: Seq<nostr_sdk_base::SubscriptionFilter>,
    r: Result<(), ClientError>,
) -> bool {
    &&& r == Ok::<(), ClientError>(())
    &&& post.filters@ == filters
    &&& post.relays == pre.relays
    &&& post.connect_attempts == pre.connect_attempts
    &&& post.notif_log == pre.notif_log
    &&& post.sent == pre.sent
    &&& post.capacity == pre.capacity
}

/// Sending: the event is appended to the record of sent events, nothing
/// else moves.
pub open spec fn send_event_effect(
    pre: RelayPool,
    post: RelayPool,
    event: nostr_sdk_base::Event,
    r: Result<(), ClientError>,
) -> bool {
    &&& r == Ok::<(), ClientError>(())
    &&& post.sent@ == pre.sent@.push(event)
    &&& post.relays == pre.relays
    &&& post.connect_attempts == pre.connect_attempts
    &&& post.notif_log == pre.notif_log
    &&& post.filters == pre.filters
    &&& post.capacity == pre.capacity
}

impl RelayPool {
    /// A fresh pool: no relays, nothing published, nothing sent.
    pub fn new() -> (r: Self)
        ensures
            r.relays@.len() == 0,
            r.connect_attempts@.len() == 0,
            r.notif_log@.len() == 0,
            r.sent@.len() == 0,
            r.filters@.len() == 0,
            r.capacity == DEFAULT_NOTIFICATION_CAPACITY,
    {
        Self::with_capacity(DEFAULT_NOTIFICATION_CAPACITY)
    }

    /// A fresh pool whose broadcast buffer retains `capacity` entries.
    pub fn with_capacity(capacity: usize) -> (r: Self)
        requires
            capacity >= 1,
        ensures
            r.relays@.len() == 0,
            r.connect_attempts@.len() == 0,
            r.notif_log@.len() == 0,
            r.sent@.len() == 0,
            r.filters@.len() == 0,
            r.capacity == capacity,
    {
        RelayPool {
            relays: Vec::new(),
            connect_attempts: Vec::new(),
            notif_log: Vec::new(),
            capacity,
            sent: Vec::new(),
            filters: Vec::new(),
        }
    }

    /// The position of the first relay with the given address, if any.
    fn find_relay_index(&self, url: &str) -> (r: Option<usize>)
        ensures
            match r {
                Some(i) => i < self.relays@.len() && self.relays@[i as int].url@ == url@
                    && (forall|j: int| 0 <= j < i ==> self.relays@[j].url@ != url@),
                None => !has_relay(self.relays@, url@),
            },
    {
        let key: String = url.to_owned();
        let mut i: usize = 0;
        while i < self.relays.len()
            invariant
                i <= self.relays@.len(),
                key@ == url@,
                forall|j: int| 0 <= j < i ==> self.relays@[j].url@ != url@,
            decreases self.relays@.len() - i,
        {
            if self.relays[i].url == key {
                return Some(i);
            }
            i = i + 1;
        }
        None
    }

    /// Registers a relay, initially disconnected. Fails when the address
    /// is already known; nothing changes then.
    pub fn add_relay(&mut self, url: &str, proxy: Option<String>) -> (r: Result<(), ClientError>)
        ensures
            add_relay_effect(*old(self), *final(self), url@, proxy, r),
    {
        match self.find_relay_index(url) {
            Some(_) => Err(ClientError::Connection),
            None => {
                self.relays.push(Relay { url: url.to_owned(), proxy, status: RelayStatus::Disconnected });
                proof {
                    if relays_wf(old(self).relays@) {
                        assert forall|i: int, j: int|
                            0 <= i < j < self.relays@.len() implies self.relays@[i].url@
                            != self.relays@[j].url@ by {
                            if j < self.relays@.len() - 1 {
                                assert(self.relays@[i] == old(self).relays@[i]);
                                assert(self.relays@[j] == old(self).relays@[j]);
                            } else {
                                assert(self.relays@[i] == old(self).relays@[i]);
                            }
                        }
                    }
                }
                Ok(())
            },
        }
    }

    /// Forgets the relay with the given address. Fails when the address
    /// is unknown; nothing changes then.
    pub fn remove_relay(&mut self, url: &str) -> (r: Result<(), ClientError>)
        ensures
            remove_relay_effect(*old(self), *final(self), url@, r),
    {
        match self.find_relay_index(url) {
            None => Err(ClientError::Connection),
            Some(i) => {
                self.relays.remove(i);
                proof {
                    assert(final(self).relays@ == old(self).relays@.remove(i as int));
                    if relays_wf(old(self).relays@) {
                        assert forall|p: int, q: int|
                            0 <= p < q < self.relays@.len() implies self.relays@[p].url@
                            != self.relays@[q].url@ by {
                            let pp: int = if p < i { p } else { p + 1 };
                            let qq: int = if q < i { q } else { q + 1 };
                            assert(self.relays@[p] == old(self).relays@[pp]);
                            assert(self.relays@[q] == old(self).relays@[qq]);
                        }
                        assert forall|k: int|
                            0 <= k < self.relays@.len() implies self.relays@[k].url@ != url@ by {
                            let kk: int = if k < i { k } else { k + 1 };
                            assert(self.relays@[k] == old(self).relays@[kk]);
                            if kk != i {
                                assert(old(self).relays@[kk].url@ != old(self).relays@[i as int].url@);
                            }
                        }
                    }
                }
                Ok(())
            },
        }
    }

    /// Attempts to connect the relay with the given address, recording
    /// the attempt. Fails when the address is unknown; nothing changes
    /// then.
    pub fn connect_relay(&mut self, url: &str) -> (r: Result<(), ClientError>)
        ensures
            connect_relay_effect(*old(self), *final(self), url@, r),
    {
        match self.find_relay_index(url) {
            None => Err(ClientError::Connection),
            Some(i) => {
                self.connect_attempts.push(url.to_owned());
                let current = self.relays[i].clone();
                self.relays.set(
                    i,
                    Relay { url: current.url, proxy: current.proxy, status: RelayStatus::Connected },
                );
                Ok(())
            },
        }
    }

    /// Disconnects the relay with the given address. Fails when the
    /// address is unknown; nothing changes then.
    pub fn disconnect_relay(&mut self, url: &str) -> (r: Result<(), ClientError>)
        ensures
            disconnect_relay_effect(*old(self), *final(self), url@, r),
    {
        match self.find_relay_index(url) {
            None => Err(ClientError::Connection),
            Some(i) => {
                let current = self.relays[i].clone();
                self.relays.set(
                    i,
                    Relay {
                        url: current.url,
                        proxy: current.proxy,
                        status: RelayStatus::Disconnected,
                    },
                );
                Ok(())
            },
        }
    }

    /// Attempts to connect every relay not already connected, in order,
    /// and no other: a relay already connected receives no attempt.
    pub fn connect_all(&mut self) -> (r: Result<(), ClientError>)
        ensures
            connect_all_effect(*old(self), *final(self), r),
    {
        let mut updated: Vec<Relay> = Vec::new();
        let mut i: usize = 0;
        while i < self.relays.len()
            invariant
                i <= self.relays@.len(),
                self.relays == old(self).relays,
                self.notif_log == old(self).notif_log,
                self.sent == old(self).sent,
                self.filters == old(self).filters,
                self.capacity == old(self).capacity,
                updated@.len() == i,
                forall|k: int|
                    0 <= k < i ==> updated@[k].url == self.relays@[k].url && updated@[k].proxy
                        == self.relays@[k].proxy && updated@[k].status is Connected,
                self.connect_attempts@ == old(self).connect_attempts@ + attempt_targets(
                    self.relays@.take(i as int),
                ),
            decreases self.relays@.len() - i,
        {
            let current = self.relays[i].clone();
            proof {
                assert(self.relays@.take(i + 1 as int).drop_last() =~= self.relays@.take(i as int));
                assert(self.relays@.take(i + 1 as int).last() == self.relays@[i as int]);
            }
            match current.status {
                RelayStatus::Disconnected => {
                    self.connect_attempts.push(current.url.clone());
                    updated.push(
                        Relay { url: current.url, proxy: current.proxy, status: RelayStatus::Connected },
                    );
                    proof {
                        assert(self.connect_attempts@ == (old(self).connect_attempts@
                            + attempt_targets(self.relays@.take(i as int))).push(
                            self.relays@[i as int].url,
                        ));
                        assert(attempt_targets(self.relays@.take(i + 1 as int))
                            == attempt_targets(self.relays@.take(i as int)) + seq![
                            self.relays@[i as int].url,
                        ]);
                        assert(self.connect_attempts@ =~= old(self).connect_attempts@
                            + attempt_targets(self.relays@.take(i + 1 as int)));
                    }
                },
                RelayStatus::Connected => {
                    updated.push(current);
                    proof {
                        assert(attempt_targets(self.relays@.take(i + 1 as int)) =~= attempt_targets(
                            self.relays@.take(i as int),
                        ));
                    }
                },
            }
            i = i + 1;
        }
        proof {
            assert(self.relays@.take(self.relays@.len() as int) =~= self.relays@);
        }
        self.relays = updated;
        Ok(())
    }

    /// Replaces the active subscription filters with the given set.
    pub fn subscribe(&mut self, filters: Vec<nostr_sdk_base::SubscriptionFilter>) -> (r: Result<
        (),
        ClientError,
    >)
        ensures
            subscribe_effect(*old(self), *final(self), filters@, r),
    {
        self.filters = filters;
        Ok(())
    }

    /// Hands an event to the pool for sending, recording it.
    pub fn send_event(&mut self, event: nostr_sdk_base::Event) -> (r: Result<(), ClientError>)
        ensures
            send_event_effect(*old(self), *final(self), event, r),
    {
        self.sent.push(event);
        Ok(())
    }

    /// Publishes a notification to every subscription: the producer-side
    /// hook that stands for the pool engine's broadcast of received
    /// events and connection changes. A host application's transport
    /// drives it.
    pub fn publish_notification(&mut self, n: RelayPoolNotification)
        ensures
            final(self).notif_log@ == old(self).notif_log@.push(n),
            final(self).relays == old(self).relays,
            final(self).connect_attempts == old(self).connect_attempts,
            final(self).sent == old(self).sent,
            final(self).filters == old(self).filters,
            final(self).capacity == old(self).capacity,
    {
        self.notif_log.push(n);
    }

    /// A fresh, independent subscription. It observes exactly the
    /// notifications published after this call.
    pub fn notifications(&self) -> (r: NotificationSubscription)
        ensures
            r.cursor == self.notif_log@.len(),
    {
        NotificationSubscription { cursor: self.notif_log.len() }
    }
}

} // verus!
