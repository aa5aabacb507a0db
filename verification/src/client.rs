//! The client: a signing identity, an ordered duplicate-free contact
//! list, and the control surface of its own relay pool.
//!
//! Every relay operation is a pass-through to the pool, promising exactly
//! the pool operation's effect. Event deletion composes decode, signed
//! event construction, and send, and fails before any pool interaction
//! when the event-id text is malformed.

use vstd::prelude::*;
use crate::contact::{
    add_contact_spec, contacts_wf, contains_contact, remove_contact_spec, Contact,
};
use crate::errors::ClientError;
use crate::identity::Identity;
use crate::notifications::{spec_recv, NotificationSubscription, RecvOutcome, RelayPoolNotification};
use crate::outside;
use crate::outside::valid_event_id_text;
use crate::pool::{
    add_relay_effect, connect_all_effect, connect_relay_effect, disconnect_relay_effect,
    remove_relay_effect, send_event_effect, subscribe_effect, RelayPool,
    DEFAULT_NOTIFICATION_CAPACITY,
};

verus! {

/// Where a drain of pending notifications begins: at the subscription's
/// cursor, or, when the subscription fell further behind than the pool's
/// buffer retains, at the oldest retained entry.
pub open spec fn drain_start(cursor: int, len: int, capacity: int) -> int {
    if len - cursor > capacity {
        len - capacity
    } else {
        cursor
    }
}

/// The client: owns one relay pool for its whole lifetime, a clone of the
/// identity it was built with, and the contact list.
pub struct Client {
    /// The relay pool, exclusively owned.
    pub pool: RelayPool,
    /// The signing identity. Immutable for the client's lifetime.
    pub keys: Identity,
    /// The contact list: insertion order, no duplicates.
    pub contacts: Vec<Contact>,
}

/// Deleting an event: malformed id text is a parse error before any pool
/// interaction; well-formed text with an identity that cannot sign is a
/// signing error, still before any pool interaction; well-formed text
/// with a signing identity sends exactly one deletion event. Success is
/// owed exactly on the last of the three.
pub open spec fn delete_event_effect(
    pre: Client,
    post: Client,
    event_id: Seq<char>,
    r: Result<(), ClientError>,
) -> bool {
    &&& (r == Err::<(), ClientError>(ClientError::Parse) <==> !valid_event_id_text(event_id))
    &&& (r == Ok::<(), ClientError>(()) <==> valid_event_id_text(event_id)
        && pre.keys.can_sign())
    &&& (valid_event_id_text(event_id) && !pre.keys.can_sign() ==> r == Err::<(), ClientError>(
        ClientError::Signing,
    ))
    &&& (r is Err ==> post == pre)
    &&& (r is Ok ==> (exists|ev: nostr_sdk_base::Event|
        send_event_effect(pre.pool, post.pool, ev, r)) && post.keys == pre.keys && post.contacts
        == pre.contacts)
    &&& (r is Ok <==> post.pool.sent@.len() == pre.pool.sent@.len() + 1)
}

impl Client {
    /// A new client around a fresh, empty relay pool, a clone of the
    /// given identity, and the given contacts, or none when omitted.
    pub fn new(keys: &Identity, contacts: Option<Vec<Contact>>) -> (r: Self)
        ensures
            r.keys == *keys,
            r.pool.relays@.len() == 0,
            r.pool.connect_attempts@.len() == 0,
            r.pool.notif_log@.len() == 0,
            r.pool.sent@.len() == 0,
            r.pool.filters@.len() == 0,
            r.pool.capacity == DEFAULT_NOTIFICATION_CAPACITY,
            match contacts {
                Some(cs) => r.contacts == cs,
                None => r.contacts@.len() == 0 && contacts_wf(r.contacts@),
            },
    {
        Client {
            pool: RelayPool::new(),
            keys: keys.clone(),
            contacts: match contacts {
                Some(cs) => cs,
                None => Vec::new(),
            },
        }
    }

    /// A fresh identity from the operating system's random source. It
    /// holds its secret key, so it can sign; which key comes out depends
    /// on that source.
    pub fn generate_keys() -> (r: Identity)
        ensures
            r.can_sign(),
    {
        Identity::generate()
    }

    /// Appends the contact iff no equal one is already present;
    /// otherwise changes nothing. Idempotent.
    pub fn add_contact(&mut self, contact: Contact)
        ensures
            final(self).contacts@ == add_contact_spec(old(self).contacts@, contact),
            contains_contact(old(self).contacts@, contact@) ==> final(self).contacts@ == old(
                self,
            ).contacts@,
            !contains_contact(old(self).contacts@, contact@) ==> final(self).contacts@ == old(
                self,
            ).contacts@.push(contact),
            contacts_wf(old(self).contacts@) ==> contacts_wf(final(self).contacts@),
            final(self).pool == old(self).pool,
            final(self).keys == old(self).keys,
    {
        if !contains_exec(&self.contacts, &contact) {
            self.contacts.push(contact);
        }
        proof {
            if contacts_wf(old(self).contacts@) {
                crate::contact::lemma_add_preserves_wf(old(self).contacts@, contact);
            }
        }
    }

    /// Removes every element equal to the contact; changes nothing when
    /// none is present.
    pub fn remove_contact(&mut self, contact: &Contact)
        ensures
            final(self).contacts@ == remove_contact_spec(old(self).contacts@, contact@),
            !contains_contact(old(self).contacts@, contact@) ==> final(self).contacts@ == old(
                self,
            ).contacts@,
            contacts_wf(old(self).contacts@) ==> contacts_wf(final(self).contacts@),
            final(self).pool == old(self).pool,
            final(self).keys == old(self).keys,
    {
        let mut kept: Vec<Contact> = Vec::new();
        let mut i: usize = 0;
        while i < self.contacts.len()
            invariant
                i <= self.contacts@.len(),
                self.contacts == old(self).contacts,
                self.pool == old(self).pool,
                self.keys == old(self).keys,
                kept@ == remove_contact_spec(self.contacts@.take(i as int), contact@),
            decreases self.contacts@.len() - i,
        {
            proof {
                assert(self.contacts@.take(i + 1 as int).drop_last() =~= self.contacts@.take(
                    i as int,
                ));
                assert(self.contacts@.take(i + 1 as int).last() == self.contacts@[i as int]);
            }
            if !(self.contacts[i] == *contact) {
                kept.push(self.contacts[i].clone());
            }
            i = i + 1;
        }
        proof {
            assert(self.contacts@.take(self.contacts@.len() as int) =~= self.contacts@);
            if !contains_contact(old(self).contacts@, contact@) {
                crate::contact::lemma_remove_absent_is_noop(old(self).contacts@, contact@);
            }
            if contacts_wf(old(self).contacts@) {
                crate::contact::lemma_remove_preserves_wf(old(self).contacts@, contact@);
            }
        }
        self.contacts = kept;
    }

    /// Registers a relay with the pool; a pure pass-through.
    pub fn add_relay(&mut self, url: &str, proxy: Option<String>) -> (r: Result<(), ClientError>)
        ensures
            add_relay_effect(old(self).pool, final(self).pool, url@, proxy, r),
            final(self).keys == old(self).keys,
            final(self).contacts == old(self).contacts,
    {
        self.pool.add_relay(url, proxy)
    }

    /// Forgets a relay; a pure pass-through.
    pub fn remove_relay(&mut self, url: &str) -> (r: Result<(), ClientError>)
        ensures
            remove_relay_effect(old(self).pool, final(self).pool, url@, r),
            final(self).keys == old(self).keys,
            final(self).contacts == old(self).contacts,
    {
        self.pool.remove_relay(url)
    }

    /// Attempts to connect one relay; a pure pass-through.
    pub fn connect_relay(&mut self, url: &str) -> (r: Result<(), ClientError>)
        ensures
            connect_relay_effect(old(self).pool, final(self).pool, url@, r),
            final(self).keys == old(self).keys,
            final(self).contacts == old(self).contacts,
    {
        self.pool.connect_relay(url)
    }

    /// Disconnects one relay; a pure pass-through.
    pub fn disconnect_relay(&mut self, url: &str) -> (r: Result<(), ClientError>)
        ensures
            disconnect_relay_effect(old(self).pool, final(self).pool, url@, r),
            final(self).keys == old(self).keys,
            final(self).contacts == old(self).contacts,
    {
        self.pool.disconnect_relay(url)
    }

    /// Attempts to connect every relay not already connected, and no
    /// other; a pure pass-through.
    pub fn connect_all(&mut self) -> (r: Result<(), ClientError>)
        ensures
            connect_all_effect(old(self).pool, final(self).pool, r),
            final(self).keys == old(self).keys,
            final(self).contacts == old(self).contacts,
    {
        self.pool.connect_all()
    }

    /// Applies a subscription filter set; a pure pass-through.
    pub fn subscribe(&mut self, filters: Vec<nostr_sdk_base::SubscriptionFilter>) -> (r: Result<
        (),
        ClientError,
    >)
        ensures
            subscribe_effect(old(self).pool, final(self).pool, filters@, r),
            final(self).keys == old(self).keys,
            final(self).contacts == old(self).contacts,
    {
        self.pool.subscribe(filters)
    }

    /// Hands an event to the pool for sending; a pure pass-through.
    pub fn send_event(&mut self, event: nostr_sdk_base::Event) -> (r: Result<(), ClientError>)
        ensures
            send_event_effect(old(self).pool, final(self).pool, event, r),
            final(self).keys == old(self).keys,
            final(self).contacts == old(self).contacts,
    {
        self.pool.send_event(event)
    }

    /// A fresh, independent notification subscription from the pool.
    pub fn notifications(&self) -> (r: NotificationSubscription)
        ensures
            r.cursor == self.pool.notif_log@.len(),
    {
        self.pool.notifications()
    }

    /// Decodes the event-id text, builds a signed deletion event for
    /// exactly that id with no reason text, and sends it. Malformed text
    /// fails with a parse error before any pool interaction; an identity
    /// that cannot sign fails with a signing error, also before any pool
    /// interaction; otherwise exactly one deletion event is sent.
    pub fn delete_event(&mut self, event_id: &str) -> (r: Result<(), ClientError>)
        ensures
            delete_event_effect(*old(self), *final(self), event_id@, r),
    {
        match outside::parse_event_id(event_id) {
            None => Err(ClientError::Parse),
            Some(id) => {
                let mut ids: Vec<bitcoin_hashes::sha256::Hash> = Vec::new();
                ids.push(id);
                match crate::identity::build_delete_event(&self.keys, ids) {
                    Err(_) => Err(ClientError::Signing),
                    Ok(event) => self.send_event(event),
                }
            },
        }
    }

    /// Drains every notification pending on the subscription, handing
    /// each to the callback in publish order. A lagged subscription skips
    /// ahead and keeps receiving. The first callback failure ends the
    /// whole loop at once and is returned; with none, the drain ends
    /// caught up.
    pub fn handle_notifications<F: Fn(RelayPoolNotification) -> Result<(), ClientError>>(
        &self,
        subscription: &mut NotificationSubscription,
        func: F,
    ) -> (r: Result<(), ClientError>)
        requires
            old(subscription).cursor <= self.pool.notif_log@.len(),
            forall|n: RelayPoolNotification| #[trigger] call_requires(func, (n,)),
        ensures
            ({
                let log = self.pool.notif_log@;
                let s = drain_start(
                    old(subscription).cursor as int,
                    log.len() as int,
                    self.pool.capacity as int,
                );
                &&& (r is Ok ==> final(subscription).cursor == log.len() && (forall|i: int|
                    s <= i < log.len() ==> call_ensures(
                        func,
                        (log[i],),
                        Ok::<(), ClientError>(()),
                    )))
                &&& (r matches Err(e) ==> (exists|i: int|
                    s <= i < log.len() && #[trigger] call_ensures(
                        func,
                        (log[i],),
                        Err::<(), ClientError>(e),
                    ) && final(subscription).cursor == i + 1 && (forall|j: int|
                        s <= j < i ==> call_ensures(func, (log[j],), Ok::<(), ClientError>(())))))
            }),
    {
        let ghost log = self.pool.notif_log@;
        let ghost s = drain_start(
            old(subscription).cursor as int,
            log.len() as int,
            self.pool.capacity as int,
        );
        loop
            invariant
                log == self.pool.notif_log@,
                s == drain_start(
                    old(subscription).cursor as int,
                    log.len() as int,
                    self.pool.capacity as int,
                ),
                old(subscription).cursor <= log.len(),
                old(subscription).cursor <= subscription.cursor,
                subscription.cursor <= log.len(),
                subscription.cursor < s ==> subscription.cursor == old(subscription).cursor,
                forall|j: int|
                    s <= j < subscription.cursor ==> call_ensures(
                        func,
                        (log[j],),
                        Ok::<(), ClientError>(()),
                    ),
                forall|n: RelayPoolNotification| #[trigger] call_requires(func, (n,)),
            decreases log.len() - subscription.cursor,
        {
            let ghost cursor_before: int = subscription.cursor as int;
            match subscription.recv(&self.pool) {
                RecvOutcome::Empty => {
                    return Ok(());
                },
                RecvOutcome::Lagged(_) => {},
                RecvOutcome::Received(n) => {
                    proof {
                        assert(cursor_before >= s);
                        assert(n == log[cursor_before]);
                    }
                    let res = func(n);
                    match res {
                        Ok(u) => {
                            proof {
                                assert(res == Ok::<(), ClientError>(u));
                                assert(res == Ok::<(), ClientError>(()));
                                assert(call_ensures(
                                    func,
                                    (log[cursor_before],),
                                    Ok::<(), ClientError>(()),
                                ));
                            }
                        },
                        Err(e) => {
                            return Err(e);
                        },
                    }
                },
            }
        }
    }
}

/// Whether the vector holds a contact equal in value to the given one.
fn contains_exec(cs: &Vec<Contact>, c: &Contact) -> (r: bool)
    ensures
        r == contains_contact(cs@, c@),
{
    let mut i: usize = 0;
    while i < cs.len()
        invariant
            i <= cs@.len(),
            forall|j: int| 0 <= j < i ==> cs@[j]@ != c@,
        decreases cs@.len() - i,
    {
        if cs[i] == *c {
            return true;
        }
        i = i + 1;
    }
    false
}

} // verus!
