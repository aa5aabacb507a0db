//! Notification fan-out: broadcast subscriptions over the relay pool's
//! notification log, with the lagging semantics of a bounded buffer.

use vstd::prelude::*;
use crate::pool::RelayPool;

verus! {

/// An opaque tagged signal emitted by the relay pool. The client core
/// never interprets the payload: it only routes the value.
#[derive(Clone, Copy, Debug, PartialEq, Eq, Structural)]
pub enum RelayPoolNotification {
    /// An event arrived from a relay.
    ReceivedEvent { payload: u64 },
    /// A relay entered the connected state.
    RelayConnected { payload: u64 },
    /// A relay left the connected state.
    RelayDisconnected { payload: u64 },
}

/// What one receive on a subscription yields.
#[derive(Clone, Copy, Debug, PartialEq, Eq, Structural)]
pub enum RecvOutcome {
    /// The next notification, in publish order.
    Received(RelayPoolNotification),
    /// The subscription fell behind the pool's buffer: this many entries
    /// were skipped, and receiving goes on from the next retained one.
    Lagged(u64),
    /// The subscription is caught up; nothing is pending.
    Empty,
}

/// A fresh, independent receive handle. It observes every notification
/// published after its creation, in publish order; it shares no backlog
/// with other subscriptions.
pub struct NotificationSubscription {
    /// Position in the pool's notification log: everything before it has
    /// been consumed or skipped.
    pub cursor: usize,
}

/// What one receive yields and where it leaves the cursor, given the
/// pool's full notification log, its buffer capacity, and the cursor.
pub open spec fn spec_recv(
    log: Seq<RelayPoolNotification>,
    capacity: int,
    cursor: int,
) -> (RecvOutcome, int) {
    if cursor >= log.len() {
        (RecvOutcome::Empty, cursor)
    } else if log.len() - cursor > capacity {
        (RecvOutcome::Lagged((log.len() - cursor - capacity) as u64), log.len() - capacity)
    } else {
        (RecvOutcome::Received(log[cursor]), cursor + 1)
    }
}

impl NotificationSubscription {
    /// Receives the next pending notification from the pool this
    /// subscription was taken from. A subscription that fell behind the
    /// pool's buffer is told how many entries it skipped and continues
    /// from the next retained one rather than being torn down.
    pub fn recv(&mut self, pool: &RelayPool) -> (r: RecvOutcome)
        ensures
            (r, final(self).cursor as int) == spec_recv(
                pool.notif_log@,
                pool.capacity as int,
                old(self).cursor as int,
            ),
    {
        let len = pool.notif_log.len();
        if self.cursor >= len {
            RecvOutcome::Empty
        } else if len - self.cursor > pool.capacity {
            let skipped = len - self.cursor - pool.capacity;
            self.cursor = len - pool.capacity;
            RecvOutcome::Lagged(skipped as u64)
        } else {
            let n = pool.notif_log[self.cursor];
            self.cursor = self.cursor + 1;
            RecvOutcome::Received(n)
        }
    }
}

/// Fan-out law: subscriptions taken before a publish observe that publish
/// exactly once, as their next received notification. Two independent
/// subscriptions both sit at the log's end when created, so both receive
/// the published value and move past it.
pub proof fn lemma_fanout_observes_publish(
    log: Seq<RelayPoolNotification>,
    capacity: int,
    n: RelayPoolNotification,
)
    requires
        capacity >= 1,
    ensures
        spec_recv(log.push(n), capacity, log.len() as int) == (
            RecvOutcome::Received(n),
            log.len() + 1 as int,
        ),
{
    assert(log.push(n)[log.len() as int] == n);
}

/// The cursor after a number of receives, each from where the previous
/// one left off.
pub open spec fn cursor_after(
    log: Seq<RelayPoolNotification>,
    capacity: int,
    cursor: int,
    steps: nat,
) -> int
    decreases steps,
{
    if steps == 0 {
        cursor
    } else {
        spec_recv(log, capacity, cursor_after(log, capacity, cursor, (steps - 1) as nat)).1
    }
}

/// A subscription no further behind than the buffer holds walks the log
/// one entry at a time: the cursor advances by exactly one per receive,
/// and the receive at each step yields the entry at that position.
pub proof fn lemma_replay_in_order(
    log: Seq<RelayPoolNotification>,
    capacity: int,
    cursor: int,
    steps: nat,
)
    requires
        capacity >= 1,
        0 <= cursor,
        cursor + steps <= log.len(),
        log.len() - cursor <= capacity,
    ensures
        cursor_after(log, capacity, cursor, steps) == cursor + steps,
        cursor + steps < log.len() ==> spec_recv(log, capacity, cursor + steps).0
            == RecvOutcome::Received(log[cursor + steps]),
    decreases steps,
{
    if steps > 0 {
        lemma_replay_in_order(log, capacity, cursor, (steps - 1) as nat);
    }
}

/// Fan-out law, general form: a subscription taken before a run of
/// publishes no longer than the buffer observes every published
/// notification exactly once — its receives walk the run position by
/// position, so the receive after `t` earlier ones yields the `t`-th
/// published value — and after the whole run it is caught up. A receive
/// depends only on the log and the subscription's own cursor, and every
/// subscription taken before the run starts from the same cursor, so any
/// number of independent subscriptions observe the run alike, in publish
/// order, whoever consumes first.
pub proof fn lemma_fanout_observes_run(
    log: Seq<RelayPoolNotification>,
    published: Seq<RelayPoolNotification>,
    capacity: int,
    t: nat,
)
    requires
        capacity >= 1,
        published.len() <= capacity,
        t < published.len(),
    ensures
        cursor_after(log + published, capacity, log.len() as int, t) == log.len() + t,
        spec_recv(log + published, capacity, (log.len() + t) as int).0 == RecvOutcome::Received(
            published[t as int],
        ),
        cursor_after(log + published, capacity, log.len() as int, published.len()) == (log
            + published).len(),
        spec_recv(log + published, capacity, (log + published).len() as int).0
            == RecvOutcome::Empty,
{
    let full = log + published;
    assert(full.len() == log.len() + published.len());
    lemma_replay_in_order(full, capacity, log.len() as int, t);
    lemma_replay_in_order(full, capacity, log.len() as int, published.len());
    assert(full[(log.len() + t) as int] == published[t as int]);
}

/// Deliveries within one subscription come in publish order: a receive
/// that yields the notification at one position leaves the cursor at the
/// next position, so a later publish is received after an earlier one.
pub proof fn lemma_delivery_in_publish_order(
    log: Seq<RelayPoolNotification>,
    capacity: int,
    cursor: int,
)
    requires
        capacity >= 1,
        0 <= cursor < log.len(),
        log.len() - cursor <= capacity,
    ensures
        spec_recv(log, capacity, cursor) == (RecvOutcome::Received(log[cursor]), cursor + 1),
{
}

/// Lagging law: a subscription that fell behind surfaces a skip count
/// rather than ending, and its very next receive succeeds with the oldest
/// retained notification.
pub proof fn lemma_lag_then_receive(
    log: Seq<RelayPoolNotification>,
    capacity: int,
    cursor: int,
)
    requires
        capacity >= 1,
        0 <= cursor,
        log.len() - cursor > capacity,
    ensures
        spec_recv(log, capacity, cursor).0 == RecvOutcome::Lagged(
            ((log.len() - cursor - capacity) as u64),
        ),
        spec_recv(log, capacity, cursor).1 == log.len() - capacity,
        spec_recv(log, capacity, spec_recv(log, capacity, cursor).1).0 == RecvOutcome::Received(
            log[log.len() - capacity],
        ),
        spec_recv(log, capacity, spec_recv(log, capacity, cursor).1).1 == log.len() - capacity + 1,
{
}

} // verus!
